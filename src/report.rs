//! The lines of a run's trace and the helpers that format diagnostic findings.

use vstd::prelude::*;
use vstd::string::StringExecFns;

verus! {

/// One line that a pass sequence emits while it runs.
pub enum Line {
    /// The header: an artifact of type `ty`, rendered as `text`, was found.
    Found { ty: String, text: String },
    /// The pass `name` is about to be executed.
    Running { name: String },
    /// The pass `name` is skipped because the configuration ignores it.
    Ignored { name: String },
}

/// The mathematical content of a [`Line`].
pub enum LineModel {
    Found { ty: Seq<char>, text: Seq<char> },
    Running { name: Seq<char> },
    Ignored { name: Seq<char> },
}

impl View for Line {
    type V = LineModel;

    open spec fn view(&self) -> LineModel {
        match self {
            Line::Found { ty, text } => LineModel::Found { ty: ty@, text: text@ },
            Line::Running { name } => LineModel::Running { name: name@ },
            Line::Ignored { name } => LineModel::Ignored { name: name@ },
        }
    }
}

/// The plain text of a line: `found TY(TEXT)`, `➔ NAME` or `✘ NAME ignored`.
pub open spec fn line_text(l: LineModel) -> Seq<char> {
    match l {
        LineModel::Found { ty, text } => "found "@ + ty + "("@ + text + ")"@,
        LineModel::Running { name } => "➔ "@ + name,
        LineModel::Ignored { name } => "✘ "@ + name + " ignored"@,
    }
}

/// The indentation that every finding line starts with.
pub const INFO_INDENT: &'static str = "   ";

/// `n` spaces.
pub open spec fn spaces(n: nat) -> Seq<char> {
    Seq::new(n, |i: int| ' ')
}

/// A line indented by the base indentation and `indent` more spaces.
pub open spec fn indent_text(indent: nat, text: Seq<char>) -> Seq<char> {
    "   "@ + spaces(indent) + text
}

/// A finding line: the label, a space and the value, indented by `indent`
/// spaces beyond the base indentation.
pub open spec fn info_text(indent: nat, label: Seq<char>, value: Seq<char>) -> Seq<char> {
    indent_text(indent, label + " "@ + value)
}

impl Line {
    /// A line with the same content.
    pub fn duplicate(&self) -> (r: Line)
        ensures
            r@ == self@,
    {
        match self {
            Line::Found { ty, text } => Line::Found { ty: ty.clone(), text: text.clone() },
            Line::Running { name } => Line::Running { name: name.clone() },
            Line::Ignored { name } => Line::Ignored { name: name.clone() },
        }
    }

    /// The plain text of this line.
    pub fn render(&self) -> (r: String)
        ensures
            r@ == line_text(self@),
    {
        match self {
            Line::Found { ty, text } => {
                let mut s = String::from_str("found ");
                s.append(ty.as_str());
                s.append("(");
                s.append(text.as_str());
                s.append(")");
                s
            },
            Line::Running { name } => {
                let mut s = String::from_str("➔ ");
                s.append(name.as_str());
                s
            },
            Line::Ignored { name } => {
                let mut s = String::from_str("✘ ");
                s.append(name.as_str());
                s.append(" ignored");
                s
            },
        }
    }
}

/// Indents `text` by `indent` spaces beyond the base indentation.
pub fn indent_line(indent: usize, text: &str) -> (r: String)
    ensures
        r@ == indent_text(indent as nat, text@),
{
    let mut s = String::from_str(INFO_INDENT);
    let mut i: usize = 0;
    while i < indent
        invariant
            i <= indent,
            s@ == "   "@ + spaces(i as nat),
        decreases indent - i,
    {
        s.append(" ");
        proof {
            reveal_strlit(" ");
        }
        assert(spaces((i + 1) as nat) =~= spaces(i as nat) + " "@);
        i = i + 1;
    }
    s.append(text);
    s
}

/// Formats a labelled finding, indented by `indent` spaces beyond the base
/// indentation.
pub fn info_line(indent: usize, label: &str, value: &str) -> (r: String)
    ensures
        r@ == info_text(indent as nat, label@, value@),
{
    let mut finding = String::from_str(label);
    finding.append(" ");
    finding.append(value);
    indent_line(indent, finding.as_str())
}

/// Formats a finding whose value does not apply: the value reads `n/a`.
pub fn na_line(indent: usize, label: &str) -> (r: String)
    ensures
        r@ == info_text(indent as nat, label@, "n/a"@),
{
    info_line(indent, label, "n/a")
}

} // verus!
