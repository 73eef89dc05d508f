//! Passes, sequences of passes, and the protocol by which a sequence runs them.

use vstd::prelude::*;
use vstd::string::to_string_from_display_ensures;
use crate::config::Config;
use crate::report::{Line, LineModel};

verus! {

/// The work of a pass: an inspection of an artifact of type `T`, whose effects
/// (typically printed findings) are its own business.
pub trait Executable<T> {
    fn execute(&self, input: &T);
}

/// A named unit of work over one artifact.
#[verifier::reject_recursive_types(T)]
pub struct Pass<T> {
    action: Box<dyn Executable<T>>,
    name: String,
}

impl<T> Pass<T> {
    /// The name of the pass, by which the configuration refers to it.
    pub closed spec fn spec_name(&self) -> Seq<char> {
        self.name@
    }

    /// A pass called `name` that performs `action`.
    pub fn new(action: Box<dyn Executable<T>>, name: &str) -> (r: Self)
        ensures
            r.spec_name() == name@,
    {
        Pass { action, name: name.to_owned() }
    }

    /// The name of the pass.
    pub fn name(&self) -> (r: &str)
        ensures
            r@ == self.spec_name(),
    {
        self.name.as_str()
    }

    /// Performs the pass's work on `input`.
    pub fn run(&self, input: &T) {
        self.action.execute(input);
    }
}


/// One observable step of a run: a trace line handed to the sink, or the
/// execution of the pass at a position of the sequence.
pub enum Event {
    Line(LineModel),
    Executed(int),
}

/// Where a pass sequence writes the lines of its trace and through which it
/// executes its passes, in the order in which the run does both.
pub trait Sink {
    /// What the sink has been handed so far, in order. Verified sinks define
    /// it; the default only lets sinks written outside verified code compile,
    /// and such sinks are trusted to do what `emit` and `execute` promise.
    closed spec fn events(&self) -> Seq<Event> {
        Seq::empty()
    }

    /// Writes one trace line.
    fn emit(&mut self, line: &Line)
        ensures
            final(self).events() == old(self).events().push(Event::Line(line@)),
    ;

    /// Executes `pass`, the pass at position `index`, on `input`.
    fn execute<T>(&mut self, pass: &Pass<T>, index: usize, input: &T)
        ensures
            final(self).events() == old(self).events().push(Event::Executed(index as int)),
    ;
}

/// The trace line of the pass `name`, according to whether it is ignored.
pub open spec fn step_line(name: Seq<char>, ignored: bool) -> LineModel {
    if ignored {
        LineModel::Ignored { name }
    } else {
        LineModel::Running { name }
    }
}

/// What a run does for the pass `name` at position `index`: announce and
/// execute it, or report that it is ignored and leave it alone.
pub open spec fn pass_events(index: int, name: Seq<char>, ignored: bool) -> Seq<Event> {
    if ignored {
        seq![Event::Line(step_line(name, true))]
    } else {
        seq![Event::Line(step_line(name, false)), Event::Executed(index)]
    }
}

/// What a run does for the passes `names`, in order.
pub open spec fn events_of(names: Seq<Seq<char>>, ignored: Seq<Seq<char>>) -> Seq<Event>
    decreases names.len(),
{
    if names.len() == 0 {
        Seq::empty()
    } else {
        events_of(names.drop_last(), ignored) + pass_events(
            names.len() - 1,
            names.last(),
            Config::ignores(ignored, names.last()),
        )
    }
}

/// Everything a run hands to its sink: the header for the artifact, then the
/// events of each pass in registration order.
pub open spec fn run_events(
    ty: Seq<char>,
    text: Seq<char>,
    names: Seq<Seq<char>>,
    ignored: Seq<Seq<char>>,
) -> Seq<Event> {
    seq![Event::Line(LineModel::Found { ty, text })] + events_of(names, ignored)
}

/// The trace lines among `events`, in order.
pub open spec fn lines_in(events: Seq<Event>) -> Seq<LineModel>
    decreases events.len(),
{
    if events.len() == 0 {
        Seq::empty()
    } else {
        match events.last() {
            Event::Line(l) => lines_in(events.drop_last()).push(l),
            Event::Executed(_) => lines_in(events.drop_last()),
        }
    }
}

/// The positions of the passes executed among `events`, in order.
pub open spec fn executions_in(events: Seq<Event>) -> Seq<int>
    decreases events.len(),
{
    if events.len() == 0 {
        Seq::empty()
    } else {
        match events.last() {
            Event::Line(_) => executions_in(events.drop_last()),
            Event::Executed(k) => executions_in(events.drop_last()).push(k),
        }
    }
}

/// An ordered list of passes over artifacts of type `T`, with the
/// configuration that says which to skip and a label for the artifact type.
#[verifier::reject_recursive_types(T)]
pub struct PassSequence<'a, T> {
    passes: Vec<Pass<T>>,
    config: &'a Config,
    ty: String,
}

impl<'a, T> PassSequence<'a, T> {
    /// The passes, in registration order.
    pub closed spec fn passes(&self) -> Seq<Pass<T>> {
        self.passes@
    }

    /// The names of the passes, in registration order.
    pub open spec fn names(&self) -> Seq<Seq<char>> {
        self.passes().map_values(|p: Pass<T>| p.spec_name())
    }

    /// The label of the artifact type.
    pub closed spec fn ty(&self) -> Seq<char> {
        self.ty@
    }

    /// The names that the configuration ignores.
    pub closed spec fn ignored(&self) -> Seq<Seq<char>> {
        self.config@
    }

    /// An empty sequence for artifacts labelled `ty`, consulting `config`.
    pub fn new(config: &'a Config, ty: &str) -> (r: Self)
        ensures
            r.passes() == Seq::<Pass<T>>::empty(),
            r.ty() == ty@,
            r.ignored() == config@,
    {
        PassSequence { passes: Vec::new(), config, ty: ty.to_owned() }
    }

    /// Appends `pass`: it runs after every pass added before it.
    pub fn add_pass(&mut self, pass: Pass<T>)
        ensures
            final(self).passes() == old(self).passes().push(pass),
            final(self).ty() == old(self).ty(),
            final(self).ignored() == old(self).ignored(),
    {
        self.passes.push(pass);
    }

    /// The number of passes.
    pub fn len(&self) -> (r: usize)
        ensures
            r == self.passes().len(),
    {
        self.passes.len()
    }

    /// Runs the passes on `input` and returns the artifact's rendering.
    ///
    /// The sink is handed the header, then, for each pass in registration
    /// order, the answer of the configuration to one query of its name: a
    /// running line followed by the pass's execution, or an ignored line and
    /// nothing else. The sequence itself is left unchanged.
    pub fn run<S: Sink>(&self, input: &T, sink: &mut S) -> (r: String)
        where
            T: core::fmt::Display,
        ensures
            to_string_from_display_ensures::<T>(input, r),
            final(sink).events() == old(sink).events() + run_events(
                self.ty(),
                r@,
                self.names(),
                self.ignored(),
            ),
    {
        let text = input.to_string();
        let header = Line::Found { ty: self.ty.clone(), text: text.clone() };
        sink.emit(&header);
        let ghost start = old(sink).events();
        let ghost names = self.names();
        let ghost ignored = self.ignored();
        assert(names.take(0) =~= Seq::<Seq<char>>::empty());
        assert(sink.events() =~= start + run_events(self.ty@, text@, names.take(0), ignored));
        let mut i: usize = 0;
        while i < self.passes.len()
            invariant
                i <= self.passes@.len(),
                names == self.names(),
                ignored == self.config@,
                sink.events() == start + run_events(self.ty@, text@, names.take(i as int), ignored),
            decreases self.passes@.len() - i,
        {
            let pass = &self.passes[i];
            let ghost before = sink.events();
            assert(names[i as int] == pass.name@);
            let skip = self.config.is_ignored(pass.name.as_str());
            if !skip {
                sink.emit(&Line::Running { name: pass.name.clone() });
                sink.execute(pass, i, input);
            } else {
                sink.emit(&Line::Ignored { name: pass.name.clone() });
            }
            assert(names.take(i + 1).drop_last() =~= names.take(i as int));
            assert(sink.events() =~= before + pass_events(i as int, names[i as int], skip));
            assert(start + run_events(self.ty@, text@, names.take(i + 1), ignored) =~= before
                + pass_events(i as int, names[i as int], skip));
            i = i + 1;
        }
        assert(names.take(i as int) =~= names);
        text
    }
}

/// Builds a sequence for artifacts labelled `ty` that holds `passes`, in order.
pub fn pass_sequence<'a, T>(config: &'a Config, ty: &str, passes: Vec<Pass<T>>) -> (r: PassSequence<'a, T>)
    ensures
        r.passes() == passes@,
        r.ty() == ty@,
        r.ignored() == config@,
{
    PassSequence { passes, config, ty: ty.to_owned() }
}

/// A trace step held in memory.
pub enum Record {
    Line(Line),
    Executed(usize),
}

impl View for Record {
    type V = Event;

    open spec fn view(&self) -> Event {
        match self {
            Record::Line(l) => Event::Line(l@),
            Record::Executed(k) => Event::Executed(*k as int),
        }
    }
}

/// A sink that executes each pass it is handed and keeps the trace in memory.
pub struct TraceBuffer {
    records: Vec<Record>,
}

impl TraceBuffer {
    /// An empty buffer.
    pub fn new() -> (r: Self)
        ensures
            r.events() == Seq::<Event>::empty(),
    {
        let r = TraceBuffer { records: Vec::new() };
        assert(r.events() =~= Seq::<Event>::empty());
        r
    }

    /// What the buffer has been handed, in order.
    pub fn records(&self) -> (r: &Vec<Record>)
        ensures
            r@.map_values(|x: Record| x@) == self.events(),
    {
        &self.records
    }
}

impl Sink for TraceBuffer {
    closed spec fn events(&self) -> Seq<Event> {
        self.records@.map_values(|x: Record| x@)
    }

    fn emit(&mut self, line: &Line) {
        self.records.push(Record::Line(line.duplicate()));
        assert(self.records@.map_values(|x: Record| x@) =~= old(self).records@.map_values(
            |x: Record| x@,
        ).push(Event::Line(line@)));
    }

    fn execute<T>(&mut self, pass: &Pass<T>, index: usize, input: &T) {
        pass.run(input);
        self.records.push(Record::Executed(index));
        assert(self.records@.map_values(|x: Record| x@) =~= old(self).records@.map_values(
            |x: Record| x@,
        ).push(Event::Executed(index as int)));
    }
}

} // verus!
