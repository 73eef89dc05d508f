//! The configuration consulted by a pass sequence: which passes to skip.

use vstd::prelude::*;

verus! {

/// The names of the passes that must not be executed.
pub struct Config {
    ignored: Vec<String>,
}

impl View for Config {
    type V = Seq<Seq<char>>;

    closed spec fn view(&self) -> Seq<Seq<char>> {
        self.ignored@.map_values(|s: String| s@)
    }
}

impl Config {
    /// Whether the pass called `name` is to be skipped under the ignore list `ignored`.
    pub open spec fn ignores(ignored: Seq<Seq<char>>, name: Seq<char>) -> bool {
        ignored.contains(name)
    }

    /// A configuration that ignores exactly the passes named in `ignored`.
    pub fn new(ignored: Vec<String>) -> (r: Self)
        ensures
            r@ == ignored@.map_values(|s: String| s@),
    {
        Config { ignored }
    }

    /// A configuration that ignores nothing.
    pub fn empty() -> (r: Self)
        ensures
            r@ == Seq::<Seq<char>>::empty(),
    {
        let r = Config { ignored: Vec::new() };
        assert(r@ =~= Seq::<Seq<char>>::empty());
        r
    }

    /// Whether the pass called `name` is skipped.
    pub fn is_ignored(&self, name: &str) -> (r: bool)
        ensures
            r == Config::ignores(self@, name@),
    {
        let target = name.to_owned();
        let mut i: usize = 0;
        while i < self.ignored.len()
            invariant
                0 <= i <= self.ignored@.len(),
                target@ == name@,
                forall|j: int| 0 <= j < i ==> self@[j] != name@,
            decreases self.ignored@.len() - i,
        {
            if self.ignored[i] == target {
                assert(self@[i as int] == name@);
                return true;
            }
            i = i + 1;
        }
        assert(!self@.contains(name@));
        false
    }
}

} // verus!
