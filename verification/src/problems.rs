//! The problem sink: an ordered, append-only collection of human-readable
//! problem descriptions. The parser and every rule report into it; callers
//! display the collected problems once checking is done.

use vstd::prelude::*;

verus! {

/// A single human-readable problem description. Problems are pure values:
/// no severity, no code, no location beyond what the text itself says.
pub struct Problem {
    /// The description, owned so that it outlives the linted text.
    pub message: String,
}

impl View for Problem {
    type V = Seq<char>;

    open spec fn view(&self) -> Seq<char> {
        self.message@
    }
}

/// An ordered, append-only collection of problems. Order of reports is
/// preserved; nothing is deduplicated.
pub struct Problems {
    /// The problems, in the order they were reported.
    pub problems: Vec<Problem>,
}

impl View for Problems {
    type V = Seq<Seq<char>>;

    open spec fn view(&self) -> Seq<Seq<char>> {
        self.problems@.map_values(|p: Problem| p@)
    }
}

impl Problems {
    /// Creates an empty sink.
    pub fn new() -> (r: Problems)
        ensures
            r@ == Seq::<Seq<char>>::empty(),
    {
        let r = Problems { problems: Vec::new() };
        proof {
            assert(r@ =~= Seq::<Seq<char>>::empty());
        }
        r
    }

    /// Appends one problem description to the sink.
    pub fn report(&mut self, message: String)
        ensures
            final(self)@ == old(self)@.push(message@),
    {
        let ghost prev = self@;
        self.problems.push(Problem { message });
        proof {
            assert(self@ =~= prev.push(self.problems@.last()@));
        }
    }
}

} // verus!
