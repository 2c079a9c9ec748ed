//! A pair of sinks addressed as one. The host application implements the
//! byte-copying half over its own I/O types; the pairing itself is plain
//! data and is specified here.
use vstd::prelude::*;

verus! {

/// Holds two sinks so that written data can be sent to both.
pub struct TeeWriter<E, A> {
    left: E,
    right: A,
}

impl<E, A> TeeWriter<E, A> {
    /// The first sink of the pair.
    pub closed spec fn spec_left(self) -> E {
        self.left
    }

    /// The second sink of the pair.
    pub closed spec fn spec_right(self) -> A {
        self.right
    }

    /// Pairs the two sinks.
    pub fn new(left: E, right: A) -> (r: Self)
        ensures
            r.spec_left() == left,
            r.spec_right() == right,
    {
        Self { left, right }
    }

    /// Takes the two sinks back out, left first.
    pub fn into_inner(self) -> (r: (E, A))
        ensures
            r.0 == self.spec_left(),
            r.1 == self.spec_right(),
    {
        (self.left, self.right)
    }
}

} // verus!
