//! A single stored `name=value` pair. Running it does nothing by itself: the
//! binding takes effect only where a stage applies it.

use vstd::prelude::*;

verus! {

/// One stored binding, kept as its two sides.
pub struct SetEnvCmd {
    lhs: Vec<u8>,
    rhs: Vec<u8>,
}

impl View for SetEnvCmd {
    type V = (Seq<u8>, Seq<u8>);

    closed spec fn view(&self) -> (Seq<u8>, Seq<u8>) {
        (self.lhs@, self.rhs@)
    }
}

impl SetEnvCmd {
    pub fn new(lhs: Vec<u8>, rhs: Vec<u8>) -> (r: Self)
        ensures
            r@ == (lhs@, rhs@),
    {
        Self { lhs, rhs }
    }

    /// Running the pair alone writes nothing and succeeds.
    pub fn run(&self) -> (r: Vec<u8>)
        ensures
            r@ == Seq::<u8>::empty(),
    {
        Vec::new()
    }
}

} // verus!
