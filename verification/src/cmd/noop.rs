//! The no-op command: runs successfully, reads nothing, writes nothing,
//! changes nothing.

use vstd::prelude::*;

verus! {

/// The stage that does nothing.
pub struct NoopCmd {}

impl NoopCmd {
    pub fn new() -> (r: Self) {
        Self {  }
    }

    /// Write nothing.
    pub fn run(&self) -> (r: Vec<u8>)
        ensures
            r@ == Seq::<u8>::empty(),
    {
        Vec::new()
    }
}

} // verus!
