//! The `exit` builtin: ends the interpreter. Running it writes one line feed
//! and asks the host to terminate the process; that request is the
//! executor's caller's to carry out.

use vstd::prelude::*;

use crate::NEWLINE;

verus! {

/// The `exit` stage. Its arguments are ignored.
pub struct ExitCmd {}

impl ExitCmd {
    pub fn new(_args: Vec<Vec<u8>>) -> (r: Self) {
        Self {  }
    }

    /// The bytes written before the process ends: one line feed.
    pub fn run(&self) -> (r: Vec<u8>)
        ensures
            r@ == seq![NEWLINE],
    {
        let mut out: Vec<u8> = Vec::new();
        out.push(NEWLINE);
        proof {
            assert(out@ =~= seq![NEWLINE]);
        }
        out
    }
}

} // verus!
