//! The `pwd` builtin: writes the environment's current directory followed by
//! a line feed. It reads no input and ignores its arguments.

use vstd::prelude::*;

use crate::env::Env;
use crate::NEWLINE;

verus! {

/// The bytes `pwd` writes: the current directory, then one line feed.
pub open spec fn pwd_output(dir: Seq<u8>) -> Seq<u8> {
    dir.push(NEWLINE)
}

/// The `pwd` stage. Its arguments are ignored.
pub struct PwdCmd {}

impl PwdCmd {
    pub fn new(_args: Vec<Vec<u8>>) -> (r: Self) {
        Self {  }
    }

    /// Write the current directory and a line feed.
    pub fn run(&self, env: &Env) -> (r: Vec<u8>)
        ensures
            r@ == pwd_output(env.dir_spec()),
    {
        let mut out = env.get_dir();
        out.push(NEWLINE);
        out
    }
}

} // verus!
