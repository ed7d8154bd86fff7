//! The `echo` builtin: writes its arguments separated by single spaces,
//! followed by a line feed. It reads no input.

use vstd::prelude::*;

use crate::NEWLINE;
use crate::SPACE;

verus! {

/// The bytes `echo` writes for the given arguments: the arguments joined by
/// single spaces, then one line feed.
pub open spec fn echo_output(args: Seq<Seq<u8>>) -> Seq<u8>
    decreases args.len(),
{
    if args.len() == 0 {
        seq![NEWLINE]
    } else if args.len() == 1 {
        args[0].push(NEWLINE)
    } else {
        let front = echo_output(args.drop_last());
        front.drop_last() + seq![SPACE] + args.last() + seq![NEWLINE]
    }
}

/// The `echo` stage, holding its argument words.
pub struct EchoCmd {
    args: Vec<Vec<u8>>,
}

impl View for EchoCmd {
    type V = Seq<Seq<u8>>;

    closed spec fn view(&self) -> Seq<Seq<u8>> {
        crate::cmd::args_view(self.args@)
    }
}

impl EchoCmd {
    pub fn new(args: Vec<Vec<u8>>) -> (r: Self)
        ensures
            r@ == crate::cmd::args_view(args@),
    {
        Self { args }
    }

    /// Produce the output line: the arguments joined by single spaces, then a
    /// line feed.
    pub fn run(&self) -> (r: Vec<u8>)
        ensures
            r@ == echo_output(self@),
    {
        let mut out: Vec<u8> = Vec::new();
        let n = self.args.len();
        let mut i: usize = 0;
        while i < n
            invariant
                n == self.args.len(),
                0 <= i <= n,
                self@ == crate::cmd::args_view(self.args@),
                i == 0 ==> out@ == Seq::<u8>::empty(),
                i > 0 ==> out@.push(NEWLINE) == echo_output(self@.subrange(0, i as int)),
            decreases n - i,
        {
            let ghost out0 = out@;
            if i > 0 {
                out.push(SPACE);
            }
            let mut arg = self.args[i].clone();
            proof {
                assert(arg@ =~= self.args@[i as int]@);
            }
            out.append(&mut arg);
            i += 1;
            proof {
                let s = self@.subrange(0, i as int);
                assert(s.drop_last() =~= self@.subrange(0, i - 1));
                assert(s.last() == self@[i - 1]);
                if i == 1 {
                    assert(out@ =~= self@[0]);
                    assert(s[0] == self@[0]);
                    assert(out@.push(NEWLINE) == echo_output(s));
                } else {
                    let front = echo_output(s.drop_last());
                    assert(out0.push(NEWLINE) == front);
                    assert(front.drop_last() =~= out0);
                    assert(out@ =~= out0 + seq![SPACE] + self@[i - 1]);
                    assert(out@.push(NEWLINE) =~= front.drop_last() + seq![SPACE] + s.last()
                        + seq![NEWLINE]);
                    assert(out@.push(NEWLINE) == echo_output(s));
                }
            }
        }
        out.push(NEWLINE);
        proof {
            if n == 0 {
                assert(out@ =~= seq![NEWLINE]);
                assert(echo_output(self@) == seq![NEWLINE]);
            } else {
                assert(self@.subrange(0, n as int) =~= self@);
            }
        }
        out
    }
}

} // verus!
