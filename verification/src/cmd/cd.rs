//! The `cd` builtin: changes the environment's current directory. Whether the
//! target exists, and its canonical form, only the file system knows; the
//! stage computes the target path and the not-found message.

use vstd::prelude::*;

use crate::env::Env;
use crate::NEWLINE;

verus! {

/// The byte `/`, the path separator.
pub open spec fn path_sep() -> u8 {
    47u8
}

/// The path `cd` asks the file system about: the argument itself when it is
/// absolute, otherwise the current directory, a separator, and the argument.
pub open spec fn cd_target(dir: Seq<u8>, arg: Seq<u8>) -> Seq<u8> {
    if arg.len() > 0 && arg[0] == path_sep() {
        arg
    } else {
        dir + seq![path_sep()] + arg
    }
}

/// The `cd` stage, holding its argument words.
pub struct CdCmd {
    args: Vec<Vec<u8>>,
}

impl View for CdCmd {
    type V = Seq<Seq<u8>>;

    closed spec fn view(&self) -> Seq<Seq<u8>> {
        crate::cmd::args_view(self.args@)
    }
}

impl CdCmd {
    pub fn new(args: Vec<Vec<u8>>) -> (r: Self)
        ensures
            r@ == crate::cmd::args_view(args@),
    {
        Self { args }
    }

    /// The path to resolve: `None` when no argument was given, which asks for
    /// the home directory.
    pub fn target(&self, env: &Env) -> (r: Option<Vec<u8>>)
        ensures
            self@.len() == 0 <==> r is None,
            r matches Some(t) ==> self@.len() > 0 && t@ == cd_target(env.dir_spec(), self@[0]),
    {
        if self.args.len() == 0 {
            return None;
        }
        let arg = &self.args[0];
        if arg.len() > 0 && arg[0] == 47 {
            let t = arg.clone();
            proof {
                assert(t@ =~= self@[0]);
            }
            Some(t)
        } else {
            let mut t = env.get_dir();
            t.push(47);
            let mut a = arg.clone();
            proof {
                assert(a@ =~= self@[0]);
            }
            t.append(&mut a);
            proof {
                assert(t@ =~= cd_target(env.dir_spec(), self@[0]));
            }
            Some(t)
        }
    }

    /// Record the resolved directory.
    pub fn apply(&self, env: &mut Env, resolved: Vec<u8>)
        ensures
            final(env).dir_spec() == resolved@,
            final(env)@ == old(env)@,
            final(env).wf() == old(env).wf(),
    {
        env.set_dir(resolved);
    }

    /// The message written when the target does not exist.
    pub fn not_found_message(&self) -> (r: Vec<u8>)
        requires
            self@.len() > 0,
        ensures
            r@ == cd_not_found_message(self@[0]),
    {
        let mut out = message_head();
        let mut a = self.args[0].clone();
        proof {
            assert(a@ =~= self@[0]);
        }
        out.append(&mut a);
        let mut tail = message_tail();
        out.append(&mut tail);
        out
    }
}

/// `cd: '` — the head of the not-found message.
pub open spec fn cd_message_head() -> Seq<u8> {
    seq![99u8, 100u8, 58u8, 32u8, 39u8]
}

/// `': No such file or directory` and a line feed — the tail of the
/// not-found message.
pub open spec fn cd_message_tail() -> Seq<u8> {
    seq![39u8, 58u8, 32u8]
        + seq![78u8, 111u8, 32u8, 115u8, 117u8, 99u8, 104u8, 32u8]
        + seq![102u8, 105u8, 108u8, 101u8, 32u8, 111u8, 114u8, 32u8]
        + seq![100u8, 105u8, 114u8, 101u8, 99u8, 116u8, 111u8, 114u8, 121u8]
        + seq![NEWLINE]
}

/// The whole not-found message for one argument.
pub open spec fn cd_not_found_message(arg: Seq<u8>) -> Seq<u8> {
    cd_message_head() + arg + cd_message_tail()
}

fn message_head() -> (r: Vec<u8>)
    ensures
        r@ == cd_message_head(),
{
    let mut v: Vec<u8> = Vec::new();
    v.push(99);
    v.push(100);
    v.push(58);
    v.push(32);
    v.push(39);
    proof {
        assert(v@ =~= cd_message_head());
    }
    v
}

fn message_tail() -> (r: Vec<u8>)
    ensures
        r@ == cd_message_tail(),
{
    let mut v: Vec<u8> = Vec::new();
    v.push(39);
    v.push(58);
    v.push(32);
    v.push(78);
    v.push(111);
    v.push(32);
    v.push(115);
    v.push(117);
    v.push(99);
    v.push(104);
    v.push(32);
    v.push(102);
    v.push(105);
    v.push(108);
    v.push(101);
    v.push(32);
    v.push(111);
    v.push(114);
    v.push(32);
    v.push(100);
    v.push(105);
    v.push(114);
    v.push(101);
    v.push(99);
    v.push(116);
    v.push(111);
    v.push(114);
    v.push(121);
    v.push(NEWLINE);
    proof {
        assert(v@ =~= cd_message_tail());
    }
    v
}

} // verus!
