//! The external-process stage: an unrecognized command name, its arguments,
//! and the statement's command-local assignments. The spawn itself is outside
//! work; this stage only carries what the spawn needs and hands the process's
//! captured output on.

use vstd::prelude::*;

use crate::env::assigns_view;
use crate::env::Env;
use crate::env::EnvAssign;

verus! {

/// The mathematical value of a [`ProcCmd`].
pub struct ProcModel {
    pub cmd_path: Seq<u8>,
    pub args: Seq<Seq<u8>>,
    pub assigns: Seq<(Seq<u8>, Seq<u8>)>,
}

/// The stage that spawns an external process.
pub struct ProcCmd {
    cmd_path: Vec<u8>,
    args: Vec<Vec<u8>>,
    assigns: Vec<EnvAssign>,
}

impl View for ProcCmd {
    type V = ProcModel;

    closed spec fn view(&self) -> ProcModel {
        ProcModel {
            cmd_path: self.cmd_path@,
            args: crate::cmd::args_view(self.args@),
            assigns: assigns_view(self.assigns@),
        }
    }
}

impl ProcCmd {
    pub fn new(cmd_path: Vec<u8>, args: Vec<Vec<u8>>, assigns: Vec<EnvAssign>) -> (r: Self)
        ensures
            r@ == (ProcModel {
                cmd_path: cmd_path@,
                args: crate::cmd::args_view(args@),
                assigns: assigns_view(assigns@),
            }),
    {
        Self { cmd_path, args, assigns }
    }

    /// The program to spawn.
    pub fn path(&self) -> (r: &Vec<u8>)
        ensures
            r@ == self@.cmd_path,
    {
        &self.cmd_path
    }

    /// The argument words to hand the process.
    pub fn args(&self) -> (r: &Vec<Vec<u8>>)
        ensures
            crate::cmd::args_view(r@) == self@.args,
    {
        &self.args
    }

    /// The variable set the process sees: the environment's bindings followed
    /// by this stage's own, which override inherited values for this spawn
    /// only.
    pub fn spawn_vars(&self, env: &Env) -> (r: Vec<(Vec<u8>, Vec<u8>)>)
        ensures
            crate::env::pairs_view(r@) == env.pairs() + self@.assigns,
    {
        let mut assigns: Vec<EnvAssign> = Vec::new();
        let n = self.assigns.len();
        let mut i: usize = 0;
        while i < n
            invariant
                n == self.assigns.len(),
                0 <= i <= n,
                assigns_view(assigns@) =~= assigns_view(self.assigns@.subrange(0, i as int)),
            decreases n - i,
        {
            let k = self.assigns[i].lvalue.clone();
            let v = self.assigns[i].rvalue.clone();
            proof {
                assert(k@ =~= self.assigns@[i as int].lvalue@);
                assert(v@ =~= self.assigns@[i as int].rvalue@);
            }
            let a = EnvAssign::new(k, v);
            proof {
                crate::env::lemma_assigns_view_push(assigns@, a);
            }
            assigns.push(a);
            i += 1;
            proof {
                let s = self.assigns@;
                assert(s.subrange(0, i as int) =~= s.subrange(0, i - 1).push(s[i - 1]));
                crate::env::lemma_assigns_view_push(s.subrange(0, i - 1), s[i - 1]);
                assert(assigns_view(assigns@) =~= assigns_view(s.subrange(0, i as int)));
            }
        }
        proof {
            assert(self.assigns@.subrange(0, n as int) =~= self.assigns@);
        }
        env.with_assigns(assigns)
    }
}

} // verus!
