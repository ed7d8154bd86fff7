//! The assignment stage: a statement, or a pipeline stage, made only of
//! `name=value` bindings. Running it writes the bindings into the
//! environment, in order; it reads no input and writes no output.

use vstd::prelude::*;

use crate::env::assigns_view;
use crate::env::Env;
use crate::env::EnvAssign;

verus! {

/// Apply bindings to an environment map, in order: a later binding for the
/// same name wins.
pub open spec fn apply_assigns(
    m: Map<Seq<u8>, Seq<u8>>,
    assigns: Seq<(Seq<u8>, Seq<u8>)>,
) -> Map<Seq<u8>, Seq<u8>>
    decreases assigns.len(),
{
    if assigns.len() == 0 {
        m
    } else {
        apply_assigns(m, assigns.drop_last()).insert(assigns.last().0, assigns.last().1)
    }
}

/// The stage that carries a statement's accumulated assignments.
pub struct AssignCmd {
    assigns: Vec<EnvAssign>,
}

impl View for AssignCmd {
    type V = Seq<(Seq<u8>, Seq<u8>)>;

    closed spec fn view(&self) -> Seq<(Seq<u8>, Seq<u8>)> {
        assigns_view(self.assigns@)
    }
}

impl AssignCmd {
    pub fn new(assigns: Vec<EnvAssign>) -> (r: Self)
        ensures
            r@ == assigns_view(assigns@),
    {
        Self { assigns }
    }

    /// Write every binding into the environment, in order.
    pub fn run(&self, env: &mut Env)
        requires
            old(env).wf(),
        ensures
            final(env).wf(),
            final(env)@ == apply_assigns(old(env)@, self@),
            final(env).dir_spec() == old(env).dir_spec(),
    {
        let n = self.assigns.len();
        let mut i: usize = 0;
        while i < n
            invariant
                env.wf(),
                n == self.assigns.len(),
                0 <= i <= n,
                env@ == apply_assigns(old(env)@, self@.subrange(0, i as int)),
                env.dir_spec() == old(env).dir_spec(),
                self@ == assigns_view(self.assigns@),
            decreases n - i,
        {
            let k = self.assigns[i].lvalue.clone();
            let v = self.assigns[i].rvalue.clone();
            proof {
                assert(k@ =~= self.assigns@[i as int].lvalue@);
                assert(v@ =~= self.assigns@[i as int].rvalue@);
            }
            env.set(k, v);
            i += 1;
            proof {
                let s = self@.subrange(0, i as int);
                assert(s.drop_last() =~= self@.subrange(0, i - 1));
                assert(s.last() == self@[i - 1]);
            }
        }
        proof {
            assert(self@.subrange(0, n as int) =~= self@);
        }
    }
}

} // verus!
