//! The pipeline executor. Stages run strictly sequentially, each to
//! completion: a stage's input is the process input for the first stage and
//! the complete buffered output of its predecessor otherwise; the last
//! stage's output goes to the caller. Execution halts at the first failing
//! stage. What a stage needs from outside — file contents, a spawned
//! process's output, the process input — the caller gathers and hands in.

use vstd::prelude::*;

use crate::cmd::assign::apply_assigns;
use crate::cmd::cat::cat_effective_args;
use crate::cmd::cat::cat_result;
use crate::cmd::cat::clone_args;
use crate::cmd::cat::data_values;
use crate::cmd::cat::dash;
use crate::cmd::cat::dash_vec;
use crate::cmd::cat::result_view;
use crate::cmd::cmds_view;
use crate::cmd::echo::echo_output;
use crate::cmd::pwd::pwd_output;
use crate::cmd::wc::wc_file_bytes;
use crate::cmd::wc::wc_has_dash;
use crate::cmd::wc::wc_result;
use crate::cmd::wc::wc_sum_bytes;
use crate::cmd::CmdModel;
use crate::cmd::Command;
use crate::env::pairs_view;
use crate::env::Env;
use crate::NEWLINE;

verus! {

/// What the caller gathered for one stage: the process input read to its end
/// (asked for only when the first stage consumes it), one read result per
/// requested file path, and the captured result of a requested spawn.
pub struct StageData {
    pub stdin: Option<Vec<u8>>,
    pub files: Vec<Result<Vec<u8>, Vec<u8>>>,
    pub spawned: Option<Result<Vec<u8>, Vec<u8>>>,
}

/// The mathematical value of a [`StageData`].
pub struct StageDataModel {
    pub stdin: Option<Seq<u8>>,
    pub files: Seq<Result<Seq<u8>, Seq<u8>>>,
    pub spawned: Option<Result<Seq<u8>, Seq<u8>>>,
}

impl View for StageData {
    type V = StageDataModel;

    open spec fn view(&self) -> StageDataModel {
        StageDataModel {
            stdin: match &self.stdin {
                Some(v) => Some(v@),
                None => None,
            },
            files: data_values(self.files@),
            spawned: match &self.spawned {
                Some(r) => Some(result_view(*r)),
                None => None,
            },
        }
    }
}

/// What the executor asks the caller to gather before the current stage can
/// run.
pub enum Need {
    /// The stage runs on what it already has.
    Nothing,
    /// Read each path (`-` stands for the stage's input and is not a file);
    /// `wants_input` asks for the process input, read to its end.
    Files { paths: Vec<Vec<u8>>, wants_input: bool },
    /// Spawn the program with these arguments and this variable set, and
    /// capture its output.
    Spawn { path: Vec<u8>, args: Vec<Vec<u8>>, vars: Vec<(Vec<u8>, Vec<u8>)> },
}

/// How one stage ended.
pub enum Step {
    /// The stage succeeded; later stages remain.
    Continue,
    /// The last stage succeeded: its output is the pipeline's.
    Done(Vec<u8>),
    /// The stage failed: the remaining stages are not run. `output` holds the
    /// bytes the stage wrote before failing when the stage was the last one —
    /// whose writes reach the process output — and is empty otherwise, since
    /// an aborted pipeline discards its inner buffers.
    Failed { output: Vec<u8>, message: Vec<u8> },
    /// The stage asks the interpreter to end, after writing these bytes.
    Quit(Vec<u8>),
}

/// The mathematical value of a [`Step`].
pub enum StepModel {
    Continue,
    Done(Seq<u8>),
    Failed { output: Seq<u8>, message: Seq<u8> },
    Quit(Seq<u8>),
}

impl View for Step {
    type V = StepModel;

    open spec fn view(&self) -> StepModel {
        match self {
            Step::Continue => StepModel::Continue,
            Step::Done(v) => StepModel::Done(v@),
            Step::Failed { output, message } => StepModel::Failed {
                output: output@,
                message: message@,
            },
            Step::Quit(v) => StepModel::Quit(v@),
        }
    }
}

/// The mathematical value of an [`Executor`]: the pipeline, the next stage to
/// run, and the previous stage's complete output.
pub struct ExecModel {
    pub cmds: Seq<CmdModel>,
    pub idx: nat,
    pub carry: Seq<u8>,
}

/// The input of the stage at `idx`: the process input for the first stage
/// (empty when none was gathered), the previous stage's complete output
/// otherwise.
pub open spec fn stage_input(idx: nat, carry: Seq<u8>, stdin: Option<Seq<u8>>) -> Seq<u8> {
    if idx == 0 {
        match stdin {
            Some(s) => s,
            None => Seq::empty(),
        }
    } else {
        carry
    }
}

/// What one stage writes before it ends, and the failure that stopped it, if
/// any: each command's own result function, applied to the stage input, the
/// gathered data, and the current directory. Only `cat` both writes and
/// fails: it streams, so the bytes copied before a failed read stay written.
pub open spec fn stage_result(
    cmd: CmdModel,
    input: Seq<u8>,
    d: StageDataModel,
    dir: Seq<u8>,
) -> (Seq<u8>, Option<Seq<u8>>) {
    match cmd {
        CmdModel::Assign { .. } => (Seq::empty(), None),
        CmdModel::Cat { args } => cat_result(cat_effective_args(args), input, d.files),
        CmdModel::Echo { args } => (echo_output(args), None),
        CmdModel::Exit => (seq![NEWLINE], None),
        CmdModel::Wc { args } => match wc_result(cat_effective_args(args), input, d.files) {
            Ok(rows) => (rows, None),
            Err(m) => (Seq::empty(), Some(m)),
        },
        CmdModel::Pwd => (pwd_output(dir), None),
        CmdModel::Proc { .. } => match d.spawned {
            Some(Ok(o)) => (o, None),
            Some(Err(m)) => (Seq::empty(), Some(m)),
            None => (Seq::empty(), Some(Seq::empty())),
        },
    }
}

/// How one stage changes the environment: an assignment stage writes its
/// bindings, in order; every other stage leaves it alone.
pub open spec fn stage_env(cmd: CmdModel, envm: Map<Seq<u8>, Seq<u8>>) -> Map<Seq<u8>, Seq<u8>> {
    match cmd {
        CmdModel::Assign { assigns } => apply_assigns(envm, assigns),
        _ => envm,
    }
}

/// The data a stage needs to have been gathered for it.
pub open spec fn data_ok(cmd: CmdModel, input: Seq<u8>, d: StageDataModel) -> bool {
    match cmd {
        CmdModel::Cat { args } => d.files.len() == cat_effective_args(args).len(),
        CmdModel::Wc { args } => {
            &&& d.files.len() == cat_effective_args(args).len()
            &&& wc_sum_bytes(cat_effective_args(args), input, d.files) <= usize::MAX
            &&& wc_file_bytes(cat_effective_args(args), d.files) <= usize::MAX
        },
        CmdModel::Proc { .. } => d.spawned is Some,
        _ => true,
    }
}

/// One executor step, at the mathematical level: the executor afterwards, how
/// the stage ended, and the environment map afterwards.
pub open spec fn exec_step_spec(
    m: ExecModel,
    d: StageDataModel,
    envm: Map<Seq<u8>, Seq<u8>>,
    dir: Seq<u8>,
) -> (ExecModel, StepModel, Map<Seq<u8>, Seq<u8>>)
    recommends
        m.idx < m.cmds.len(),
{
    let cmd = m.cmds[m.idx as int];
    let input = stage_input(m.idx, m.carry, d.stdin);
    let env2 = stage_env(cmd, envm);
    if cmd is Exit {
        (
            ExecModel { cmds: m.cmds, idx: m.cmds.len(), carry: Seq::empty() },
            StepModel::Quit(seq![NEWLINE]),
            env2,
        )
    } else {
        let written = stage_result(cmd, input, d, dir).0;
        match stage_result(cmd, input, d, dir).1 {
            Some(msg) => (
                ExecModel { cmds: m.cmds, idx: m.cmds.len(), carry: Seq::empty() },
                StepModel::Failed {
                    output: if m.idx + 1 == m.cmds.len() {
                        written
                    } else {
                        Seq::empty()
                    },
                    message: msg,
                },
                env2,
            ),
            None => if m.idx + 1 == m.cmds.len() {
                (
                    ExecModel { cmds: m.cmds, idx: m.cmds.len(), carry: Seq::empty() },
                    StepModel::Done(written),
                    env2,
                )
            } else {
                (
                    ExecModel { cmds: m.cmds, idx: m.idx + 1, carry: written },
                    StepModel::Continue,
                    env2,
                )
            },
        }
    }
}

/// The pipeline executor.
pub struct Executor {
    cmds: Vec<Command>,
    idx: usize,
    carry: Vec<u8>,
}

impl Executor {
    /// The mathematical value of this executor.
    pub closed spec fn model(&self) -> ExecModel {
        ExecModel { cmds: cmds_view(self.cmds@), idx: self.idx as nat, carry: self.carry@ }
    }

    /// The next stage to run lies within the pipeline.
    pub closed spec fn wf(&self) -> bool {
        self.idx <= self.cmds@.len()
    }

    pub fn new(cmds: Vec<Command>) -> (r: Self)
        ensures
            r.wf(),
            r.model() == (ExecModel {
                cmds: cmds_view(cmds@),
                idx: 0,
                carry: Seq::<u8>::empty(),
            }),
    {
        let r = Self { cmds, idx: 0, carry: Vec::new() };
        proof {
            assert(r.carry@ =~= Seq::<u8>::empty());
        }
        r
    }

    /// Whether every stage has run.
    pub fn finished(&self) -> (r: bool)
        requires
            self.wf(),
        ensures
            r == (self.model().idx == self.model().cmds.len()),
    {
        self.idx >= self.cmds.len()
    }

    /// What the caller must gather before the next [`Self::step`].
    pub fn current_need(&self, env: &Env) -> (r: Need)
        requires
            self.wf(),
            self.model().idx < self.model().cmds.len(),
        ensures
            match self.model().cmds[self.model().idx as int] {
                CmdModel::Cat { args } => r matches Need::Files { paths, wants_input }
                    && crate::cmd::args_view(paths@) == cat_effective_args(args) && wants_input == (
                self.model().idx == 0 && wc_has_dash(cat_effective_args(args))),
                CmdModel::Wc { args } => r matches Need::Files { paths, wants_input }
                    && crate::cmd::args_view(paths@) == cat_effective_args(args) && wants_input == (
                self.model().idx == 0 && wc_has_dash(cat_effective_args(args))),
                CmdModel::Proc { cmd_path, args, assigns } => r matches Need::Spawn {
                    path,
                    args: a,
                    vars,
                } && path@ == cmd_path && crate::cmd::args_view(a@) == args && pairs_view(vars@)
                    == env.pairs() + assigns,
                _ => r is Nothing,
            },
    {
        match &self.cmds[self.idx] {
            Command::Cat(c) => {
                let paths = c.sources();
                let wants_input = self.idx == 0 && has_dash_arg(&paths);
                Need::Files { paths, wants_input }
            },
            Command::Wc(c) => {
                let paths = c.sources();
                let wants_input = self.idx == 0 && has_dash_arg(&paths);
                Need::Files { paths, wants_input }
            },
            Command::Proc(c) => {
                let path = c.path().clone();
                proof {
                    assert(path@ =~= c@.cmd_path);
                }
                let args = clone_args(c.args());
                let vars = c.spawn_vars(env);
                Need::Spawn { path, args, vars }
            },
            _ => Need::Nothing,
        }
    }

    /// Run the next stage on its input and the gathered data. The environment
    /// takes the stage's assignments; the executor advances, or stops the
    /// pipeline on a failure or an exit request.
    pub fn step(&mut self, data: StageData, env: &mut Env) -> (r: Step)
        requires
            old(self).wf(),
            old(self).model().idx < old(self).model().cmds.len(),
            old(env).wf(),
            data_ok(
                old(self).model().cmds[old(self).model().idx as int],
                stage_input(old(self).model().idx, old(self).model().carry, data@.stdin),
                data@,
            ),
        ensures
            final(self).wf(),
            final(env).wf(),
            final(env).dir_spec() == old(env).dir_spec(),
            ({
                let stepped = exec_step_spec(
                    old(self).model(),
                    data@,
                    old(env)@,
                    old(env).dir_spec(),
                );
                &&& final(self).model() == stepped.0
                &&& r@ == stepped.1
                &&& final(env)@ == stepped.2
            }),
    {
        let idx = self.idx;
        let n = self.cmds.len();
        let input: Vec<u8> = if idx == 0 {
            match data.stdin {
                Some(s) => s,
                None => Vec::new(),
            }
        } else {
            let mut taken: Vec<u8> = Vec::new();
            core::mem::swap(&mut taken, &mut self.carry);
            taken
        };
        proof {
            assert(input@ == stage_input(old(self).model().idx, old(self).model().carry, data@.stdin));
        }
        let (res, quit): ((Vec<u8>, Option<Vec<u8>>), bool) = match &self.cmds[idx] {
            Command::Assign(c) => {
                c.run(env);
                let empty_out: Vec<u8> = Vec::new();
                proof {
                    assert(empty_out@ =~= Seq::<u8>::empty());
                }
                ((empty_out, None), false)
            },
            Command::Cat(c) => (c.run(&input, &data.files), false),
            Command::Echo(c) => ((c.run(), None), false),
            Command::Exit(c) => ((c.run(), None), true),
            Command::Wc(c) => {
                let stage = match c.run(&input, &data.files) {
                    Ok(rows) => (rows, None),
                    Err(m) => {
                        let empty_out: Vec<u8> = Vec::new();
                        proof {
                            assert(empty_out@ =~= Seq::<u8>::empty());
                        }
                        (empty_out, Some(m))
                    },
                };
                (stage, false)
            },
            Command::Pwd(c) => ((c.run(env), None), false),
            Command::Proc(_) => match data.spawned {
                Some(Ok(o)) => ((o, None), false),
                Some(Err(m)) => {
                    let empty_out: Vec<u8> = Vec::new();
                    proof {
                        assert(empty_out@ =~= Seq::<u8>::empty());
                    }
                    ((empty_out, Some(m)), false)
                },
                None => {
                    proof {
                        assert(false);
                    }
                    ((Vec::new(), None), false)
                },
            },
        };
        let (out, err) = res;
        if quit {
            self.idx = n;
            self.carry = Vec::new();
            proof {
                assert(self.carry@ =~= Seq::<u8>::empty());
            }
            Step::Quit(out)
        } else {
            match err {
                Some(m) => {
                    self.idx = n;
                    self.carry = Vec::new();
                    proof {
                        assert(self.carry@ =~= Seq::<u8>::empty());
                    }
                    if idx + 1 == n {
                        Step::Failed { output: out, message: m }
                    } else {
                        let empty_out: Vec<u8> = Vec::new();
                        proof {
                            assert(empty_out@ =~= Seq::<u8>::empty());
                        }
                        Step::Failed { output: empty_out, message: m }
                    }
                },
                None => {
                    if idx + 1 == n {
                        self.idx = n;
                        self.carry = Vec::new();
                        proof {
                            assert(self.carry@ =~= Seq::<u8>::empty());
                        }
                        Step::Done(out)
                    } else {
                        self.idx = idx + 1;
                        self.carry = out;
                        Step::Continue
                    }
                },
            }
        }
    }
}

/// Whether any argument word is `-`.
fn has_dash_arg(args: &Vec<Vec<u8>>) -> (r: bool)
    ensures
        r == wc_has_dash(crate::cmd::args_view(args@)),
{
    let n = args.len();
    let mut i: usize = 0;
    while i < n
        invariant
            n == args.len(),
            0 <= i <= n,
            forall|j: int| 0 <= j < i ==> crate::cmd::args_view(args@)[j] != dash(),
        decreases n - i,
    {
        if crate::env::bytes_eq(&args[i], &dash_vec()) {
            proof {
                assert(crate::cmd::args_view(args@)[i as int] == dash());
            }
            return true;
        }
        i += 1;
    }
    false
}

/// Pipeline chaining: within one pipeline, every stage after the first reads
/// exactly the complete output of the stage before it. When a stage succeeds
/// with output `out` and stages remain, the next stage's input is `out`,
/// whatever data is gathered for it.
pub proof fn lemma_stage_input_chains(
    m: ExecModel,
    d1: StageDataModel,
    d2: StageDataModel,
    envm: Map<Seq<u8>, Seq<u8>>,
    dir: Seq<u8>,
    out: Seq<u8>,
)
    requires
        m.idx + 1 < m.cmds.len(),
        !(m.cmds[m.idx as int] is Exit),
        stage_result(m.cmds[m.idx as int], stage_input(m.idx, m.carry, d1.stdin), d1, dir) == (
        out,
        Option::<Seq<u8>>::None,
        ),
    ensures
        exec_step_spec(m, d1, envm, dir).1 is Continue,
        stage_input(
            exec_step_spec(m, d1, envm, dir).0.idx,
            exec_step_spec(m, d1, envm, dir).0.carry,
            d2.stdin,
        ) == out,
{
}

/// An assignment-only stage inside a pipeline: it writes its bindings into
/// the environment, succeeds, and hands the empty output on as the next
/// stage's input.
pub proof fn lemma_assign_stage_pipes_empty(
    m: ExecModel,
    d: StageDataModel,
    envm: Map<Seq<u8>, Seq<u8>>,
    dir: Seq<u8>,
    assigns: Seq<(Seq<u8>, Seq<u8>)>,
)
    requires
        m.idx + 1 < m.cmds.len(),
        m.cmds[m.idx as int] == (CmdModel::Assign { assigns }),
    ensures
        exec_step_spec(m, d, envm, dir).1 is Continue,
        exec_step_spec(m, d, envm, dir).2 == apply_assigns(envm, assigns),
        exec_step_spec(m, d, envm, dir).0.carry == Seq::<u8>::empty(),
{
}

} // verus!
