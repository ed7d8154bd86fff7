//! The commands a pipeline is made of. A fixed, closed set of names maps to
//! builtins; any other name is dispatched to the external-process runner.

use vstd::prelude::*;

pub mod assign;
pub mod cat;
pub mod cd;
pub mod echo;
pub mod exit;
pub mod grep;
pub mod ls;
pub mod noop;
pub mod proc;
pub mod pwd;
pub mod setenv;
pub mod wc;

verus! {

/// The words of an argument list, as mathematical byte strings.
pub open spec fn args_view(s: Seq<Vec<u8>>) -> Seq<Seq<u8>> {
    s.map_values(|v: Vec<u8>| v@)
}

pub proof fn lemma_args_view_push(s: Seq<Vec<u8>>, v: Vec<u8>)
    ensures
        args_view(s.push(v)) == args_view(s).push(v@),
{
    assert forall|j: int| 0 <= j < s.len() + 1 implies args_view(s.push(v))[j] == args_view(
        s,
    ).push(v@)[j] by {
        if j < s.len() {
            assert(s.push(v)[j] == s[j]);
        } else {
            assert(s.push(v)[j] == v);
        }
    }
    assert(args_view(s.push(v)) =~= args_view(s).push(v@));
}

/// The mathematical value of a [`Command`]: which stage it is, with its
/// already-substituted arguments and any command-local assignments.
pub enum CmdModel {
    Assign { assigns: Seq<(Seq<u8>, Seq<u8>)> },
    Cat { args: Seq<Seq<u8>> },
    Echo { args: Seq<Seq<u8>> },
    Exit,
    Wc { args: Seq<Seq<u8>> },
    Pwd,
    Proc { cmd_path: Seq<u8>, args: Seq<Seq<u8>>, assigns: Seq<(Seq<u8>, Seq<u8>)> },
}

/// One runnable pipeline stage.
pub enum Command {
    Assign(assign::AssignCmd),
    Cat(cat::CatCmd),
    Echo(echo::EchoCmd),
    Exit(exit::ExitCmd),
    Wc(wc::WcCmd),
    Pwd(pwd::PwdCmd),
    Proc(proc::ProcCmd),
}

impl View for Command {
    type V = CmdModel;

    open spec fn view(&self) -> CmdModel {
        match self {
            Command::Assign(c) => CmdModel::Assign { assigns: c@ },
            Command::Cat(c) => CmdModel::Cat { args: c@ },
            Command::Echo(c) => CmdModel::Echo { args: c@ },
            Command::Exit(_) => CmdModel::Exit,
            Command::Wc(c) => CmdModel::Wc { args: c@ },
            Command::Pwd(_) => CmdModel::Pwd,
            Command::Proc(c) => CmdModel::Proc {
                cmd_path: c@.cmd_path,
                args: c@.args,
                assigns: c@.assigns,
            },
        }
    }
}

/// The commands of a pipeline, as mathematical values.
pub open spec fn cmds_view(s: Seq<Command>) -> Seq<CmdModel> {
    s.map_values(|c: Command| c@)
}

pub proof fn lemma_cmds_view_push(s: Seq<Command>, c: Command)
    ensures
        cmds_view(s.push(c)) == cmds_view(s).push(c@),
{
    assert forall|j: int| 0 <= j < s.len() + 1 implies cmds_view(s.push(c))[j] == cmds_view(
        s,
    ).push(c@)[j] by {
        if j < s.len() {
            assert(s.push(c)[j] == s[j]);
        } else {
            assert(s.push(c)[j] == c);
        }
    }
    assert(cmds_view(s.push(c)) =~= cmds_view(s).push(c@));
}

/// The builtin name `cat`.
pub open spec fn name_cat() -> Seq<u8> {
    seq![99u8, 97u8, 116u8]
}

/// The builtin name `echo`.
pub open spec fn name_echo() -> Seq<u8> {
    seq![101u8, 99u8, 104u8, 111u8]
}

/// The builtin name `exit`.
pub open spec fn name_exit() -> Seq<u8> {
    seq![101u8, 120u8, 105u8, 116u8]
}

/// The builtin name `wc`.
pub open spec fn name_wc() -> Seq<u8> {
    seq![119u8, 99u8]
}

/// The builtin name `pwd`.
pub open spec fn name_pwd() -> Seq<u8> {
    seq![112u8, 119u8, 100u8]
}

/// Which command a name denotes: one of the five builtins, or an external
/// process.
pub enum CmdKind {
    Cat,
    Echo,
    Exit,
    Wc,
    Pwd,
    Other,
}

/// Command-name resolution: the fixed, closed set of builtin names.
pub open spec fn spec_cmd_kind(path: Seq<u8>) -> CmdKind {
    if path == name_cat() {
        CmdKind::Cat
    } else if path == name_echo() {
        CmdKind::Echo
    } else if path == name_exit() {
        CmdKind::Exit
    } else if path == name_wc() {
        CmdKind::Wc
    } else if path == name_pwd() {
        CmdKind::Pwd
    } else {
        CmdKind::Other
    }
}

/// Resolve a command name to its builtin, or to external dispatch.
pub fn cmd_kind(path: &Vec<u8>) -> (r: CmdKind)
    ensures
        r == spec_cmd_kind(path@),
{
    let n = path.len();
    if n == 3 && path[0] == 99 && path[1] == 97 && path[2] == 116 {
        proof {
            assert(path@ =~= name_cat());
        }
        CmdKind::Cat
    } else if n == 4 && path[0] == 101 && path[1] == 99 && path[2] == 104 && path[3] == 111 {
        proof {
            assert(path@ =~= name_echo());
        }
        CmdKind::Echo
    } else if n == 4 && path[0] == 101 && path[1] == 120 && path[2] == 105 && path[3] == 116 {
        proof {
            assert(path@ =~= name_exit());
        }
        CmdKind::Exit
    } else if n == 2 && path[0] == 119 && path[1] == 99 {
        proof {
            assert(path@ =~= name_wc());
        }
        CmdKind::Wc
    } else if n == 3 && path[0] == 112 && path[1] == 119 && path[2] == 100 {
        proof {
            assert(path@ =~= name_pwd());
        }
        CmdKind::Pwd
    } else {
        proof {
            assert(path@ != name_cat());
            assert(path@ != name_echo());
            assert(path@ != name_exit());
            assert(path@ != name_wc());
            assert(path@ != name_pwd());
        }
        CmdKind::Other
    }
}

/// What command a parsed stage denotes: `cat`, `echo`, `exit`, `wc` and
/// `pwd` are builtins; any other name spawns an external process carrying the
/// stage's local assignments.
pub open spec fn spec_create_command(
    assigns: Seq<(Seq<u8>, Seq<u8>)>,
    path: Seq<u8>,
    args: Seq<Seq<u8>>,
) -> CmdModel {
    match spec_cmd_kind(path) {
        CmdKind::Cat => CmdModel::Cat { args },
        CmdKind::Echo => CmdModel::Echo { args },
        CmdKind::Exit => CmdModel::Exit,
        CmdKind::Wc => CmdModel::Wc { args },
        CmdKind::Pwd => CmdModel::Pwd,
        CmdKind::Other => CmdModel::Proc { cmd_path: path, args, assigns },
    }
}

} // verus!
