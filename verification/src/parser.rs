//! The pipeline parser: a three-state automaton over the lexer's token
//! stream. It accumulates leading assignments, a command name and its
//! arguments for each stage, chains stages at pipe separators, and reports a
//! syntax error for a pipe with nothing before it or a statement that ends
//! behind one.

use vstd::prelude::*;

use crate::cmd::args_view;
use crate::cmd::assign::apply_assigns;
use crate::cmd::assign::AssignCmd;
use crate::cmd::cmds_view;
use crate::cmd::spec_create_command;
use crate::cmd::CmdModel;
use crate::cmd::Command;
use crate::env::assigns_view;
use crate::env::Env;
use crate::env::EnvAssign;
use crate::lexer::init_lex_st;
use crate::lexer::lemma_lex_no_setcmd;
use crate::lexer::lemma_lex_rest;
use crate::lexer::lexer_next_spec;
use crate::lexer::Lexer;
use crate::lexer::LexerModel;
use crate::token::Token;
use crate::token::TokenModel;

verus! {

/// The automaton's state: at a stage boundary (`piped` when a pipe was just
/// consumed), inside a run of leading assignments, or inside a command's
/// argument list.
pub enum ParserState {
    Init { piped: bool },
    Assigns { assigns: Vec<EnvAssign> },
    Args { assigns: Vec<EnvAssign>, cmd_path: Vec<u8>, args: Vec<Vec<u8>> },
}

/// The mathematical value of a [`ParserState`].
pub enum ParserStateModel {
    Init { piped: bool },
    Assigns { assigns: Seq<(Seq<u8>, Seq<u8>)> },
    Args { assigns: Seq<(Seq<u8>, Seq<u8>)>, cmd_path: Seq<u8>, args: Seq<Seq<u8>> },
}

impl View for ParserState {
    type V = ParserStateModel;

    open spec fn view(&self) -> ParserStateModel {
        match self {
            ParserState::Init { piped } => ParserStateModel::Init { piped: *piped },
            ParserState::Assigns { assigns } => ParserStateModel::Assigns {
                assigns: assigns_view(assigns@),
            },
            ParserState::Args { assigns, cmd_path, args } => ParserStateModel::Args {
                assigns: assigns_view(assigns@),
                cmd_path: cmd_path@,
                args: args_view(args@),
            },
        }
    }
}

/// The mathematical value of a [`Statement`]: the bindings an
/// assignment-only statement applies directly to the environment, and the
/// pipeline stages — none for an assignment-only statement.
pub struct StatementModel {
    pub assigns: Seq<(Seq<u8>, Seq<u8>)>,
    pub cmds: Seq<CmdModel>,
}

/// What one token does to the automaton.
pub enum ParseStep {
    /// Keep reading tokens, from this state, with this pipeline so far.
    Next(ParserStateModel, Seq<CmdModel>),
    /// The statement is complete.
    DoneOk(StatementModel),
    /// A pipe stood where none may: a syntax error.
    DoneErr,
}

/// The automaton's transition, one token at a time.
///
/// At a stage boundary, end-of-statement closes the pipeline (an error behind
/// a pipe), a pipe is an error when one was already consumed or when nothing
/// stands before it — it arrives legally at a boundary only behind an
/// assignment-only stage — a word opens a command, an assignment opens an
/// assignment run. In an assignment run,
/// end-of-statement makes the statement assignment-only (its bindings go to
/// the environment directly, and the pipeline is empty, when no stage was
/// built yet), a pipe closes the bindings
/// as a stage of their own, a word opens a command that carries them. Inside
/// an argument list, words accumulate, a pipe or end-of-statement closes the
/// stage; an assignment token cannot arrive there, since the lexer is then
/// told to expect a bare word.
pub open spec fn parser_step(st: ParserStateModel, cmds: Seq<CmdModel>, tok: TokenModel) -> ParseStep {
    match st {
        ParserStateModel::Init { piped } => match tok {
            TokenModel::Eps => if piped {
                ParseStep::DoneErr
            } else {
                ParseStep::DoneOk(StatementModel { assigns: Seq::empty(), cmds })
            },
            TokenModel::Pipe => if piped || cmds.len() == 0 {
                ParseStep::DoneErr
            } else {
                ParseStep::Next(ParserStateModel::Init { piped: true }, cmds)
            },
            TokenModel::Path { src, .. } => ParseStep::Next(
                ParserStateModel::Args { assigns: Seq::empty(), cmd_path: src, args: Seq::empty() },
                cmds,
            ),
            TokenModel::SetCmd { lvalue, rvalue, .. } => ParseStep::Next(
                ParserStateModel::Assigns { assigns: seq![(lvalue, rvalue)] },
                cmds,
            ),
        },
        ParserStateModel::Assigns { assigns } => match tok {
            TokenModel::Eps => ParseStep::DoneOk(
                if cmds.len() == 0 {
                    StatementModel { assigns, cmds }
                } else {
                    StatementModel { assigns: Seq::empty(), cmds }
                },
            ),
            TokenModel::Pipe => ParseStep::Next(
                ParserStateModel::Init { piped: false },
                cmds.push(CmdModel::Assign { assigns }),
            ),
            TokenModel::Path { src, .. } => ParseStep::Next(
                ParserStateModel::Args { assigns, cmd_path: src, args: Seq::empty() },
                cmds,
            ),
            TokenModel::SetCmd { lvalue, rvalue, .. } => ParseStep::Next(
                ParserStateModel::Assigns { assigns: assigns.push((lvalue, rvalue)) },
                cmds,
            ),
        },
        ParserStateModel::Args { assigns, cmd_path, args } => match tok {
            TokenModel::Eps => ParseStep::DoneOk(
                StatementModel {
                    assigns: Seq::empty(),
                    cmds: cmds.push(spec_create_command(assigns, cmd_path, args)),
                },
            ),
            TokenModel::Pipe => ParseStep::Next(
                ParserStateModel::Init { piped: true },
                cmds.push(spec_create_command(assigns, cmd_path, args)),
            ),
            TokenModel::Path { src, .. } => ParseStep::Next(
                ParserStateModel::Args { assigns, cmd_path, args: args.push(src) },
                cmds,
            ),
            // Unreachable: the lexer is run with `expect_path` in this state,
            // which suppresses assignment tokens.
            TokenModel::SetCmd { .. } => ParseStep::DoneErr,
        },
    }
}

/// The mathematical value of a [`Parser`]: its lexer, its automaton state,
/// and the stages built so far.
pub struct ParserModel {
    pub lexer: LexerModel,
    pub state: ParserStateModel,
    pub cmds: Seq<CmdModel>,
}

/// How one call of [`Parser::feed`] ends: with the completed statement or a
/// syntax error, or suspended because the lexer needs more input.
pub enum ParseOutcome {
    NeedMore(ParserModel),
    Finished(Result<StatementModel, ()>),
}

/// How many steps the parser can take without consuming input: a queued pipe
/// token, then whatever the lexer's cross-chunk state still finalizes into.
pub open spec fn lexer_pending(m: LexerModel) -> nat {
    (if m.deferred {
        2nat
    } else {
        0nat
    }) + (if m.st.escape_next || m.st.quote is Some || !(m.st.token is Eps) {
        1nat
    } else {
        0nat
    })
}

/// The parser's whole run over the unread input: tokens are drawn from the
/// lexer — with `expect_path` exactly in the argument-list state — and folded
/// through [`parser_step`] until the statement completes, fails, or the lexer
/// asks for more input.
pub open spec fn parser_run(m: ParserModel) -> ParseOutcome
    decreases m.lexer.rest.len(), lexer_pending(m.lexer),
    via parser_run_decreases
{
    let expect_path = m.state is Args;
    let stepped = lexer_next_spec(m.lexer, expect_path);
    match stepped.0 {
        None => ParseOutcome::NeedMore(
            ParserModel { lexer: stepped.1, state: m.state, cmds: m.cmds },
        ),
        Some(tok) => match parser_step(m.state, m.cmds, tok) {
            ParseStep::Next(st2, cmds2) => parser_run(
                ParserModel { lexer: stepped.1, state: st2, cmds: cmds2 },
            ),
            ParseStep::DoneOk(cmds2) => ParseOutcome::Finished(Ok(cmds2)),
            ParseStep::DoneErr => ParseOutcome::Finished(Err(())),
        },
    }
}

#[via_fn]
proof fn parser_run_decreases(m: ParserModel) {
    let expect_path = m.state is Args;
    if !m.lexer.deferred {
        lemma_lex_rest(m.lexer.st, m.lexer.rest, expect_path, m.lexer.env);
    }
}

/// A pipe with nothing before it is rejected before any command is built:
/// when the first token of a fresh statement is the pipe, the parse ends in
/// the syntax error, whatever follows.
pub proof fn lemma_leading_pipe_is_error(m: ParserModel)
    requires
        m.state == (ParserStateModel::Init { piped: false }),
        m.cmds.len() == 0,
        lexer_next_spec(m.lexer, false).0 == Some(TokenModel::Pipe),
    ensures
        parser_run(m) == ParseOutcome::Finished(Err::<StatementModel, ()>(())),
{
}

/// A statement that ends behind a pipe is rejected: when the stage boundary
/// was reached through a pipe and the end-of-statement marker arrives, the
/// parse ends in the syntax error.
pub proof fn lemma_trailing_pipe_is_error(m: ParserModel)
    requires
        m.state == (ParserStateModel::Init { piped: true }),
        lexer_next_spec(m.lexer, false).0 == Some(TokenModel::Eps),
    ensures
        parser_run(m) == ParseOutcome::Finished(Err::<StatementModel, ()>(())),
{
}

/// An assignment-only statement completes with its bindings and zero pipeline
/// stages: at end-of-statement in the assignment run, with no stage built,
/// the bindings go into the statement itself and the pipeline stays empty.
pub proof fn lemma_assignment_only_statement(assigns: Seq<(Seq<u8>, Seq<u8>)>)
    ensures
        parser_step(
            ParserStateModel::Assigns { assigns },
            Seq::empty(),
            TokenModel::Eps,
        ) == ParseStep::DoneOk(StatementModel { assigns, cmds: Seq::empty() }),
{
}

/// The model of a parser right after new input was fed: the same state over
/// the new chunk.
pub open spec fn feed_model(m: ParserModel, buf: Seq<u8>) -> ParserModel {
    ParserModel {
        lexer: LexerModel { st: m.lexer.st, rest: buf, deferred: m.lexer.deferred, env: m.lexer.env },
        state: m.state,
        cmds: m.cmds,
    }
}

/// An illegal token sequence: a pipe with nothing before it, or a statement
/// that ends behind a pipe.
#[derive(Debug)]
pub struct SyntaxError {}

impl SyntaxError {
    /// The diagnostic line for the offending token.
    pub fn message(&self) -> (r: &'static str)
        ensures
            r@ == syntax_error_message(),
    {
        "syntax error near unexpected token `|'"
    }
}

/// The diagnostic text of every syntax error: the pipe is the one token that
/// can stand where none may.
pub open spec fn syntax_error_message() -> Seq<char> {
    "syntax error near unexpected token `|'"@
}

/// One completed statement: the bindings of an assignment-only statement,
/// applied directly to the environment when the statement is finished, and
/// the pipeline stages — none for an assignment-only statement.
pub struct Statement {
    assigns: Vec<EnvAssign>,
    cmds: Vec<Command>,
}

impl View for Statement {
    type V = StatementModel;

    closed spec fn view(&self) -> StatementModel {
        StatementModel { assigns: assigns_view(self.assigns@), cmds: cmds_view(self.cmds@) }
    }
}

impl Statement {
    /// Finish the statement: write an assignment-only statement's bindings
    /// into the environment, and hand the pipeline stages on — zero stages
    /// for an assignment-only statement, so no command runs for it.
    pub fn into_pipeline(self, env: &mut Env) -> (r: Vec<Command>)
        requires
            old(env).wf(),
        ensures
            final(env).wf(),
            final(env)@ == apply_assigns(old(env)@, self@.assigns),
            final(env).dir_spec() == old(env).dir_spec(),
            cmds_view(r@) == self@.cmds,
    {
        let Statement { assigns, cmds } = self;
        let bindings = AssignCmd::new(assigns);
        bindings.run(env);
        cmds
    }
}

/// The pipeline parser: an incremental lexer and the automaton state, with
/// the stages built so far.
pub struct Parser<'a> {
    lexer: Lexer<'a>,
    state: ParserState,
    cmds: Vec<Command>,
}

impl<'a> Parser<'a> {
    /// The mathematical value of this parser.
    pub closed spec fn model(&self) -> ParserModel {
        ParserModel { lexer: self.lexer.model(), state: self.state@, cmds: cmds_view(self.cmds@) }
    }

    /// The lexer is well-formed, and in the argument-list state no assignment
    /// token is under construction: the lexer was last run expecting a bare
    /// word.
    pub closed spec fn wf(&self) -> bool {
        &&& self.lexer.wf()
        &&& (self.state@ is Args ==> self.lexer.model().st.token !is SetCmd)
    }

    pub fn new(env: &'a Env) -> (r: Self)
        requires
            env.wf(),
        ensures
            r.wf(),
            r.model() == (ParserModel {
                lexer: LexerModel {
                    st: init_lex_st(),
                    rest: Seq::<u8>::empty(),
                    deferred: false,
                    env: env@,
                },
                state: ParserStateModel::Init { piped: false },
                cmds: Seq::<CmdModel>::empty(),
            }),
    {
        let r = Self {
            lexer: Lexer::new(env),
            state: ParserState::Init { piped: false },
            cmds: Vec::new(),
        };
        proof {
            assert(cmds_view(r.cmds@) =~= Seq::<CmdModel>::empty());
        }
        r
    }

    /// Build the stage a parsed command denotes: one of the five builtins, or
    /// an external process carrying the stage's local assignments.
    pub fn create_command(assigns: Vec<EnvAssign>, path: Vec<u8>, args: Vec<Vec<u8>>) -> (r:
        Command)
        ensures
            r@ == spec_create_command(assigns_view(assigns@), path@, args_view(args@)),
    {
        match crate::cmd::cmd_kind(&path) {
            crate::cmd::CmdKind::Cat => Command::Cat(crate::cmd::cat::CatCmd::new(args)),
            crate::cmd::CmdKind::Echo => Command::Echo(crate::cmd::echo::EchoCmd::new(args)),
            crate::cmd::CmdKind::Exit => Command::Exit(crate::cmd::exit::ExitCmd::new(args)),
            crate::cmd::CmdKind::Wc => Command::Wc(crate::cmd::wc::WcCmd::new(args)),
            crate::cmd::CmdKind::Pwd => Command::Pwd(crate::cmd::pwd::PwdCmd::new(args)),
            crate::cmd::CmdKind::Other => Command::Proc(
                crate::cmd::proc::ProcCmd::new(path, args, assigns),
            ),
        }
    }

    /// Feed the next input chunk and parse as far as it reaches: the
    /// completed statement — finished against the environment by
    /// [`Statement::into_pipeline`] — a syntax error, or the parser itself
    /// again when the lexer needs more input.
    pub fn feed(self, buf: Vec<u8>) -> (r: (
        Option<Result<Statement, SyntaxError>>,
        Option<Parser<'a>>,
    ))
        requires
            self.wf(),
        ensures
            match parser_run(feed_model(self.model(), buf@)) {
                ParseOutcome::NeedMore(m2) => {
                    &&& r.0 is None
                    &&& r.1 matches Some(p) && p.wf() && p.model() == m2
                },
                ParseOutcome::Finished(res) => {
                    &&& r.1 is None
                    &&& match res {
                        Ok(sm) => r.0 matches Some(Ok(stmt)) && stmt@ == sm,
                        Err(_) => r.0 matches Some(Err(_)),
                    }
                },
            },
    {
        let Parser { mut lexer, mut state, mut cmds } = self;
        lexer.feed(buf);
        let ghost m0 = ParserModel {
            lexer: lexer.model(),
            state: state@,
            cmds: cmds_view(cmds@),
        };
        loop
            invariant
                lexer.wf(),
                state@ is Args ==> lexer.model().st.token !is SetCmd,
                parser_run(
                    ParserModel { lexer: lexer.model(), state: state@, cmds: cmds_view(cmds@) },
                ) == parser_run(m0),
                m0 == feed_model(self.model(), buf@),
            decreases lexer.model().rest.len(), lexer_pending(lexer.model()),
        {
            let ghost lm = lexer.model();
            let expect_path = match &state {
                ParserState::Args { .. } => true,
                _ => false,
            };
            let (tok, lexer2) = lexer.next(expect_path);
            lexer = lexer2;
            proof {
                if !lm.deferred {
                    lemma_lex_rest(lm.st, lm.rest, expect_path, lm.env);
                    if expect_path {
                        lemma_lex_no_setcmd(lm.st, lm.rest, lm.env);
                    }
                }
            }
            match tok {
                None => {
                    return (None, Some(Parser { lexer, state, cmds }));
                },
                Some(token) => {
                    match state {
                        ParserState::Init { piped } => match token {
                            Token::Eps => {
                                if piped {
                                    return (Some(Err(SyntaxError {  })), None);
                                } else {
                                    proof {
                                        assert(assigns_view(Seq::<EnvAssign>::empty())
                                            =~= Seq::<(Seq<u8>, Seq<u8>)>::empty());
                                    }
                                    return (
                                        Some(Ok(Statement { assigns: Vec::new(), cmds })),
                                        None,
                                    );
                                }
                            },
                            Token::Pipe => {
                                if piped || cmds.len() == 0 {
                                    return (Some(Err(SyntaxError {  })), None);
                                } else {
                                    state = ParserState::Init { piped: true };
                                }
                            },
                            Token::Path { src, .. } => {
                                state = ParserState::Args {
                                    assigns: Vec::new(),
                                    cmd_path: src,
                                    args: Vec::new(),
                                };
                                proof {
                                    assert(assigns_view(Seq::<EnvAssign>::empty())
                                        =~= Seq::<(Seq<u8>, Seq<u8>)>::empty());
                                    assert(args_view(Seq::<Vec<u8>>::empty())
                                        =~= Seq::<Seq<u8>>::empty());
                                }
                            },
                            Token::SetCmd { lvalue, rvalue, .. } => {
                                let mut assigns: Vec<EnvAssign> = Vec::new();
                                let a = EnvAssign::new(lvalue, rvalue);
                                proof {
                                    crate::env::lemma_assigns_view_push(assigns@, a);
                                    assert(assigns_view(Seq::<EnvAssign>::empty())
                                        =~= Seq::<(Seq<u8>, Seq<u8>)>::empty());
                                }
                                assigns.push(a);
                                state = ParserState::Assigns { assigns };
                            },
                        },
                        ParserState::Assigns { mut assigns } => match token {
                            Token::Eps => {
                                if cmds.len() == 0 {
                                    return (Some(Ok(Statement { assigns, cmds })), None);
                                } else {
                                    proof {
                                        assert(assigns_view(Seq::<EnvAssign>::empty())
                                            =~= Seq::<(Seq<u8>, Seq<u8>)>::empty());
                                    }
                                    return (
                                        Some(Ok(Statement { assigns: Vec::new(), cmds })),
                                        None,
                                    );
                                }
                            },
                            Token::Pipe => {
                                let stage = Command::Assign(
                                    crate::cmd::assign::AssignCmd::new(assigns),
                                );
                                proof {
                                    crate::cmd::lemma_cmds_view_push(cmds@, stage);
                                }
                                cmds.push(stage);
                                state = ParserState::Init { piped: false };
                            },
                            Token::Path { src, .. } => {
                                state = ParserState::Args {
                                    assigns,
                                    cmd_path: src,
                                    args: Vec::new(),
                                };
                                proof {
                                    assert(args_view(Seq::<Vec<u8>>::empty())
                                        =~= Seq::<Seq<u8>>::empty());
                                }
                            },
                            Token::SetCmd { lvalue, rvalue, .. } => {
                                let a = EnvAssign::new(lvalue, rvalue);
                                proof {
                                    crate::env::lemma_assigns_view_push(assigns@, a);
                                }
                                assigns.push(a);
                                state = ParserState::Assigns { assigns };
                            },
                        },
                        ParserState::Args { assigns, cmd_path, mut args } => match token {
                            Token::Eps => {
                                let stage = Self::create_command(assigns, cmd_path, args);
                                proof {
                                    crate::cmd::lemma_cmds_view_push(cmds@, stage);
                                    assert(assigns_view(Seq::<EnvAssign>::empty())
                                        =~= Seq::<(Seq<u8>, Seq<u8>)>::empty());
                                }
                                cmds.push(stage);
                                return (
                                    Some(Ok(Statement { assigns: Vec::new(), cmds })),
                                    None,
                                );
                            },
                            Token::Pipe => {
                                let stage = Self::create_command(assigns, cmd_path, args);
                                proof {
                                    crate::cmd::lemma_cmds_view_push(cmds@, stage);
                                }
                                cmds.push(stage);
                                state = ParserState::Init { piped: true };
                            },
                            Token::Path { src, .. } => {
                                proof {
                                    crate::cmd::lemma_args_view_push(args@, src);
                                }
                                args.push(src);
                                state = ParserState::Args { assigns, cmd_path, args };
                            },
                            Token::SetCmd { .. } => {
                                proof {
                                    assert(false);
                                }
                                return (Some(Err(SyntaxError {  })), None);
                            },
                        },
                    }
                },
            }
        }
    }
}

} // verus!
