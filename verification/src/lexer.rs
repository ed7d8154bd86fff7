//! The incremental lexer. It consumes raw byte chunks and yields one token
//! per call, or "need more input" when a chunk ends inside a quote or behind
//! an escape; the caller then feeds the next chunk and retries with the same
//! lexer state. Escaped bytes and quoted bytes are taken verbatim: inside a
//! quote or behind an escape no substitution, assignment or separator is
//! recognized.

use vstd::prelude::*;

use crate::env::Env;
use crate::token::token_close_quote;
use crate::token::token_feed;
use crate::token::token_feed_verbatim;
use crate::token::token_finalize;
use crate::token::token_wf;
use crate::token::Token;
use crate::token::TokenModel;
use crate::BACKSLASH;
use crate::DOUBLE_QUOTE;
use crate::PIPE_SIGN;
use crate::SINGLE_QUOTE;
use crate::SPACE;

verus! {

/// The state that survives between input chunks: a pending escape, an open
/// quote, and the token under construction.
pub struct LexerState {
    pub escape_next: bool,
    pub quote: Option<u8>,
    pub token: Token,
}

/// The mathematical value of a [`LexerState`].
pub struct LexSt {
    pub escape_next: bool,
    pub quote: Option<u8>,
    pub token: TokenModel,
}

impl View for LexerState {
    type V = LexSt;

    open spec fn view(&self) -> LexSt {
        LexSt { escape_next: self.escape_next, quote: self.quote, token: self.token@ }
    }
}

/// The state of a lexer at rest: no escape pending, no open quote, no token
/// under construction.
pub open spec fn init_lex_st() -> LexSt {
    LexSt { escape_next: false, quote: None, token: TokenModel::Eps }
}

impl Default for LexerState {
    fn default() -> (r: Self)
        ensures
            r@ == init_lex_st(),
    {
        Self { escape_next: false, quote: None, token: Token::Eps }
    }
}

/// What one call of [`Lexer::next`] produces, at the mathematical level:
/// the token (`None` when more input is needed), whether a pipe token was
/// queued behind it, the state left behind, and the input left unread.
pub struct LexOut {
    pub tok: Option<TokenModel>,
    pub pipe_deferred: bool,
    pub st: LexSt,
    pub rest: Seq<u8>,
}

/// The lexer's scan, one byte at a time, from state `st` over `input`.
///
/// An escaped byte or a quoted byte goes verbatim into the token under
/// construction. In bare mode a space finalizes the token (runs of spaces
/// with no token in progress are skipped), a backslash arms the escape, a
/// quote byte opens a quote, and a pipe emits the finalized token first and
/// queues the pipe behind it. At the end of the chunk a pending escape or an
/// open quote asks for more input; otherwise the token in progress is
/// finalized and emitted, `Eps` when nothing was accumulated.
pub open spec fn lex(st: LexSt, input: Seq<u8>, expect_path: bool, env: Map<Seq<u8>, Seq<u8>>) -> LexOut
    decreases input.len(),
{
    if input.len() == 0 {
        if st.escape_next || st.quote is Some {
            LexOut { tok: None, pipe_deferred: false, st, rest: input }
        } else {
            LexOut {
                tok: Some(token_finalize(st.token, env)),
                pipe_deferred: false,
                st: init_lex_st(),
                rest: input,
            }
        }
    } else {
        let b = input.first();
        let rest = input.drop_first();
        if st.escape_next {
            lex(
                LexSt {
                    escape_next: false,
                    quote: st.quote,
                    token: token_feed_verbatim(st.token, b, env),
                },
                rest,
                expect_path,
                env,
            )
        } else if st.quote is Some {
            let q = st.quote->0;
            if b == q {
                lex(
                    LexSt { escape_next: false, quote: None, token: token_close_quote(st.token) },
                    rest,
                    expect_path,
                    env,
                )
            } else {
                lex(
                    LexSt {
                        escape_next: false,
                        quote: st.quote,
                        token: token_feed_verbatim(st.token, b, env),
                    },
                    rest,
                    expect_path,
                    env,
                )
            }
        } else if b == SPACE {
            let t = token_finalize(st.token, env);
            if t is Eps {
                lex(init_lex_st(), rest, expect_path, env)
            } else {
                LexOut { tok: Some(t), pipe_deferred: false, st: init_lex_st(), rest }
            }
        } else if b == BACKSLASH {
            lex(
                LexSt { escape_next: true, quote: None, token: st.token },
                rest,
                expect_path,
                env,
            )
        } else if b == SINGLE_QUOTE || b == DOUBLE_QUOTE {
            lex(
                LexSt { escape_next: false, quote: Some(b), token: st.token },
                rest,
                expect_path,
                env,
            )
        } else if b == PIPE_SIGN {
            let t = token_finalize(st.token, env);
            if t is Eps {
                LexOut {
                    tok: Some(TokenModel::Pipe),
                    pipe_deferred: false,
                    st: init_lex_st(),
                    rest,
                }
            } else {
                LexOut { tok: Some(t), pipe_deferred: true, st: init_lex_st(), rest }
            }
        } else {
            lex(
                LexSt {
                    escape_next: false,
                    quote: None,
                    token: token_feed(st.token, b, expect_path, env),
                },
                rest,
                expect_path,
                env,
            )
        }
    }
}

pub proof fn lemma_lex_rest(st: LexSt, input: Seq<u8>, expect_path: bool, env: Map<Seq<u8>, Seq<u8>>)
    ensures
        lex(st, input, expect_path, env).rest.len() <= input.len(),
        lex(st, input, expect_path, env).tok is Some ==> lex(st, input, expect_path, env).st
            == init_lex_st(),
        lex(st, input, expect_path, env).tok is None ==> !lex(
            st,
            input,
            expect_path,
            env,
        ).pipe_deferred,
        lex(st, input, expect_path, env).tok is None ==> lex(
            st,
            input,
            expect_path,
            env,
        ).rest.len() == 0,
        lex(st, input, expect_path, env).tok is None ==> (lex(
            st,
            input,
            expect_path,
            env,
        ).st.escape_next || lex(st, input, expect_path, env).st.quote is Some),
        input.len() > 0 && lex(st, input, expect_path, env).tok is Some ==> lex(
            st,
            input,
            expect_path,
            env,
        ).rest.len() < input.len(),
    decreases input.len(),
{
    if input.len() > 0 {
        let b = input.first();
        let rest = input.drop_first();
        if st.escape_next {
            lemma_lex_rest(
                LexSt {
                    escape_next: false,
                    quote: st.quote,
                    token: token_feed_verbatim(st.token, b, env),
                },
                rest,
                expect_path,
                env,
            );
        } else if st.quote is Some {
            if b == st.quote->0 {
                lemma_lex_rest(
                    LexSt { escape_next: false, quote: None, token: token_close_quote(st.token) },
                    rest,
                    expect_path,
                    env,
                );
            } else {
                lemma_lex_rest(
                    LexSt {
                        escape_next: false,
                        quote: st.quote,
                        token: token_feed_verbatim(st.token, b, env),
                    },
                    rest,
                    expect_path,
                    env,
                );
            }
        } else if b == SPACE {
            if token_finalize(st.token, env) is Eps {
                lemma_lex_rest(init_lex_st(), rest, expect_path, env);
            }
        } else if b == BACKSLASH {
            lemma_lex_rest(
                LexSt { escape_next: true, quote: None, token: st.token },
                rest,
                expect_path,
                env,
            );
        } else if b == SINGLE_QUOTE || b == DOUBLE_QUOTE {
            lemma_lex_rest(
                LexSt { escape_next: false, quote: Some(b), token: st.token },
                rest,
                expect_path,
                env,
            );
        } else if b == PIPE_SIGN {
        } else {
            lemma_lex_rest(
                LexSt {
                    escape_next: false,
                    quote: None,
                    token: token_feed(st.token, b, expect_path, env),
                },
                rest,
                expect_path,
                env,
            );
        }
    }
}

/// While the caller expects a bare word — `expect_path` is true — the scan
/// never forms an assignment token: the `=` reinterpretation is suppressed,
/// so a scan that starts without an assignment under construction never
/// emits one nor leaves one behind.
pub proof fn lemma_lex_no_setcmd(st: LexSt, input: Seq<u8>, env: Map<Seq<u8>, Seq<u8>>)
    requires
        st.token !is SetCmd,
    ensures
        lex(st, input, true, env).tok matches Some(t) ==> t !is SetCmd,
        lex(st, input, true, env).st.token !is SetCmd,
    decreases input.len(),
{
    if input.len() > 0 {
        let b = input.first();
        if st.escape_next {
            lemma_lex_no_setcmd(
                LexSt {
                    escape_next: false,
                    quote: st.quote,
                    token: token_feed_verbatim(st.token, b, env),
                },
                input.drop_first(),
                env,
            );
        } else if st.quote is Some {
            if b == st.quote->0 {
                lemma_lex_no_setcmd(
                    LexSt { escape_next: false, quote: None, token: token_close_quote(st.token) },
                    input.drop_first(),
                    env,
                );
            } else {
                lemma_lex_no_setcmd(
                    LexSt {
                        escape_next: false,
                        quote: st.quote,
                        token: token_feed_verbatim(st.token, b, env),
                    },
                    input.drop_first(),
                    env,
                );
            }
        } else if b == SPACE {
            if token_finalize(st.token, env) is Eps {
                lemma_lex_no_setcmd(init_lex_st(), input.drop_first(), env);
            }
        } else if b == BACKSLASH {
            lemma_lex_no_setcmd(
                LexSt { escape_next: true, quote: None, token: st.token },
                input.drop_first(),
                env,
            );
        } else if b == SINGLE_QUOTE || b == DOUBLE_QUOTE {
            lemma_lex_no_setcmd(
                LexSt { escape_next: false, quote: Some(b), token: st.token },
                input.drop_first(),
                env,
            );
        } else if b == PIPE_SIGN {
        } else {
            lemma_lex_no_setcmd(
                LexSt { escape_next: false, quote: None, token: token_feed(st.token, b, true, env) },
                input.drop_first(),
                env,
            );
        }
    }
}

/// The token sequence of one chunk, scanned to its end from state `st`: each
/// emitted token in order, a queued pipe right after the token it followed,
/// ending with the token finalized at exhaustion. `None` when the chunk ends
/// inside a quote or behind an escape, so that no token sequence is complete.
pub open spec fn lex_tokens(
    st: LexSt,
    input: Seq<u8>,
    expect_path: bool,
    env: Map<Seq<u8>, Seq<u8>>,
) -> Option<Seq<TokenModel>>
    decreases input.len(),
    via lex_tokens_decreases
{
    let out = lex(st, input, expect_path, env);
    match out.tok {
        None => None,
        Some(t) => {
            let emitted: Seq<TokenModel> = if out.pipe_deferred {
                seq![t, TokenModel::Pipe]
            } else {
                seq![t]
            };
            if input.len() == 0 {
                Some(emitted)
            } else {
                match lex_tokens(out.st, out.rest, expect_path, env) {
                    None => None,
                    Some(more) => Some(emitted + more),
                }
            }
        },
    }
}

#[via_fn]
proof fn lex_tokens_decreases(
    st: LexSt,
    input: Seq<u8>,
    expect_path: bool,
    env: Map<Seq<u8>, Seq<u8>>,
) {
    lemma_lex_rest(st, input, expect_path, env);
}

/// One scan step is insensitive to a chunk boundary behind which the lexer
/// asked for more input: scanning `a` and then continuing into `b` from the
/// state left behind reaches exactly the state and token that scanning the
/// concatenation reaches.
pub proof fn lemma_lex_chunk_boundary(
    st: LexSt,
    a: Seq<u8>,
    b: Seq<u8>,
    expect_path: bool,
    env: Map<Seq<u8>, Seq<u8>>,
)
    requires
        lex(st, a, expect_path, env).tok is None,
    ensures
        lex(st, a + b, expect_path, env) == lex(lex(st, a, expect_path, env).st, b, expect_path, env),
    decreases a.len(),
{
    if a.len() == 0 {
        assert(a + b =~= b);
    } else {
        let c = a.first();
        let rest_a = a.drop_first();
        assert((a + b).len() > 0);
        assert((a + b).first() == c);
        assert((a + b).drop_first() =~= rest_a + b);
        if st.escape_next {
            lemma_lex_chunk_boundary(
                LexSt {
                    escape_next: false,
                    quote: st.quote,
                    token: token_feed_verbatim(st.token, c, env),
                },
                rest_a,
                b,
                expect_path,
                env,
            );
        } else if st.quote is Some {
            if c == st.quote->0 {
                lemma_lex_chunk_boundary(
                    LexSt { escape_next: false, quote: None, token: token_close_quote(st.token) },
                    rest_a,
                    b,
                    expect_path,
                    env,
                );
            } else {
                lemma_lex_chunk_boundary(
                    LexSt {
                        escape_next: false,
                        quote: st.quote,
                        token: token_feed_verbatim(st.token, c, env),
                    },
                    rest_a,
                    b,
                    expect_path,
                    env,
                );
            }
        } else if c == SPACE {
            if token_finalize(st.token, env) is Eps {
                lemma_lex_chunk_boundary(init_lex_st(), rest_a, b, expect_path, env);
            } else {
                assert(false);
            }
        } else if c == BACKSLASH {
            lemma_lex_chunk_boundary(
                LexSt { escape_next: true, quote: None, token: st.token },
                rest_a,
                b,
                expect_path,
                env,
            );
        } else if c == SINGLE_QUOTE || c == DOUBLE_QUOTE {
            lemma_lex_chunk_boundary(
                LexSt { escape_next: false, quote: Some(c), token: st.token },
                rest_a,
                b,
                expect_path,
                env,
            );
        } else if c == PIPE_SIGN {
            assert(false);
        } else {
            lemma_lex_chunk_boundary(
                LexSt {
                    escape_next: false,
                    quote: None,
                    token: token_feed(st.token, c, expect_path, env),
                },
                rest_a,
                b,
                expect_path,
                env,
            );
        }
    }
}

/// Chunk-boundary invariance. When a chunk `a` ends inside a quote or behind
/// an escape — the lexer answered "need more input" — then feeding `b`
/// afterwards and continuing with the same lexer state yields exactly the
/// token sequence of the concatenation `a + b` fed in one call.
pub proof fn lemma_chunk_boundary_invariance(
    st: LexSt,
    a: Seq<u8>,
    b: Seq<u8>,
    expect_path: bool,
    env: Map<Seq<u8>, Seq<u8>>,
)
    requires
        lex(st, a, expect_path, env).tok is None,
    ensures
        lex_tokens(st, a + b, expect_path, env) == lex_tokens(
            lex(st, a, expect_path, env).st,
            b,
            expect_path,
            env,
        ),
{
    let st2 = lex(st, a, expect_path, env).st;
    lemma_lex_rest(st, a, expect_path, env);
    lemma_lex_chunk_boundary(st, a, b, expect_path, env);
    let out = lex(st, a + b, expect_path, env);
    assert(out == lex(st2, b, expect_path, env));
    if out.tok is Some {
        if b.len() == 0 {
            assert(st2 == lex(st, a, expect_path, env).st);
            assert(st2.escape_next || st2.quote is Some);
            assert(false);
        }
        assert((a + b).len() > 0);
        assert(lex_tokens(st, a + b, expect_path, env) == lex_tokens(st2, b, expect_path, env));
    }
}

/// The mathematical value of a [`Lexer`]: its state, its unread input, the
/// queued pipe, and the environment it substitutes from.
pub struct LexerModel {
    pub st: LexSt,
    pub rest: Seq<u8>,
    pub deferred: bool,
    pub env: Map<Seq<u8>, Seq<u8>>,
}

/// What one call of [`Lexer::next`] does to a [`LexerModel`]: a queued pipe
/// is returned before any byte is read; otherwise the scan [`lex`] runs over
/// the unread input.
pub open spec fn lexer_next_spec(m: LexerModel, expect_path: bool) -> (Option<TokenModel>, LexerModel) {
    if m.deferred {
        (
            Some(TokenModel::Pipe),
            LexerModel { st: m.st, rest: m.rest, deferred: false, env: m.env },
        )
    } else {
        let out = lex(m.st, m.rest, expect_path, m.env);
        (
            out.tok,
            LexerModel { st: out.st, rest: out.rest, deferred: out.pipe_deferred, env: m.env },
        )
    }
}

/// The view of an optional token.
pub open spec fn opt_token_view(o: Option<Token>) -> Option<TokenModel> {
    match o {
        Some(t) => Some(t@),
        None => None,
    }
}

/// The incremental lexer: cross-chunk state, the current chunk with a read
/// cursor, an optionally queued pipe token, and the environment used for
/// substitution.
pub struct Lexer<'a> {
    state: LexerState,
    pos: usize,
    buf: Vec<u8>,
    deferred_pipe: bool,
    env: &'a Env,
}

impl<'a> Lexer<'a> {
    /// The mathematical value of this lexer.
    pub closed spec fn model(&self) -> LexerModel {
        LexerModel {
            st: self.state@,
            rest: self.buf@.skip(self.pos as int),
            deferred: self.deferred_pipe,
            env: self.env@,
        }
    }

    /// The token under construction is a well-formed non-pipe token, and the
    /// environment has no duplicate bindings.
    pub closed spec fn wf(&self) -> bool {
        &&& token_wf(self.state@.token)
        &&& self.state@.token !is Pipe
        &&& self.env.wf()
        &&& self.pos <= self.buf@.len()
    }

    pub fn new(env: &'a Env) -> (r: Self)
        requires
            env.wf(),
        ensures
            r.wf(),
            r.model() == (LexerModel {
                st: init_lex_st(),
                rest: Seq::<u8>::empty(),
                deferred: false,
                env: env@,
            }),
    {
        let r = Self {
            state: LexerState::default(),
            pos: 0,
            buf: Vec::new(),
            deferred_pipe: false,
            env,
        };
        proof {
            assert(r.buf@.skip(0) =~= Seq::<u8>::empty());
        }
        r
    }

    /// Replace the pending input with a new chunk; the prior chunk must have
    /// been consumed. The cross-chunk state is untouched.
    pub fn feed(&mut self, buf: Vec<u8>)
        requires
            old(self).wf(),
        ensures
            final(self).wf(),
            final(self).model() == (LexerModel {
                st: old(self).model().st,
                rest: buf@,
                deferred: old(self).model().deferred,
                env: old(self).model().env,
            }),
    {
        self.pos = 0;
        self.buf = buf;
        proof {
            assert(self.buf@.skip(0) =~= self.buf@);
        }
    }

    /// Scan for the next token. `None` means the chunk ended inside a quote
    /// or behind an escape: feed another chunk and retry with this lexer.
    pub fn next(self, expect_path: bool) -> (r: (Option<Token>, Lexer<'a>))
        requires
            self.wf(),
        ensures
            r.1.wf(),
            opt_token_view(r.0) == lexer_next_spec(self.model(), expect_path).0,
            r.1.model() == lexer_next_spec(self.model(), expect_path).1,
    {
        let ghost m0 = self.model();
        let Lexer { state, mut pos, buf, deferred_pipe, env } = self;
        if deferred_pipe {
            return (
                Some(Token::Pipe),
                Lexer { state, pos, buf, deferred_pipe: false, env },
            );
        }
        let LexerState { mut escape_next, mut quote, mut token } = state;
        let ghost out0 = lex(m0.st, m0.rest, expect_path, m0.env);
        while pos < buf.len()
            invariant
                pos <= buf.len(),
                env.wf(),
                token_wf(token@),
                token@ !is Pipe,
                m0 == self.model(),
                !m0.deferred,
                m0.env == env@,
                out0 == lex(m0.st, m0.rest, expect_path, env@),
                lex(
                    LexSt { escape_next, quote, token: token@ },
                    buf@.skip(pos as int),
                    expect_path,
                    env@,
                ) == out0,
            decreases buf.len() - pos,
        {
            let ghost st_here = LexSt { escape_next, quote, token: token@ };
            let ghost input_here = buf@.skip(pos as int);
            let b = buf[pos];
            pos += 1;
            proof {
                assert(input_here.len() > 0);
                assert(input_here.first() == b);
                assert(input_here.drop_first() =~= buf@.skip(pos as int));
            }
            if escape_next {
                token = token.feed_verbatim(b, env);
                escape_next = false;
            } else {
                match quote {
                    Some(q) => {
                        if b == q {
                            quote = None;
                            token = token.close_quote();
                        } else {
                            token = token.feed_verbatim(b, env);
                        }
                    },
                    None => {
                        if b == SPACE {
                            token = token.finalize(env);
                            match &token {
                                Token::Eps => {},
                                _ => {
                                    return (
                                        Some(token),
                                        Lexer {
                                            state: LexerState::default(),
                                            pos,
                                            buf,
                                            deferred_pipe: false,
                                            env,
                                        },
                                    );
                                },
                            }
                        } else if b == BACKSLASH {
                            escape_next = true;
                        } else if b == SINGLE_QUOTE || b == DOUBLE_QUOTE {
                            quote = Some(b);
                        } else if b == PIPE_SIGN {
                            token = token.finalize(env);
                            match &token {
                                Token::Eps => {
                                    return (
                                        Some(Token::Pipe),
                                        Lexer {
                                            state: LexerState::default(),
                                            pos,
                                            buf,
                                            deferred_pipe: false,
                                            env,
                                        },
                                    );
                                },
                                _ => {
                                    return (
                                        Some(token),
                                        Lexer {
                                            state: LexerState::default(),
                                            pos,
                                            buf,
                                            deferred_pipe: true,
                                            env,
                                        },
                                    );
                                },
                            }
                        } else {
                            token = token.feed(b, expect_path, env);
                        }
                    },
                }
            }
        }
        proof {
            assert(buf@.skip(pos as int) =~= Seq::<u8>::empty());
        }
        if escape_next || quote.is_some() {
            (
                None,
                Lexer {
                    state: LexerState { escape_next, quote, token },
                    pos,
                    buf,
                    deferred_pipe: false,
                    env,
                },
            )
        } else {
            token = token.finalize(env);
            (
                Some(token),
                Lexer { state: LexerState::default(), pos, buf, deferred_pipe: false, env },
            )
        }
    }
}

} // verus!
