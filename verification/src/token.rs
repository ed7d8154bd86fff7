//! The lexer's token values. A token is built one byte at a time: each byte
//! either extends the token or changes its kind (a bare word turning into an
//! assignment, a `$` opening a substitution). Substitution is resolved inline,
//! against the environment, the moment the variable name ends.

use vstd::prelude::*;

use crate::env::env_lookup;
use crate::env::Env;
use crate::spec_is_ident_byte;
use crate::EQUALS_SIGN;
use crate::LOWER_A;
use crate::LOWER_Z;
use crate::SUB_SIGN;
use crate::UPPER_A;
use crate::UPPER_Z;

verus! {

/// A lexer token, or a token under construction.
///
/// `Eps` is the empty token; returned by the lexer it marks the end of one
/// statement's token stream. `Path` is a literal word; `is_lvalue` stays true
/// only while every byte seen so far is an ASCII letter, so that a `=` can
/// still turn the word into an assignment. `sub`, when present, collects the
/// name of a `$` substitution not yet terminated. `Pipe` is the `|` separator.
/// `SetCmd` is a `name=value` assignment under construction.
#[derive(Debug, PartialEq, Eq)]
pub enum Token {
    Eps,
    Path { src: Vec<u8>, sub: Option<Vec<u8>>, is_lvalue: bool },
    Pipe,
    SetCmd { lvalue: Vec<u8>, rvalue: Vec<u8>, sub: Option<Vec<u8>> },
}

/// The mathematical value of a [`Token`]: the same shape over `Seq<u8>`.
pub enum TokenModel {
    Eps,
    Path { src: Seq<u8>, sub: Option<Seq<u8>>, is_lvalue: bool },
    Pipe,
    SetCmd { lvalue: Seq<u8>, rvalue: Seq<u8>, sub: Option<Seq<u8>> },
}

impl View for Token {
    type V = TokenModel;

    open spec fn view(&self) -> TokenModel {
        match self {
            Token::Eps => TokenModel::Eps,
            Token::Path { src, sub, is_lvalue } => TokenModel::Path {
                src: src@,
                sub: match sub {
                    Some(s) => Some(s@),
                    None => None,
                },
                is_lvalue: *is_lvalue,
            },
            Token::Pipe => TokenModel::Pipe,
            Token::SetCmd { lvalue, rvalue, sub } => TokenModel::SetCmd {
                lvalue: lvalue@,
                rvalue: rvalue@,
                sub: match sub {
                    Some(s) => Some(s@),
                    None => None,
                },
            },
        }
    }
}

/// A word with an open substitution can no longer become an assignment's
/// left side: a substitution clears `is_lvalue` for good.
pub open spec fn token_wf(t: TokenModel) -> bool {
    t matches TokenModel::Path { sub, is_lvalue, .. } ==> (sub is Some ==> !is_lvalue)
}

/// How one byte transforms a token under construction (outside quotes and
/// escapes; those are the lexer's concern). `expect_path` suppresses the
/// `=`-triggered reinterpretation of a word as an assignment.
pub open spec fn token_feed(
    t: TokenModel,
    b: u8,
    expect_path: bool,
    env: Map<Seq<u8>, Seq<u8>>,
) -> TokenModel {
    match t {
        TokenModel::Eps => {
            if b == SUB_SIGN {
                TokenModel::Path { src: Seq::empty(), sub: Some(Seq::empty()), is_lvalue: false }
            } else {
                TokenModel::Path { src: seq![b], sub: None, is_lvalue: spec_is_ident_byte(b) }
            }
        },
        TokenModel::Path { src, sub, is_lvalue } => match sub {
            Some(name) => {
                if spec_is_ident_byte(b) {
                    TokenModel::Path { src, sub: Some(name.push(b)), is_lvalue }
                } else {
                    let expanded = src + env_lookup(env, name);
                    if b == SUB_SIGN {
                        TokenModel::Path { src: expanded, sub: Some(Seq::empty()), is_lvalue }
                    } else {
                        TokenModel::Path { src: expanded.push(b), sub: None, is_lvalue }
                    }
                }
            },
            None => {
                if b == EQUALS_SIGN && is_lvalue && !expect_path {
                    TokenModel::SetCmd { lvalue: src, rvalue: Seq::empty(), sub: None }
                } else if b == SUB_SIGN {
                    TokenModel::Path { src, sub: Some(Seq::empty()), is_lvalue: false }
                } else {
                    TokenModel::Path {
                        src: src.push(b),
                        sub: None,
                        is_lvalue: is_lvalue && spec_is_ident_byte(b),
                    }
                }
            },
        },
        TokenModel::SetCmd { lvalue, rvalue, sub } => match sub {
            Some(name) => {
                if spec_is_ident_byte(b) {
                    TokenModel::SetCmd { lvalue, rvalue, sub: Some(name.push(b)) }
                } else {
                    let expanded = rvalue + env_lookup(env, name);
                    if b == SUB_SIGN {
                        TokenModel::SetCmd { lvalue, rvalue: expanded, sub: Some(Seq::empty()) }
                    } else {
                        TokenModel::SetCmd { lvalue, rvalue: expanded.push(b), sub: None }
                    }
                }
            },
            None => {
                if b == SUB_SIGN {
                    TokenModel::SetCmd { lvalue, rvalue, sub: Some(Seq::empty()) }
                } else {
                    TokenModel::SetCmd { lvalue, rvalue: rvalue.push(b), sub: None }
                }
            },
        },
        TokenModel::Pipe => TokenModel::Pipe,
    }
}

/// How one escaped or quoted byte transforms a token under construction: it
/// is appended verbatim, with no substitution, assignment or separator
/// reading. A substitution still being collected is resolved first, since a
/// verbatim byte cannot extend a variable name. An escaped or quoted byte
/// also ends any chance of the word becoming an assignment's left side.
pub open spec fn token_feed_verbatim(t: TokenModel, b: u8, env: Map<Seq<u8>, Seq<u8>>) -> TokenModel {
    match t {
        TokenModel::Eps => TokenModel::Path { src: seq![b], sub: None, is_lvalue: false },
        TokenModel::Path { src, sub, .. } => match sub {
            Some(name) => TokenModel::Path {
                src: (src + env_lookup(env, name)).push(b),
                sub: None,
                is_lvalue: false,
            },
            None => TokenModel::Path { src: src.push(b), sub: None, is_lvalue: false },
        },
        TokenModel::SetCmd { lvalue, rvalue, sub } => match sub {
            Some(name) => TokenModel::SetCmd {
                lvalue,
                rvalue: (rvalue + env_lookup(env, name)).push(b),
                sub: None,
            },
            None => TokenModel::SetCmd { lvalue, rvalue: rvalue.push(b), sub: None },
        },
        TokenModel::Pipe => TokenModel::Pipe,
    }
}

/// What closing a quote does to the token under construction: a quote with
/// nothing before it starts an empty word, so that `""` yields an empty
/// argument rather than no argument; otherwise nothing changes.
pub open spec fn token_close_quote(t: TokenModel) -> TokenModel {
    match t {
        TokenModel::Eps => TokenModel::Path { src: Seq::empty(), sub: None, is_lvalue: false },
        other => other,
    }
}

/// Finalizing a token at a word boundary: a still-open substitution is
/// resolved against the environment; everything else is already literal.
pub open spec fn token_finalize(t: TokenModel, env: Map<Seq<u8>, Seq<u8>>) -> TokenModel {
    match t {
        TokenModel::Eps => TokenModel::Eps,
        TokenModel::Path { src, sub, is_lvalue } => match sub {
            Some(name) => TokenModel::Path {
                src: src + env_lookup(env, name),
                sub: None,
                is_lvalue,
            },
            None => TokenModel::Path { src, sub: None, is_lvalue },
        },
        TokenModel::SetCmd { lvalue, rvalue, sub } => match sub {
            Some(name) => TokenModel::SetCmd {
                lvalue,
                rvalue: rvalue + env_lookup(env, name),
                sub: None,
            },
            None => TokenModel::SetCmd { lvalue, rvalue, sub: None },
        },
        TokenModel::Pipe => TokenModel::Pipe,
    }
}

impl Token {
    /// True for the bytes that may make up a variable name: ASCII letters.
    pub fn is_ident_char(b: u8) -> (r: bool)
        ensures
            r == spec_is_ident_byte(b),
    {
        (UPPER_A <= b && b <= UPPER_Z) || (LOWER_A <= b && b <= LOWER_Z)
    }

    /// Feed one unquoted, unescaped byte into the token under construction.
    pub fn feed(self, b: u8, expect_path: bool, env: &Env) -> (r: Token)
        requires
            self@ !is Pipe,
            token_wf(self@),
            env.wf(),
        ensures
            r@ == token_feed(self@, b, expect_path, env@),
            token_wf(r@),
            r@ !is Pipe,
    {
        match self {
            Token::Eps => {
                if b == SUB_SIGN {
                    Token::Path { src: Vec::new(), sub: Some(Vec::new()), is_lvalue: false }
                } else {
                    let mut src: Vec<u8> = Vec::new();
                    src.push(b);
                    proof {
                        assert(src@ =~= seq![b]);
                    }
                    Token::Path { src, sub: None, is_lvalue: Self::is_ident_char(b) }
                }
            },
            Token::Path { mut src, sub, is_lvalue } => match sub {
                Some(mut name) => {
                    if Self::is_ident_char(b) {
                        name.push(b);
                        Token::Path { src, sub: Some(name), is_lvalue }
                    } else {
                        let mut value = env.get(name);
                        src.append(&mut value);
                        if b != SUB_SIGN {
                            src.push(b);
                            Token::Path { src, sub: None, is_lvalue }
                        } else {
                            Token::Path { src, sub: Some(Vec::new()), is_lvalue }
                        }
                    }
                },
                None => {
                    if b == EQUALS_SIGN && is_lvalue && !expect_path {
                        Token::SetCmd { lvalue: src, rvalue: Vec::new(), sub: None }
                    } else if b == SUB_SIGN {
                        Token::Path { src, sub: Some(Vec::new()), is_lvalue: false }
                    } else {
                        let still_lvalue = is_lvalue && Self::is_ident_char(b);
                        src.push(b);
                        Token::Path { src, sub: None, is_lvalue: still_lvalue }
                    }
                },
            },
            Token::SetCmd { lvalue, mut rvalue, sub } => match sub {
                Some(mut name) => {
                    if Self::is_ident_char(b) {
                        name.push(b);
                        Token::SetCmd { lvalue, rvalue, sub: Some(name) }
                    } else {
                        let mut value = env.get(name);
                        rvalue.append(&mut value);
                        if b != SUB_SIGN {
                            rvalue.push(b);
                            Token::SetCmd { lvalue, rvalue, sub: None }
                        } else {
                            Token::SetCmd { lvalue, rvalue, sub: Some(Vec::new()) }
                        }
                    }
                },
                None => {
                    if b == SUB_SIGN {
                        Token::SetCmd { lvalue, rvalue, sub: Some(Vec::new()) }
                    } else {
                        rvalue.push(b);
                        Token::SetCmd { lvalue, rvalue, sub: None }
                    }
                },
            },
            Token::Pipe => {
                proof {
                    assert(false);
                }
                Token::Pipe
            },
        }
    }

    /// Feed one escaped or quoted byte: appended verbatim, after resolving a
    /// substitution still being collected.
    pub fn feed_verbatim(self, b: u8, env: &Env) -> (r: Token)
        requires
            self@ !is Pipe,
            token_wf(self@),
            env.wf(),
        ensures
            r@ == token_feed_verbatim(self@, b, env@),
            token_wf(r@),
            r@ !is Pipe,
    {
        match self {
            Token::Eps => {
                let mut src: Vec<u8> = Vec::new();
                src.push(b);
                proof {
                    assert(src@ =~= seq![b]);
                }
                Token::Path { src, sub: None, is_lvalue: false }
            },
            Token::Path { mut src, sub, is_lvalue: _ } => match sub {
                Some(name) => {
                    let mut value = env.get(name);
                    src.append(&mut value);
                    src.push(b);
                    Token::Path { src, sub: None, is_lvalue: false }
                },
                None => {
                    src.push(b);
                    Token::Path { src, sub: None, is_lvalue: false }
                },
            },
            Token::SetCmd { lvalue, mut rvalue, sub } => match sub {
                Some(name) => {
                    let mut value = env.get(name);
                    rvalue.append(&mut value);
                    rvalue.push(b);
                    Token::SetCmd { lvalue, rvalue, sub: None }
                },
                None => {
                    rvalue.push(b);
                    Token::SetCmd { lvalue, rvalue, sub: None }
                },
            },
            Token::Pipe => {
                proof {
                    assert(false);
                }
                Token::Pipe
            },
        }
    }

    /// Close a quote: a quote with nothing before it starts an empty word.
    pub fn close_quote(self) -> (r: Self)
        requires
            self@ !is Pipe,
            token_wf(self@),
        ensures
            r@ == token_close_quote(self@),
            token_wf(r@),
            r@ !is Pipe,
    {
        match self {
            Token::Eps => Token::Path { src: Vec::new(), sub: None, is_lvalue: false },
            other => other,
        }
    }

    /// Finalize the token at a word boundary, resolving a still-open
    /// substitution against the environment.
    pub fn finalize(self, env: &Env) -> (r: Self)
        requires
            self@ !is Pipe,
            token_wf(self@),
            env.wf(),
        ensures
            r@ == token_finalize(self@, env@),
            token_wf(r@),
            r@ !is Pipe,
    {
        match self {
            Token::Eps => Token::Eps,
            Token::Path { mut src, sub, is_lvalue } => match sub {
                Some(name) => {
                    let mut value = env.get(name);
                    src.append(&mut value);
                    Token::Path { src, sub: None, is_lvalue }
                },
                None => Token::Path { src, sub: None, is_lvalue },
            },
            Token::SetCmd { lvalue, mut rvalue, sub } => match sub {
                Some(name) => {
                    let mut value = env.get(name);
                    rvalue.append(&mut value);
                    Token::SetCmd { lvalue, rvalue, sub: None }
                },
                None => Token::SetCmd { lvalue, rvalue, sub: None },
            },
            Token::Pipe => {
                proof {
                    assert(false);
                }
                Token::Pipe
            },
        }
    }
}

} // verus!
