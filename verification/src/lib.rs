//! A line-oriented command interpreter: an incremental lexer, a pipeline
//! parser, and a pipeline executor, together with the builtin commands they
//! dispatch to.

use vstd::prelude::*;

pub mod cmd;
pub mod env;
pub mod exec;
pub mod lexer;
pub mod parser;
pub mod token;

pub use cmd::Command;
pub use env::Env;
pub use env::EnvAssign;
pub use exec::Executor;
pub use exec::Need;
pub use exec::StageData;
pub use exec::Step;
pub use lexer::Lexer;
pub use lexer::LexerState;
pub use parser::Parser;
pub use parser::ParserState;
pub use parser::Statement;
pub use parser::SyntaxError;
pub use token::Token;
pub use token::TokenModel;

verus! {

/// `$`, the substitution sigil.
pub const SUB_SIGN: u8 = 36;

/// `A`, the first upper-case ASCII letter.
pub const UPPER_A: u8 = 65;

/// `Z`, the last upper-case ASCII letter.
pub const UPPER_Z: u8 = 90;

/// `a`, the first lower-case ASCII letter.
pub const LOWER_A: u8 = 97;

/// `z`, the last lower-case ASCII letter.
pub const LOWER_Z: u8 = 122;

/// The space byte.
pub const SPACE: u8 = 32;

/// `\`, the escape byte.
pub const BACKSLASH: u8 = 92;

/// `'`, the single quote.
pub const SINGLE_QUOTE: u8 = 39;

/// `"`, the double quote.
pub const DOUBLE_QUOTE: u8 = 34;

/// `|`, the pipeline separator.
pub const PIPE_SIGN: u8 = 124;

/// `=`, the assignment byte.
pub const EQUALS_SIGN: u8 = 61;

/// The line feed byte.
pub const NEWLINE: u8 = 10;

/// True for the bytes that may make up a variable name: ASCII letters.
pub open spec fn spec_is_ident_byte(b: u8) -> bool {
    (UPPER_A <= b && b <= UPPER_Z) || (LOWER_A <= b && b <= LOWER_Z)
}

} // verus!
