//! A small stack-based language whose programs are its values: a source text is lexed into
//! tokens, parsed into expressions, compiled into a flat stream of instructions and executed
//! by a stack machine.
pub mod context;
pub mod expr;
pub mod float;
pub mod intrinsic;
pub mod journal;
pub mod lexer;
pub mod module;
pub mod order;
pub mod parser;
pub mod scope;
pub mod text;
pub mod token;
pub mod val;
pub mod vm;

pub use context::{Context, RunError};
pub use expr::{Expr, Glyph};
pub use intrinsic::Intrinsic;
pub use journal::{Journal, DEFAULT_MAX_LEN};
pub use lexer::{lex, scan, LexError, LexErrorKind};
pub use module::{Engine, Func, Module, Origin};
pub use parser::{parse, try_parse, ParseError};
pub use token::Token;
pub use val::{Arith, Val};
pub use vm::{Action, CompileError, FloatOp, Op, VMError, VM};
