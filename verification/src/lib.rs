//! `fs-syntax` — a lexer, parser and syntax tree for Onshape FeatureScript,
//! with a pretty-printer and a generic walker.
//!
//! The crate has no opinion about *evaluating* FeatureScript; it produces a
//! plain [`ast::Module`] that an interpreter (or a transpiler targeting your
//! own geometry kernel) can walk. See the `visit` module for a generic
//! walker.

pub mod ast;
pub mod error;
pub mod grammar;
pub mod leaves;
pub mod lexer;
pub mod number;
pub mod parser;
pub mod print;
pub mod print_prefix;
pub mod relex;
pub mod simple_stmts;
pub mod span;
pub mod stats;
pub mod text;
pub mod token;
pub mod value;
pub mod visit;

pub use ast::Module;
pub use error::{ParseError, ParseResult};
pub use parser::{parse_expr, parse_module};
pub use print::{print_expr, print_module};
pub use span::{LineCol, LineIndex, Span};

