//! An interactive calculator for a small S-expression language.
//!
//! A line of text is read into a syntax tree, the tree is compiled into native
//! operations inside a compilation unit, and the unit is handed to the LLVM
//! backend.  Definitions are kept by the session and compiled again into every
//! later unit.

pub mod backend;
pub mod compiler;
pub mod expr;
pub mod llvm;
pub mod reader;
pub mod session;
pub mod symbols;
pub mod unit;
pub mod writer;

pub use crate::backend::{emit, BackendError};
pub use crate::compiler::{CompileError, Compiler};
pub use crate::expr::{Expr, SyntaxNode};
pub use crate::reader::{is_complete_expression, read, ParseError};
pub use crate::session::{Outcome, Session};
pub use crate::symbols::SymbolTable;
pub use crate::unit::{Callee, Location, Op, Operator, Routine, Unit};
