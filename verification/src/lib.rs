//! Language tooling for a small scripting language: the text of a document
//! with its line table, the parser that reads the text into a tree whose
//! nodes know where they stand, and the questions that are asked of such a
//! tree. Every function comes with a contract, and the contracts are proved;
//! the two that rest on code from elsewhere say so where they stand.

pub mod ast;
pub mod document;
pub mod error;
pub mod grammar;
pub mod innermost;
pub mod lexis;
pub mod located;
pub mod lsp;
pub mod parser;
pub mod query;
pub mod server;
pub mod soundness;
pub mod table;
pub mod text;
pub mod vfs;
pub mod workspace;

pub use ast::{Op, PrefixOp, EXPR, STMT};
pub use document::Document;
pub use error::Error;
pub use located::StringLocated;
pub use parser::parse;
pub use query::{get_innermost_exprs, get_innermost_stmts, NodeQuery};
pub use server::LeekLSP;
pub use text::TextDocument;
pub use vfs::Vfs;
pub use workspace::Workspace;
