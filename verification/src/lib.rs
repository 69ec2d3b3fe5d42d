//! An in-memory abstract syntax tree for a small imperative language,
//! together with a single verified operation, [`decode::build_ast`], that
//! materializes a tree from its key-tagged textual document form.

pub mod decode;
pub mod laws;
pub mod node;
pub mod syntax;

pub use decode::build_ast;
pub use node::{AstNode, BuildError, InnerNode};
