//! A safe, verified model of a binding layer over a native source-parsing
//! engine: translation-unit construction with diagnostic gating, cursor-based
//! AST traversal with caller-directed recursion, and documentation-comment
//! classification and rendering.

pub mod ast;
pub mod comment;
pub mod cursor;
pub mod diag;
pub mod string_bridge;
pub mod tu;
pub mod visit;
pub mod visitors;
