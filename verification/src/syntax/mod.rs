//! The internal syntax tree: terms and types whose binders and variables
//! hold identifiers. Nodes are shared by reference counting, so a subtree is
//! handed on without being copied.

pub mod de;
pub mod scope;
pub mod ty;

pub use de::{Term, TermData};
pub use ty::{Type, TypeData};
