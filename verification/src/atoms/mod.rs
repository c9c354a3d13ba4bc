//! Leaf values shared by every pass: identifiers, fresh type unknowns, the
//! name table and source coordinates.

pub mod alpha;
pub mod names;
pub mod range;

pub use alpha::{Alpha, AlphaGen};
pub use names::{Named, Names, Var};
pub use range::{Delta, Position, Range};
