//! Per-element operations that the slice operations build on.
pub mod conj;
pub mod square;

pub use conj::Conj;
pub use square::Square;
