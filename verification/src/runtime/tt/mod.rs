//! Module for the type system
pub mod types;

pub use types::Param;
pub use types::Type;
