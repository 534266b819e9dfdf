//! The Meerkat runtime: syntax trees, scopes and the name resolution pass.
pub mod ast;
pub mod env;
pub mod html;
pub mod interner;
pub mod limits;
pub mod nameres;
pub mod tt;

pub use env::Env;
pub use interner::Symbol;
