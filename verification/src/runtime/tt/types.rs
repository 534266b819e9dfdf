//! Types of the Meerkat language and the typed parameters that carry them.
use crate::runtime::interner::Symbol;
use vstd::prelude::*;

verus! {

/// A type of the Meerkat language.
#[derive(Debug, PartialEq, Eq)]
pub enum Type {
    /// Integers
    Int,
    /// Booleans
    Bool,
    /// Strings (HTML included)
    String,
    /// The unit type
    Unit,
    /// Lists of one element type
    List(Box<Type>),
    /// Functions from an argument type to a result type
    Func(Box<Type>, Box<Type>),
}

/// A parameter of a function or closure, with its optional annotation.
#[derive(Debug, PartialEq, Eq)]
pub struct Param {
    /// The bound name
    pub name: Symbol,
    /// The declared type, if any
    pub ty: Option<Type>,
}

} // verus!
