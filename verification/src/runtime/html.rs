//! HTML values as an abstract data type
//!
//! Outside this module, no code knows how an HTML value is represented.
//! Today it is backed by a single rendered string, but that is private:
//! callers construct an `Html` through [`Html::from_rendered`] and read it
//! back through [`Html::as_str`] or [`Html::to_string`].
use crate::runtime::ast::Expr;
use vstd::prelude::*;
use vstd::std_specs::cmp::PartialEqSpecImpl;

verus! {

/// An evaluated HTML value
///
/// The internal representation is deliberately private.
#[derive(Debug, Clone, Eq, Hash)]
pub struct Html {
    rendered: String,
}

impl View for Html {
    type V = Seq<char>;

    /// The rendered markup.
    closed spec fn view(&self) -> Seq<char> {
        self.rendered@
    }
}

impl Html {
    /// Construct an `Html` value from already-rendered markup
    pub fn from_rendered(rendered: String) -> (h: Html)
        ensures
            h@ == rendered@,
    {
        Html { rendered }
    }

    /// Borrow the rendered markup as a string slice
    pub fn as_str(&self) -> (s: &str)
        ensures
            s@ == self@,
    {
        self.rendered.as_str()
    }

    /// The rendered markup as an owned string: what printing the value shows.
    pub fn to_string(&self) -> (s: String)
        ensures
            s@ == self@,
    {
        self.rendered.clone()
    }
}

/// Two HTML values are equal exactly when their rendered markup is.
impl PartialEq for Html {
    fn eq(&self, other: &Html) -> (r: bool) {
        self.rendered.eq(&other.rendered)
    }
}

impl PartialEqSpecImpl for Html {
    open spec fn obeys_eq_spec() -> bool {
        true
    }

    open spec fn eq_spec(&self, other: &Html) -> bool {
        self@ == other@
    }
}

/// An HTML template of the source language: literal text with embedded
/// expressions, `texts[i]` standing before `exprs[i]`.
#[derive(Debug, PartialEq)]
pub struct HtmlTemplate {
    /// The literal text segments
    pub texts: Vec<String>,
    /// The expressions embedded between the text segments
    pub exprs: Vec<Expr>,
}

} // verus!
