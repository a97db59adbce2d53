//! Names that the generators look for in Rust source.
use vstd::prelude::*;
use crate::text::str_eq;

verus! {

/// A name that the generators look for.
#[derive(Debug, Clone, Copy)]
pub struct Symbol(pub &'static str);

/// The trait whose derive marks a struct, enum or type for conversion to
/// TypeScript.
pub const TYPE_TRAIT_NAME: &'static str = "Type";

impl Symbol {
    /// The trait whose derive marks a type for conversion to TypeScript.
    pub fn type_trait() -> (res: Symbol)
        ensures
            res.0@ == TYPE_TRAIT_NAME@,
    {
        Symbol(TYPE_TRAIT_NAME)
    }

    /// The name.
    pub fn as_str(&self) -> (res: &'static str)
        ensures
            res@ == self.0@,
    {
        self.0
    }

    /// Whether the identifier is this name.
    pub fn matches_ident(&self, ident: &str) -> (res: bool)
        ensures
            res == (ident@ == self.0@),
    {
        str_eq(ident, self.0)
    }
}

} // verus!
