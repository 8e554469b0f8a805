//! Marker types standing for the literal booleans `true` and `false` in a
//! configuration schema: a field of type `LiteralTrue` only ever deserializes
//! from `true`, which lets one schema shape pick among overlapping variants.
//! The (de)serialization itself lives with the caller; these are the bare
//! markers the library's types carry.

use vstd::prelude::*;

verus! {

/// The literal boolean `true`.
#[derive(Debug, PartialEq, Eq, Structural)]
pub struct LiteralTrue;

/// The literal boolean `false`.
#[derive(Debug, PartialEq, Eq, Structural)]
pub struct LiteralFalse;

impl LiteralTrue {
    /// The boolean this marker stands for.
    pub fn value(&self) -> (r: bool)
        ensures
            r,
    {
        true
    }
}

impl LiteralFalse {
    /// The boolean this marker stands for.
    pub fn value(&self) -> (r: bool)
        ensures
            !r,
    {
        false
    }
}

} // verus!
