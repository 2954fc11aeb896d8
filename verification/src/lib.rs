//! A source-to-source transformation engine for sum types: given the
//! declaration of a tagged union whose variants each carry at most one
//! payload value, it synthesizes descriptions of (a) conversions between
//! the sum type and each payload type and (b) a generic forwarding
//! implementation that dispatches a uniform operation across all variants.

use vstd::prelude::*;

pub mod analyze;
pub mod ast;
pub mod capture;
pub mod convert;
pub mod dispatch;
pub mod error;
pub mod normalize;
pub mod prepare;

verus! {

/// A single-method capability mapping an input value to an output value.
/// A sum type can forward this capability to whichever variant is active,
/// provided every payload type implements it for the same input and output.
pub trait Forward<I> {
    type Output;

    fn forward(&self, input: &I) -> Self::Output;
}

} // verus!
