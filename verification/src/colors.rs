//! A standalone color record with named channels.
//!
//! Most of the crate carries colors in a `Tuple`; this small type exists for
//! callers that want the channels spelled out.

use crate::scalar::Scalar;
use vstd::prelude::*;

verus! {

/// A color as three scaled channel values.
#[derive(Clone, Copy, Debug)]
pub struct Color {
    pub red: Scalar,
    pub green: Scalar,
    pub blue: Scalar,
}

impl Color {
    /// A color from its three channels.
    pub fn new(red: Scalar, green: Scalar, blue: Scalar) -> (r: Color)
        ensures
            r == (Color { red, green, blue }),
    {
        Color { red, green, blue }
    }
}

} // verus!
