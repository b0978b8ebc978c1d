//! The library's failure values.

use vstd::prelude::*;

verus! {

/// A fatal construction failure: no usable value exists after it.
#[derive(Clone, Copy, PartialEq, Eq, Structural, Debug)]
pub enum RenderError {
    /// The projection parameters are degenerate (non-positive aspect ratio,
    /// a field of view without a positive sine of its half-angle, near and
    /// far planes out of order) or yield entries beyond the camera's range.
    InvalidProjection,
    /// The frame dimensions are zero or beyond the supported range.
    InvalidDimensions,
}

impl RenderError {
    /// A short description of the failure.
    pub fn message(&self) -> (r: &'static str)
        ensures
            self is InvalidProjection ==> r@ == "degenerate projection parameters"@,
            self is InvalidDimensions ==> r@ == "unsupported frame dimensions"@,
    {
        match self {
            RenderError::InvalidProjection => "degenerate projection parameters",
            RenderError::InvalidDimensions => "unsupported frame dimensions",
        }
    }
}

} // verus!
