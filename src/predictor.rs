//! Predictor schemes applied to image data before compression.
use vstd::prelude::*;

pub mod floating;
pub mod horizontal;
pub mod rows;

verus! {

/// The operator applied to the image data before encoding scheme.
#[derive(Clone, Copy, Debug, PartialEq, Eq, Structural)]
pub struct Predictor(pub u16);

/// Codes of the known values.
impl Predictor {
    /// No prediction scheme is used before encoding.
    pub const NONE: u16 = 1;
    /// Horizontal differencing.
    pub const HORIZONTAL: u16 = 2;
    /// Floating point predictor.
    pub const FLOAT: u16 = 3;
}

/// The name of the value with code `code`, or "Unknown".
pub open spec fn predictor_name(code: u16) -> &'static str {
    if code == 1 {
        "None"
    } else if code == 2 {
        "Horizontal"
    } else if code == 3 {
        "FloatingPoint"
    } else {
        "Unknown"
    }
}

impl Predictor {
    /// Returns the name of the value if known, otherwise "Unknown" is returned.
    pub fn name(&self) -> (r: &'static str)
        ensures
            r == predictor_name(self.0),
    {
        let code = self.0;
        if code == 1 {
            "None"
        } else if code == 2 {
            "Horizontal"
        } else if code == 3 {
            "FloatingPoint"
        } else {
            "Unknown"
        }
    }
}

impl Default for Predictor {
    /// The default value, `NONE`.
    fn default() -> (r: Self)
        ensures
            r.0 == Predictor::NONE,
    {
        Predictor(Predictor::NONE)
    }
}


} // verus!
