//! Sample formats.
use vstd::prelude::*;

verus! {

/// Specify how to interpret the pixel data.
#[derive(Clone, Copy, Debug, PartialEq, Eq, Structural)]
pub struct SampleFormat(pub u16);

/// Codes of the known values.
impl SampleFormat {
    /// Unsigned integer format.
    pub const UNSIGNED: u16 = 1;
    /// Two's complement signed integer format.
    pub const SIGNED: u16 = 2;
    /// IEEE floating point format.
    pub const FLOAT: u16 = 3;
    /// Undefined data format.
    pub const UNDEFINED: u16 = 4;
    /// Complex signed int data.
    pub const COMPLEX_SIGNED: u16 = 5;
    /// Complex IEEE floating point data.
    pub const COMPLEX_FLOAT: u16 = 6;
}

/// The name of the value with code `code`, or "Unknown".
pub open spec fn sample_format_name(code: u16) -> &'static str {
    if code == 1 {
        "Unsigned"
    } else if code == 2 {
        "Signed"
    } else if code == 3 {
        "Float"
    } else if code == 4 {
        "Undefined"
    } else if code == 5 {
        "ComplexSigned"
    } else if code == 6 {
        "ComplexFloat"
    } else {
        "Unknown"
    }
}

impl SampleFormat {
    /// Returns the name of the value if known, otherwise "Unknown" is returned.
    pub fn name(&self) -> (r: &'static str)
        ensures
            r == sample_format_name(self.0),
    {
        let code = self.0;
        if code == 1 {
            "Unsigned"
        } else if code == 2 {
            "Signed"
        } else if code == 3 {
            "Float"
        } else if code == 4 {
            "Undefined"
        } else if code == 5 {
            "ComplexSigned"
        } else if code == 6 {
            "ComplexFloat"
        } else {
            "Unknown"
        }
    }
}

impl Default for SampleFormat {
    /// The default value, `UNSIGNED`.
    fn default() -> (r: Self)
        ensures
            r.0 == SampleFormat::UNSIGNED,
    {
        SampleFormat(SampleFormat::UNSIGNED)
    }
}


} // verus!
