//! Units of resolution.
use vstd::prelude::*;

verus! {

/// The unit of measurement for resolution.
#[derive(Clone, Copy, Debug, PartialEq, Eq, Structural)]
pub struct ResolutionUnit(pub u16);

/// Codes of the known values.
impl ResolutionUnit {
    /// No absolute unit of measurement.
    pub const NONE: u16 = 1;
    /// The unit of measurement is inches.
    pub const INCH: u16 = 2;
    /// The unit of measurement is centimeters.
    pub const CENTIMETER: u16 = 3;
}

/// The name of the value with code `code`, or "Unknown".
pub open spec fn resolution_unit_name(code: u16) -> &'static str {
    if code == 1 {
        "None"
    } else if code == 2 {
        "Inch"
    } else if code == 3 {
        "Centimeter"
    } else {
        "Unknown"
    }
}

impl ResolutionUnit {
    /// Returns the name of the value if known, otherwise "Unknown" is returned.
    pub fn name(&self) -> (r: &'static str)
        ensures
            r == resolution_unit_name(self.0),
    {
        let code = self.0;
        if code == 1 {
            "None"
        } else if code == 2 {
            "Inch"
        } else if code == 3 {
            "Centimeter"
        } else {
            "Unknown"
        }
    }
}

impl Default for ResolutionUnit {
    /// The default value, `INCH`.
    fn default() -> (r: Self)
        ensures
            r.0 == ResolutionUnit::INCH,
    {
        ResolutionUnit(ResolutionUnit::INCH)
    }
}


} // verus!
