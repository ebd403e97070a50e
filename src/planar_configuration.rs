//! Planar configurations.
use vstd::prelude::*;

verus! {

/// How the components of each pixel are stored.
#[derive(Clone, Copy, Debug, PartialEq, Eq, Structural)]
pub struct PlanarConfiguration(pub u16);

/// Codes of the known values.
impl PlanarConfiguration {
    /// The component values for each pixel are stored contiguously.
    pub const CHUNKY: u16 = 1;
    /// The components are stored in separate component planes.
    pub const PLANAR: u16 = 2;
}

/// The name of the value with code `code`, or "Unknown".
pub open spec fn planar_configuration_name(code: u16) -> &'static str {
    if code == 1 {
        "Chunky"
    } else if code == 2 {
        "Planar"
    } else {
        "Unknown"
    }
}

impl PlanarConfiguration {
    /// Returns the name of the value if known, otherwise "Unknown" is returned.
    pub fn name(&self) -> (r: &'static str)
        ensures
            r == planar_configuration_name(self.0),
    {
        let code = self.0;
        if code == 1 {
            "Chunky"
        } else if code == 2 {
            "Planar"
        } else {
            "Unknown"
        }
    }
}

impl Default for PlanarConfiguration {
    /// The default value, `CHUNKY`.
    fn default() -> (r: Self)
        ensures
            r.0 == PlanarConfiguration::CHUNKY,
    {
        PlanarConfiguration(PlanarConfiguration::CHUNKY)
    }
}


} // verus!
