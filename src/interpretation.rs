//! Photometric interpretations.
use vstd::prelude::*;

verus! {

/// The color space of the image data.
#[derive(Clone, Copy, Debug, PartialEq, Eq, PartialOrd, Ord, Structural)]
pub struct Interpretation(pub u16);

/// Codes of the known values.
impl Interpretation {
    /// For bilevel and grayscale images: 0 is imaged as white.
    pub const WHITE_IS_ZERO: u16 = 0;
    /// For bilevel and grayscale images: 0 is imaged as black.
    pub const BLACK_IS_ZERO: u16 = 1;
    /// A color is described as a combination of the three primary colors of light.
    pub const RGB: u16 = 2;
    /// A color is described using an index into a color map.
    pub const PALETTE: u16 = 3;
    /// The image defines a transparency mask for another image.
    pub const MASK: u16 = 4;
    /// A color is described by a combination of N components (for example, CMYK).
    pub const SEPARATED: u16 = 5;
    /// The image data is in YCbCr color space.
    pub const YCBCR: u16 = 6;
    /// The image data is in CIELab color space.
    pub const CIELAB: u16 = 8;
    /// The image data is in ICCLab color space.
    pub const ICCLAB: u16 = 9;
    /// The image data is in ITULab color space.
    pub const ITULAB: u16 = 10;
    /// The image data is in the CFA (Color Filter Array) color space.
    pub const CFA: u16 = 32803;
    /// The image data is in the LogLuv color space.
    pub const LOGLUV: u16 = 32845;
    /// The image data is in the LinearRaw color space.
    pub const LINEAR_RAW: u16 = 34892;
    /// The image data is in the LogL color space.
    pub const LOGL: u16 = 34844;
}

/// The name of the value with code `code`, or "Unknown".
pub open spec fn interpretation_name(code: u16) -> &'static str {
    if code == 0 {
        "WhiteIsZero"
    } else if code == 1 {
        "BlackIsZero"
    } else if code == 2 {
        "RGB"
    } else if code == 3 {
        "Palette"
    } else if code == 4 {
        "Mask"
    } else if code == 5 {
        "Separated"
    } else if code == 6 {
        "YCbCr"
    } else if code == 8 {
        "CIELab"
    } else if code == 9 {
        "ICCLab"
    } else if code == 10 {
        "ITULab"
    } else if code == 32803 {
        "CFA"
    } else if code == 32845 {
        "LogLuv"
    } else if code == 34892 {
        "LinearRaw"
    } else if code == 34844 {
        "LogL"
    } else {
        "Unknown"
    }
}

impl Interpretation {
    /// Returns the name of the value if known, otherwise "Unknown" is returned.
    pub fn name(&self) -> (r: &'static str)
        ensures
            r == interpretation_name(self.0),
    {
        let code = self.0;
        if code == 0 {
            "WhiteIsZero"
        } else if code == 1 {
            "BlackIsZero"
        } else if code == 2 {
            "RGB"
        } else if code == 3 {
            "Palette"
        } else if code == 4 {
            "Mask"
        } else if code == 5 {
            "Separated"
        } else if code == 6 {
            "YCbCr"
        } else if code == 8 {
            "CIELab"
        } else if code == 9 {
            "ICCLab"
        } else if code == 10 {
            "ITULab"
        } else if code == 32803 {
            "CFA"
        } else if code == 32845 {
            "LogLuv"
        } else if code == 34892 {
            "LinearRaw"
        } else if code == 34844 {
            "LogL"
        } else {
            "Unknown"
        }
    }
}


} // verus!
