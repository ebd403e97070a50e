//! The byte order of a TIFF stream.
use vstd::prelude::*;

verus! {

/// The byte order of the data.
#[derive(Clone, Copy, Debug, PartialEq, Eq, Structural)]
pub enum ByteOrder {
    /// Big-endian byte order, from most significant to least significant.
    BigEndian,
    /// Little-endian byte order, from least significant to most significant.
    LittleEndian,
}

impl ByteOrder {
    /// The byte order that a signature announces: `MM` is big-endian, `II` little-endian, and
    /// any other pair of bytes announces none.
    pub open spec fn from_signature(b0: u8, b1: u8) -> Option<ByteOrder> {
        if b0 == 0x4d && b1 == 0x4d {
            Some(ByteOrder::BigEndian)
        } else if b0 == 0x49 && b1 == 0x49 {
            Some(ByteOrder::LittleEndian)
        } else {
            None
        }
    }

    /// Detects the byte order from the two signature bytes of a TIFF file.
    pub fn try_from_signature(signature: [u8; 2]) -> (r: Option<ByteOrder>)
        ensures
            r == ByteOrder::from_signature(signature@[0], signature@[1]),
    {
        let b0 = signature[0];
        let b1 = signature[1];
        if b0 == 0x4d && b1 == 0x4d {
            Some(ByteOrder::BigEndian)
        } else if b0 == 0x49 && b1 == 0x49 {
            Some(ByteOrder::LittleEndian)
        } else {
            None
        }
    }
}

} // verus!
