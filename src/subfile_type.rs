//! Kinds of subfiles, as a set of flags.
use vstd::prelude::*;

verus! {

/// A general indication of the kind of data contained in this subfile: a set of the flags
/// `REDUCED_IMAGE` (bit 0), `PAGE` (bit 1) and `MASK` (bit 2).
#[derive(Clone, Copy, Debug, PartialEq, Eq, Structural)]
pub struct SubfileType(u32);

impl SubfileType {
    /// The image is a reduced-resolution version of another image in this TIFF file.
    pub const REDUCED_IMAGE: u32 = 0x0001;
    /// The image is a single page of a multi-page image.
    pub const PAGE: u32 = 0x0002;
    /// The image defines a transparency mask for another image in this TIFF file.
    pub const MASK: u32 = 0x0004;

    /// The bits of the flags that are set.
    pub closed spec fn bits(self) -> u32 {
        self.0
    }

    /// Creates a new [`SubfileType`] from bits value; bits that name no flag are dropped.
    pub fn from_u32(bits: u32) -> (r: Self)
        ensures
            r.bits() == bits & 7,
    {
        SubfileType(bits & 7)
    }

    /// Returns the bits value of the [`SubfileType`].
    pub fn to_u32(self) -> (r: u32)
        ensures
            r == self.bits(),
    {
        self.0
    }

    /// Returns true if the subfile type indicates that this is a reduced-resolution image.
    pub fn is_reduced_image(self) -> (r: bool)
        ensures
            r == (self.bits() & 1 == 1),
    {
        self.0 & 1 == 1
    }

    /// Returns true if the subfile type indicates that this is a page of a multi-page image.
    pub fn is_page(self) -> (r: bool)
        ensures
            r == (self.bits() & 2 == 2),
    {
        self.0 & 2 == 2
    }

    /// Returns true if the subfile type indicates that this is a transparency mask for another
    /// image.
    pub fn is_mask(self) -> (r: bool)
        ensures
            r == (self.bits() & 4 == 4),
    {
        self.0 & 4 == 4
    }

    /// The set of the flags that are set in `self` or in `other`.
    pub fn union(self, other: Self) -> (r: Self)
        ensures
            r.bits() == self.bits() | other.bits(),
    {
        SubfileType(self.0 | other.0)
    }
}

impl Default for SubfileType {
    /// The empty set of flags.
    fn default() -> (r: Self)
        ensures
            r.bits() == 0,
    {
        SubfileType(0)
    }
}

} // verus!
