//! TIFF file versions.
use vstd::prelude::*;

verus! {

/// TIFF image version.
#[derive(Clone, Copy, Debug, PartialEq, Eq, Structural)]
pub enum Version {
    /// Classic TIFF.
    Classic,
    /// Big TIFF.
    BigTiff,
}

impl Version {
    /// The version that a version word denotes, if any.
    pub open spec fn from_word(word: u16) -> Option<Version> {
        if word == 42 {
            Some(Version::Classic)
        } else if word == 43 {
            Some(Version::BigTiff)
        } else {
            None
        }
    }

    /// Width in bytes of offsets and counts: 4 for Classic TIFF, 8 for Big TIFF.
    pub open spec fn spec_offset_size(self) -> nat {
        match self {
            Version::Classic => 4,
            Version::BigTiff => 8,
        }
    }

    /// Width in bytes of the entry count at the start of a directory.
    pub open spec fn spec_count_size(self) -> nat {
        match self {
            Version::Classic => 2,
            Version::BigTiff => 8,
        }
    }

    /// Size in bytes of one directory entry: 12 for Classic TIFF, 20 for Big TIFF.
    pub open spec fn spec_entry_size(self) -> nat {
        match self {
            Version::Classic => 12,
            Version::BigTiff => 20,
        }
    }

    /// Parses a version word: 42 is Classic TIFF, 43 is Big TIFF, anything else is refused.
    pub fn try_from_u16(version: u16) -> (r: Option<Version>)
        ensures
            r == Version::from_word(version),
    {
        if version == 42 {
            Some(Version::Classic)
        } else if version == 43 {
            Some(Version::BigTiff)
        } else {
            None
        }
    }

    /// Width in bytes of offsets and counts.
    pub fn offset_size(self) -> (r: u64)
        ensures
            r == self.spec_offset_size(),
    {
        match self {
            Version::Classic => 4,
            Version::BigTiff => 8,
        }
    }

    /// Width in bytes of the entry count at the start of a directory.
    pub fn count_size(self) -> (r: u64)
        ensures
            r == self.spec_count_size(),
    {
        match self {
            Version::Classic => 2,
            Version::BigTiff => 8,
        }
    }

    /// Size in bytes of one directory entry.
    pub fn entry_size(self) -> (r: u64)
        ensures
            r == self.spec_entry_size(),
    {
        match self {
            Version::Classic => 12,
            Version::BigTiff => 20,
        }
    }
}

} // verus!
