//! Errors of the decoder, the metadata builder and the pixel readers.
use vstd::prelude::*;

use crate::compression::Compression;
use crate::dtype::DType;
use crate::tag::Tag;

verus! {

/// The underlying kind of an [`Error`].
#[derive(Clone, Copy, Debug, PartialEq, Eq, Structural)]
pub enum ErrorKind {
    /// The data ended before a value could be read.
    UnexpectedEof,
    /// The image signature is neither `II` nor `MM`; the two bytes read are kept.
    InvalidSignature(u8, u8),
    /// The version word is neither 42 (Classic TIFF) nor 43 (Big TIFF).
    InvalidVersion(u16),
    /// A Big TIFF header whose offset size is not 8 or whose reserved word is not 0.
    InvalidBigTiffHeader(u16, u16),
    /// An unknown datatype code was encountered.
    UnknownDType(u16),
    /// A datatype that the tag or the requested value type does not accept.
    UnexpectedDType(DType),
    /// An entry holds `count` values where the request needs `expected`.
    CountMismatch { count: u64, expected: u64 },
    /// A position or a size does not fit in 64 bits.
    Overflow,
    /// A required tag is missing.
    MissingRequiredTag(Tag),
    /// An ASCII entry has no terminating NUL byte, or is not valid UTF-8.
    InvalidString,
    /// The value of the tag is zero where it must be positive.
    ZeroValue(Tag),
    /// The strip and tile tags do not describe exactly one complete layout.
    AmbiguousLayout,
    /// The numbers of chunk offsets and of chunk byte counts differ.
    ByteCountsMismatch { offsets: u64, byte_counts: u64 },
    /// There are fewer chunks than the image dimensions and the layout need.
    TooFewChunks { actual: u64, expected: u64 },
    /// The number of bits per sample or of sample formats differs from the samples per pixel.
    SamplesMismatch { values: u64, samples_per_pixel: u16 },
    /// Only one of the X and Y resolutions is given.
    IncompleteResolution,
    /// A compression scheme that no reader handles.
    UnsupportedCompression(Compression),
    /// The compressed data is not a valid stream.
    InvalidCompressedData,
    /// A sample layout that the predictor cannot reverse.
    UnsupportedPredictor { samples: u16, bytes_per_sample: u16 },
}

/// An error that can occur in this crate: its kind, and the tag of the entry that was being
/// read when it occurred, if any.
#[derive(Clone, Copy, Debug, PartialEq, Eq, Structural)]
pub struct Error {
    /// What went wrong.
    pub kind: ErrorKind,
    /// The tag of the entry whose value was invalid.
    pub context: Option<Tag>,
}

/// The error of kind `kind`, without context.
pub open spec fn err(kind: ErrorKind) -> Error {
    Error { kind, context: None }
}

impl Error {
    /// An error of the given kind, without context.
    pub fn new(kind: ErrorKind) -> (r: Error)
        ensures
            r == err(kind),
    {
        Error { kind, context: None }
    }

    /// The same error, reported as an invalid value of the entry with tag `tag`.
    pub fn with_context(self, tag: Tag) -> (r: Error)
        ensures
            r.kind == self.kind,
            r.context == Some(tag),
    {
        Error { kind: self.kind, context: Some(tag) }
    }
}

} // verus!
