//! Datatypes of directory entries.
use vstd::prelude::*;

verus! {

/// The datatype of an IFD entry.
#[derive(Clone, Copy, Debug, PartialEq, Eq, Structural)]
pub enum DType {
    /// 8-bit unsigned integer.
    Byte,
    /// 8-bit byte that contains a 7-bit ASCII code; the last byte must be NUL.
    Ascii,
    /// 16-bit unsigned integer.
    Short,
    /// 32-bit unsigned integer.
    Long,
    /// Two `Long`: the numerator and the denominator of a fraction.
    Rational,
    /// 8-bit signed (twos-complement) integer.
    SignedByte,
    /// 8-bit byte that may contain anything, depending on the field's definition.
    Undefined,
    /// 16-bit signed (twos-complement) integer.
    SignedShort,
    /// 32-bit signed (twos-complement) integer.
    SignedLong,
    /// Two `SignedLong`: the numerator and the denominator of a fraction.
    SignedRational,
    /// Single precision (32-bit) IEEE floating point.
    Float,
    /// Double precision (64-bit) IEEE floating point.
    Double,
    /// 32-bit unsigned integer (offset).
    Ifd,
    /// Big TIFF 64-bit unsigned integer.
    BigLong,
    /// Big TIFF 64-bit signed (twos-complement) integer.
    BigSignedLong,
    /// Big TIFF 64-bit unsigned integer (offset).
    BigIfd,
}

impl DType {
    /// The code of the datatype on the wire.
    pub open spec fn spec_code(self) -> u16 {
        match self {
            DType::Byte => 1,
            DType::Ascii => 2,
            DType::Short => 3,
            DType::Long => 4,
            DType::Rational => 5,
            DType::SignedByte => 6,
            DType::Undefined => 7,
            DType::SignedShort => 8,
            DType::SignedLong => 9,
            DType::SignedRational => 10,
            DType::Float => 11,
            DType::Double => 12,
            DType::Ifd => 13,
            DType::BigLong => 16,
            DType::BigSignedLong => 17,
            DType::BigIfd => 18,
        }
    }

    /// The size in bytes of one value of the datatype.
    pub open spec fn spec_size(self) -> nat {
        match self {
            DType::Byte => 1,
            DType::Ascii => 1,
            DType::Short => 2,
            DType::Long => 4,
            DType::Rational => 8,
            DType::SignedByte => 1,
            DType::Undefined => 1,
            DType::SignedShort => 2,
            DType::SignedLong => 4,
            DType::SignedRational => 8,
            DType::Float => 4,
            DType::Double => 8,
            DType::Ifd => 4,
            DType::BigLong => 8,
            DType::BigSignedLong => 8,
            DType::BigIfd => 8,
        }
    }

    /// The datatype with the code `code`, if there is one.
    pub open spec fn from_code(code: u16) -> Option<DType> {
        if code == 1 {
            Some(DType::Byte)
        } else if code == 2 {
            Some(DType::Ascii)
        } else if code == 3 {
            Some(DType::Short)
        } else if code == 4 {
            Some(DType::Long)
        } else if code == 5 {
            Some(DType::Rational)
        } else if code == 6 {
            Some(DType::SignedByte)
        } else if code == 7 {
            Some(DType::Undefined)
        } else if code == 8 {
            Some(DType::SignedShort)
        } else if code == 9 {
            Some(DType::SignedLong)
        } else if code == 10 {
            Some(DType::SignedRational)
        } else if code == 11 {
            Some(DType::Float)
        } else if code == 12 {
            Some(DType::Double)
        } else if code == 13 {
            Some(DType::Ifd)
        } else if code == 16 {
            Some(DType::BigLong)
        } else if code == 17 {
            Some(DType::BigSignedLong)
        } else if code == 18 {
            Some(DType::BigIfd)
        } else {
            None
        }
    }

    /// Returns the datatype with the given code; unknown codes give `None`.
    pub fn try_from_u16(value: u16) -> (r: Option<DType>)
        ensures
            r == DType::from_code(value),
            r matches Some(d) ==> d.spec_code() == value,
    {
        if value == 1 {
            Some(DType::Byte)
        } else if value == 2 {
            Some(DType::Ascii)
        } else if value == 3 {
            Some(DType::Short)
        } else if value == 4 {
            Some(DType::Long)
        } else if value == 5 {
            Some(DType::Rational)
        } else if value == 6 {
            Some(DType::SignedByte)
        } else if value == 7 {
            Some(DType::Undefined)
        } else if value == 8 {
            Some(DType::SignedShort)
        } else if value == 9 {
            Some(DType::SignedLong)
        } else if value == 10 {
            Some(DType::SignedRational)
        } else if value == 11 {
            Some(DType::Float)
        } else if value == 12 {
            Some(DType::Double)
        } else if value == 13 {
            Some(DType::Ifd)
        } else if value == 16 {
            Some(DType::BigLong)
        } else if value == 17 {
            Some(DType::BigSignedLong)
        } else if value == 18 {
            Some(DType::BigIfd)
        } else {
            None
        }
    }

    /// Returns the code of the datatype.
    pub fn code(self) -> (r: u16)
        ensures
            r == self.spec_code(),
    {
        match self {
            DType::Byte => 1,
            DType::Ascii => 2,
            DType::Short => 3,
            DType::Long => 4,
            DType::Rational => 5,
            DType::SignedByte => 6,
            DType::Undefined => 7,
            DType::SignedShort => 8,
            DType::SignedLong => 9,
            DType::SignedRational => 10,
            DType::Float => 11,
            DType::Double => 12,
            DType::Ifd => 13,
            DType::BigLong => 16,
            DType::BigSignedLong => 17,
            DType::BigIfd => 18,
        }
    }

    /// Returns the size in bytes of the datatype.
    pub fn size(self) -> (r: u64)
        ensures
            r == self.spec_size(),
    {
        match self {
            DType::Byte | DType::Ascii | DType::SignedByte | DType::Undefined => 1,
            DType::Short | DType::SignedShort => 2,
            DType::Long | DType::SignedLong | DType::Float | DType::Ifd => 4,
            DType::Rational
            | DType::SignedRational
            | DType::Double
            | DType::BigLong
            | DType::BigSignedLong
            | DType::BigIfd => 8,
        }
    }

    /// The name of the datatype.
    pub open spec fn spec_name(self) -> &'static str {
        match self {
            DType::Byte => "Byte",
            DType::Ascii => "Ascii",
            DType::Short => "Short",
            DType::Long => "Long",
            DType::Rational => "Rational",
            DType::SignedByte => "SignedByte",
            DType::Undefined => "Undefined",
            DType::SignedShort => "SignedShort",
            DType::SignedLong => "SignedLong",
            DType::SignedRational => "SignedRational",
            DType::Float => "Float",
            DType::Double => "Double",
            DType::Ifd => "Ifd",
            DType::BigLong => "BigLong",
            DType::BigSignedLong => "BigSignedLong",
            DType::BigIfd => "BigIfd",
        }
    }

    /// Returns the name of the type.
    pub fn name(self) -> (r: &'static str)
        ensures
            r == self.spec_name(),
    {
        match self {
            DType::Byte => "Byte",
            DType::Ascii => "Ascii",
            DType::Short => "Short",
            DType::Long => "Long",
            DType::Rational => "Rational",
            DType::SignedByte => "SignedByte",
            DType::Undefined => "Undefined",
            DType::SignedShort => "SignedShort",
            DType::SignedLong => "SignedLong",
            DType::SignedRational => "SignedRational",
            DType::Float => "Float",
            DType::Double => "Double",
            DType::Ifd => "Ifd",
            DType::BigLong => "BigLong",
            DType::BigSignedLong => "BigSignedLong",
            DType::BigIfd => "BigIfd",
        }
    }

    /// The name of the datatype followed by its code in parentheses.
    pub open spec fn spec_debug_name(self) -> &'static str {
        match self {
            DType::Byte => "Byte(1)",
            DType::Ascii => "Ascii(2)",
            DType::Short => "Short(3)",
            DType::Long => "Long(4)",
            DType::Rational => "Rational(5)",
            DType::SignedByte => "SignedByte(6)",
            DType::Undefined => "Undefined(7)",
            DType::SignedShort => "SignedShort(8)",
            DType::SignedLong => "SignedLong(9)",
            DType::SignedRational => "SignedRational(10)",
            DType::Float => "Float(11)",
            DType::Double => "Double(12)",
            DType::Ifd => "Ifd(13)",
            DType::BigLong => "BigLong(16)",
            DType::BigSignedLong => "BigSignedLong(17)",
            DType::BigIfd => "BigIfd(18)",
        }
    }

    /// Returns the name of the type followed by its code, as in `Short(3)`.
    pub fn debug_name(self) -> (r: &'static str)
        ensures
            r == self.spec_debug_name(),
    {
        match self {
            DType::Byte => "Byte(1)",
            DType::Ascii => "Ascii(2)",
            DType::Short => "Short(3)",
            DType::Long => "Long(4)",
            DType::Rational => "Rational(5)",
            DType::SignedByte => "SignedByte(6)",
            DType::Undefined => "Undefined(7)",
            DType::SignedShort => "SignedShort(8)",
            DType::SignedLong => "SignedLong(9)",
            DType::SignedRational => "SignedRational(10)",
            DType::Float => "Float(11)",
            DType::Double => "Double(12)",
            DType::Ifd => "Ifd(13)",
            DType::BigLong => "BigLong(16)",
            DType::BigSignedLong => "BigSignedLong(17)",
            DType::BigIfd => "BigIfd(18)",
        }
    }

}

} // verus!
