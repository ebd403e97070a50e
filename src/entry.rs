//! The values of the entries of a TIFF directory that the metadata keeps as they are.
use vstd::prelude::*;

use crate::decoder::{self, values_at, Decode};
use crate::dtype::DType;
use crate::error::{Error, ErrorKind};
use crate::ratio::Ratio;

verus! {

/// The text of a NUL-terminated ASCII value: the bytes before the final NUL, which must be the
/// only NUL, read as UTF-8.
pub open spec fn ascii_text(bytes: Seq<u8>) -> Option<Seq<char>> {
    if bytes.len() >= 1 && bytes.last() == 0 && (forall|i: int|
        0 <= i < bytes.len() - 1 ==> bytes[i] != 0) && vstd::utf8::valid_utf8(bytes.drop_last()) {
        Some(vstd::utf8::decode_utf8(bytes.drop_last()))
    } else {
        None
    }
}

/// Relies on `std::str::from_utf8`: it accepts exactly the valid UTF-8 byte sequences, and the
/// string it returns holds the characters they encode.
#[verifier::external_body]
fn string_from_utf8(bytes: &[u8]) -> (r: Option<String>)
    ensures
        r is Some <==> vstd::utf8::valid_utf8(bytes@),
        r matches Some(s) ==> s@ == vstd::utf8::decode_utf8(bytes@),
{
    match std::str::from_utf8(bytes) {
        Ok(s) => Some(s.to_owned()),
        Err(_) => None,
    }
}

/// Reads the text of a NUL-terminated ASCII value.
pub fn text_from_ascii(bytes: &[u8]) -> (r: Result<String, Error>)
    ensures
        match r {
            Ok(s) => ascii_text(bytes@) == Some(s@),
            Err(e) => ascii_text(bytes@) is None && e.kind == ErrorKind::InvalidString
                && e.context is None,
        },
{
    let n = bytes.len();
    if n == 0 || bytes[n - 1] != 0 {
        return Err(Error::new(ErrorKind::InvalidString));
    }
    let mut i: usize = 0;
    while i < n - 1
        invariant
            n == bytes@.len(),
            n >= 1,
            i <= n - 1,
            forall|k: int| 0 <= k < i ==> bytes@[k] != 0,
        decreases n - 1 - i,
    {
        if bytes[i] == 0 {
            return Err(Error::new(ErrorKind::InvalidString));
        }
        i = i + 1;
    }
    let mut text: Vec<u8> = Vec::new();
    let mut j: usize = 0;
    while j < n - 1
        invariant
            n == bytes@.len(),
            n >= 1,
            j <= n - 1,
            text@ == bytes@.subrange(0, j as int),
        decreases n - 1 - j,
    {
        text.push(bytes[j]);
        j = j + 1;
    }
    assert(text@ =~= bytes@.drop_last());
    match string_from_utf8(text.as_slice()) {
        Some(s) => Ok(s),
        None => Err(Error::new(ErrorKind::InvalidString)),
    }
}

/// An entry in a TIFF directory, with all its values.
#[derive(Clone, Debug)]
pub enum Entry {
    /// A sequence of bytes, that may contain anything, depending on the semantic of the tag.
    Bytes(Vec<u8>),
    /// An ASCII encoded string.
    Ascii(String),
    /// 8-bit unsigned integers.
    U8(Vec<u8>),
    /// 16-bit unsigned integers.
    U16(Vec<u16>),
    /// 32-bit unsigned integers.
    U32(Vec<u32>),
    /// 64-bit unsigned integers.
    U64(Vec<u64>),
    /// 8-bit signed integers.
    I8(Vec<i8>),
    /// 16-bit signed integers.
    I16(Vec<i16>),
    /// 32-bit signed integers.
    I32(Vec<i32>),
    /// 64-bit signed integers.
    I64(Vec<i64>),
    /// The bit patterns of 32-bit floating point numbers.
    F32(Vec<u32>),
    /// The bit patterns of 64-bit floating point numbers.
    F64(Vec<u64>),
    /// A sequence of unsigned rational numbers.
    Ratio(Vec<Ratio<u32>>),
    /// A sequence of signed rational numbers.
    SignedRatio(Vec<Ratio<i32>>),
}

/// The values of type `T` that the entry `e` holds, read as `T`'s own datatypes are.
pub open spec fn raw_values<T: Decode>(e: decoder::Entry) -> Option<Seq<T>> {
    values_at::<T>(
        e.decoder.spec_data(),
        e.decoder.spec_byteorder(),
        e.offset as int,
        e.count as nat,
    )
}

/// True when `x` holds the values of the directory entry `e`, in the variant that its
/// datatype calls for. Floating-point values are kept as the bits that encode them.
pub open spec fn holds_values_of(x: Entry, e: decoder::Entry) -> bool {
    match e.dtype {
        DType::Byte => x matches Entry::U8(v) && raw_values::<u8>(e) == Some(v@),
        DType::Undefined => x matches Entry::Bytes(v) && raw_values::<u8>(e) == Some(v@),
        DType::Ascii => x matches Entry::Ascii(s) && (raw_values::<u8>(e) matches Some(b)
            && ascii_text(b) == Some(s@)),
        DType::Short => x matches Entry::U16(v) && raw_values::<u16>(e) == Some(v@),
        DType::Long | DType::Ifd => x matches Entry::U32(v) && raw_values::<u32>(e) == Some(v@),
        DType::BigLong | DType::BigIfd => x matches Entry::U64(v) && raw_values::<u64>(e) == Some(
            v@,
        ),
        DType::SignedByte => x matches Entry::I8(v) && raw_values::<i8>(e) == Some(v@),
        DType::SignedShort => x matches Entry::I16(v) && raw_values::<i16>(e) == Some(v@),
        DType::SignedLong => x matches Entry::I32(v) && raw_values::<i32>(e) == Some(v@),
        DType::BigSignedLong => x matches Entry::I64(v) && raw_values::<i64>(e) == Some(v@),
        DType::Float => x matches Entry::F32(v) && values_at::<u32>(
            e.decoder.spec_data(),
            e.decoder.spec_byteorder(),
            e.offset as int,
            e.count as nat,
        ) == Some(v@),
        DType::Double => x matches Entry::F64(v) && values_at::<u64>(
            e.decoder.spec_data(),
            e.decoder.spec_byteorder(),
            e.offset as int,
            e.count as nat,
        ) == Some(v@),
        DType::Rational => x matches Entry::Ratio(v) && raw_values::<Ratio<u32>>(e) == Some(v@),
        DType::SignedRational => x matches Entry::SignedRatio(v) && raw_values::<Ratio<i32>>(e)
            == Some(v@),
    }
}

/// Why the values of the entry `e` cannot be read: the data ends too early, or an ASCII value
/// is not NUL-terminated UTF-8.
pub open spec fn values_error(e: decoder::Entry) -> Option<ErrorKind> {
    let data = e.decoder.spec_data();
    let width = e.dtype.spec_size();
    if e.offset + e.count * width > data.len() {
        Some(ErrorKind::UnexpectedEof)
    } else if e.dtype == DType::Ascii && ascii_text(raw_values::<u8>(e)->Some_0) is None {
        Some(ErrorKind::InvalidString)
    } else {
        None
    }
}

impl Entry {
    /// Creates a new [`Entry`] from a directory entry, reading all its values.
    pub fn from_decoder(e: decoder::Entry) -> (r: Result<Entry, Error>)
        ensures
            match r {
                Ok(x) => holds_values_of(x, e) && values_error(e) is None,
                Err(err) => values_error(e) == Some(err.kind) && err.context is None,
            },
    {
        match e.dtype {
            DType::Byte => match e.read_values::<u8>() {
                Ok(v) => Ok(Entry::U8(v)),
                Err(err) => Err(err),
            },
            DType::Undefined => match e.read_values::<u8>() {
                Ok(v) => Ok(Entry::Bytes(v)),
                Err(err) => Err(err),
            },
            DType::Short => match e.read_values::<u16>() {
                Ok(v) => Ok(Entry::U16(v)),
                Err(err) => Err(err),
            },
            DType::Long | DType::Ifd => match e.read_values::<u32>() {
                Ok(v) => Ok(Entry::U32(v)),
                Err(err) => Err(err),
            },
            DType::BigLong | DType::BigIfd => match e.read_values::<u64>() {
                Ok(v) => Ok(Entry::U64(v)),
                Err(err) => Err(err),
            },
            DType::SignedByte => match e.read_values::<i8>() {
                Ok(v) => Ok(Entry::I8(v)),
                Err(err) => Err(err),
            },
            DType::SignedShort => match e.read_values::<i16>() {
                Ok(v) => Ok(Entry::I16(v)),
                Err(err) => Err(err),
            },
            DType::SignedLong => match e.read_values::<i32>() {
                Ok(v) => Ok(Entry::I32(v)),
                Err(err) => Err(err),
            },
            DType::BigSignedLong => match e.read_values::<i64>() {
                Ok(v) => Ok(Entry::I64(v)),
                Err(err) => Err(err),
            },
            DType::Float => match e.read_values::<u32>() {
                Ok(v) => Ok(Entry::F32(v)),
                Err(err) => Err(err),
            },
            DType::Double => match e.read_values::<u64>() {
                Ok(v) => Ok(Entry::F64(v)),
                Err(err) => Err(err),
            },
            DType::Rational => match e.read_values::<Ratio<u32>>() {
                Ok(v) => Ok(Entry::Ratio(v)),
                Err(err) => Err(err),
            },
            DType::SignedRational => match e.read_values::<Ratio<i32>>() {
                Ok(v) => Ok(Entry::SignedRatio(v)),
                Err(err) => Err(err),
            },
            DType::Ascii => match e.read_values::<u8>() {
                Ok(bytes) => match text_from_ascii(bytes.as_slice()) {
                    Ok(s) => Ok(Entry::Ascii(s)),
                    Err(err) => Err(err),
                },
                Err(err) => Err(err),
            },
        }
    }
}

} // verus!
