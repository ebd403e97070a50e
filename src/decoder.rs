//! TIFF structural decoder.
//!
//! The [`Decoder`] walks the structure of a TIFF file held in memory: the header, the chain of
//! directories, the entries of each directory and the values of each entry. Every step is
//! stated by a spec function over the bytes of the file ([`parse_header`], [`directory_step`],
//! [`entry_step`]), and the executable walk is proved to follow it.
use vstd::prelude::*;

use crate::byteorder::{lemma_bytes_of_value, lemma_pow256_mono, lemma_pow256_values, pow256, read_uint, value_of};
use crate::dtype::DType;
use crate::endian::ByteOrder;
use crate::error::{err, Error, ErrorKind};
use crate::ratio::Ratio;
use crate::tag::Tag;
use crate::version::Version;

verus! {

/// The `n`-byte number at position `pos` of `data` in `order`, if `data` holds those bytes.
pub open spec fn word_at(data: Seq<u8>, order: ByteOrder, pos: int, n: nat) -> Option<nat> {
    if 0 <= pos && pos + n <= data.len() {
        Some(value_of(order, data.subrange(pos, pos + n)))
    } else {
        None
    }
}

/// Reads the `n`-byte number at position `pos` of `data`.
pub fn read_word(data: &[u8], order: ByteOrder, pos: u64, n: usize) -> (r: Result<u64, Error>)
    requires
        1 <= n <= 8,
    ensures
        data@.len() <= u64::MAX,
        match r {
            Ok(v) => word_at(data@, order, pos as int, n as nat) == Some(v as nat) && pos + n
                <= data@.len() && v < pow256(n as nat),
            Err(e) => word_at(data@, order, pos as int, n as nat) is None && e == err(
                ErrorKind::UnexpectedEof,
            ),
        },
{
    let len = data.len();
    if pos > len as u64 || (len as u64 - pos) < n as u64 {
        return Err(Error::new(ErrorKind::UnexpectedEof));
    }
    let p = pos as usize;
    let v = read_uint(order, data, p, n);
    proof {
        lemma_pow256_values();
        lemma_pow256_mono(n as nat, 8);
    }
    Ok(v as u64)
}

/// The byte order and version that the header of `data` declares, or why it is refused.
pub open spec fn parse_header(data: Seq<u8>) -> Result<(ByteOrder, Version), ErrorKind> {
    if data.len() < 2 {
        Err(ErrorKind::UnexpectedEof)
    } else {
        match ByteOrder::from_signature(data[0], data[1]) {
            None => Err(ErrorKind::InvalidSignature(data[0], data[1])),
            Some(order) => match word_at(data, order, 2, 2) {
                None => Err(ErrorKind::UnexpectedEof),
                Some(word) => match Version::from_word(word as u16) {
                    None => Err(ErrorKind::InvalidVersion(word as u16)),
                    Some(Version::Classic) => Ok((order, Version::Classic)),
                    Some(Version::BigTiff) => match (
                        word_at(data, order, 4, 2),
                        word_at(data, order, 6, 2),
                    ) {
                        (Some(size), Some(reserved)) => if size == 8 && reserved == 0 {
                            Ok((order, Version::BigTiff))
                        } else {
                            Err(ErrorKind::InvalidBigTiffHeader(size as u16, reserved as u16))
                        },
                        _ => Err(ErrorKind::UnexpectedEof),
                    },
                },
            },
        }
    }
}

/// TIFF image raw decoder over the bytes of a file.
pub struct Decoder {
    data: Vec<u8>,
    byteorder: ByteOrder,
    version: Version,
}

impl Decoder {
    /// The bytes of the file.
    pub closed spec fn spec_data(&self) -> Seq<u8> {
        self.data@
    }

    /// The byte order of the file.
    pub closed spec fn spec_byteorder(&self) -> ByteOrder {
        self.byteorder
    }

    /// The version of the file.
    pub closed spec fn spec_version(&self) -> Version {
        self.version
    }

    /// Creates a new [`Decoder`] from the bytes of a file, reading its header.
    pub fn new(data: Vec<u8>) -> (r: Result<Decoder, Error>)
        ensures
            match r {
                Ok(d) => parse_header(data@) == Ok::<(ByteOrder, Version), ErrorKind>(
                    (d.spec_byteorder(), d.spec_version()),
                ) && d.spec_data() == data@,
                Err(e) => parse_header(data@) == Err::<(ByteOrder, Version), ErrorKind>(e.kind)
                    && e.context is None,
            },
    {
        if data.len() < 2 {
            return Err(Error::new(ErrorKind::UnexpectedEof));
        }
        let b0 = data[0];
        let b1 = data[1];
        let byteorder = match ByteOrder::try_from_signature([b0, b1]) {
            Some(byteorder) => byteorder,
            None => return Err(Error::new(ErrorKind::InvalidSignature(b0, b1))),
        };
        proof {
            lemma_pow256_values();
        }
        let word = read_word(data.as_slice(), byteorder, 2, 2)?;
        let version = match Version::try_from_u16(word as u16) {
            Some(version) => version,
            None => return Err(Error::new(ErrorKind::InvalidVersion(word as u16))),
        };
        if version == Version::BigTiff {
            let offset_size = read_word(data.as_slice(), byteorder, 4, 2)?;
            let reserved = read_word(data.as_slice(), byteorder, 6, 2)?;
            if offset_size != 8 || reserved != 0 {
                return Err(
                    Error::new(ErrorKind::InvalidBigTiffHeader(offset_size as u16, reserved as u16)),
                );
            }
        }
        Ok(Decoder { data, byteorder, version })
    }

    /// Get the byte order of the TIFF file.
    pub fn byteorder(&self) -> (r: ByteOrder)
        ensures
            r == self.spec_byteorder(),
    {
        self.byteorder
    }

    /// Get the version of the TIFF file.
    pub fn version(&self) -> (r: Version)
        ensures
            r == self.spec_version(),
    {
        self.version
    }

    /// Gives the bytes of the file back.
    pub fn into_inner(self) -> (r: Vec<u8>)
        ensures
            r@ == self.spec_data(),
    {
        self.data
    }

    /// Get an iterator over the directories of the TIFF image. The first directory offset
    /// follows the version word: at position 4 in Classic TIFF, at 8 in Big TIFF.
    pub fn directories(&self) -> (r: Directories<'_>)
        ensures
            *r.spec_decoder() == *self,
            r.spec_next_offset_loc() == Some(
                if self.spec_version() == Version::Classic {
                    4u64
                } else {
                    8u64
                },
            ),
    {
        let next_offset_loc: u64 = match self.version {
            Version::Classic => 4,
            Version::BigTiff => 8,
        };
        Directories { decoder: self, next_offset_loc: Some(next_offset_loc) }
    }
}

/// One step of the directory walk from the location `loc` of a directory offset. `Ok(None)`
/// when the offset read there is zero, which ends the walk; else the directory found, as
/// `(offset, next_offset, entries_count, next_loc)`, where `next_loc` is where the offset of the
/// next directory is stored: just after the last entry.
pub open spec fn directory_step(data: Seq<u8>, order: ByteOrder, version: Version, loc: u64) -> Result<
    Option<(u64, u64, u64, u64)>,
    ErrorKind,
> {
    let width = version.spec_offset_size();
    match word_at(data, order, loc as int, width) {
        None => Err(ErrorKind::UnexpectedEof),
        Some(offset) => if offset == 0 {
            Ok(None)
        } else {
            match word_at(data, order, offset as int, version.spec_count_size()) {
                None => Err(ErrorKind::UnexpectedEof),
                Some(count) => {
                    let next_loc = offset + version.spec_count_size() + count
                        * version.spec_entry_size();
                    if next_loc > u64::MAX {
                        Err(ErrorKind::Overflow)
                    } else {
                        match word_at(data, order, next_loc as int, width) {
                            None => Err(ErrorKind::UnexpectedEof),
                            Some(next_offset) => Ok(
                                Some((offset as u64, next_offset as u64, count as u64, next_loc as u64)),
                            ),
                        }
                    }
                },
            }
        },
    }
}

/// An iterator over the directories of a TIFF image.
pub struct Directories<'tiff> {
    decoder: &'tiff Decoder,
    /// The position of the next offset value.
    next_offset_loc: Option<u64>,
}

impl<'tiff> Directories<'tiff> {
    /// The decoder walked.
    pub closed spec fn spec_decoder(&self) -> &'tiff Decoder {
        self.decoder
    }

    /// Where the offset of the next directory is stored; `None` once the walk has ended.
    pub closed spec fn spec_next_offset_loc(&self) -> Option<u64> {
        self.next_offset_loc
    }

    /// Returns to the next directory in the TIFF image. The walk ends, with `Ok(None)`, exactly
    /// when a zero directory offset is read; an error leaves the iterator as it was.
    pub fn next_directory(&mut self) -> (r: Result<Option<Directory<'tiff>>, Error>)
        ensures
            final(self).spec_decoder() == old(self).spec_decoder(),
            match old(self).spec_next_offset_loc() {
                None => r matches Ok(None) && final(self).spec_next_offset_loc() is None,
                Some(loc) => match directory_step(
                    old(self).spec_decoder().spec_data(),
                    old(self).spec_decoder().spec_byteorder(),
                    old(self).spec_decoder().spec_version(),
                    loc,
                ) {
                    Err(kind) => r == Err::<Option<Directory<'tiff>>, Error>(err(kind))
                        && final(self).spec_next_offset_loc() == Some(loc),
                    Ok(None) => r matches Ok(None) && final(self).spec_next_offset_loc() is None,
                    Ok(Some((offset, next_offset, count, next_loc))) => r matches Ok(Some(d))
                        && d.decoder == old(self).spec_decoder() && d.offset == offset
                        && d.next_offset == next_offset && d.entries_count == count
                        && final(self).spec_next_offset_loc() == Some(next_loc),
                },
            },
    {
        let loc = match self.next_offset_loc {
            None => return Ok(None),
            Some(loc) => loc,
        };
        let decoder = self.decoder;
        let data = decoder.data.as_slice();
        let order = decoder.byteorder;
        let version = decoder.version;
        let width = version.offset_size() as usize;
        let offset = read_word(data, order, loc, width)?;
        if offset == 0 {
            self.next_offset_loc = None;
            return Ok(None);
        }
        let count_size = version.count_size();
        let entries_count = read_word(data, order, offset, count_size as usize)?;
        let entry_size = version.entry_size();
        // offset + count_size <= data.len(), so the first sum cannot overflow.
        let first_entry_offset = offset + count_size;
        let next_offset_loc = match entries_count.checked_mul(entry_size) {
            Some(size) => match size.checked_add(first_entry_offset) {
                Some(loc) => loc,
                None => return Err(Error::new(ErrorKind::Overflow)),
            },
            None => return Err(Error::new(ErrorKind::Overflow)),
        };
        let next_offset = read_word(data, order, next_offset_loc, width)?;
        self.next_offset_loc = Some(next_offset_loc);
        Ok(Some(Directory { decoder, entries_count, offset, next_offset }))
    }
}

/// The reader over the entries of a TIFF directory.
pub struct Directory<'tiff> {
    /// The decoder that found the directory.
    pub decoder: &'tiff Decoder,
    /// The number of entries in the directory.
    pub entries_count: u64,
    /// The offset of the current directory.
    pub offset: u64,
    /// The offset of the next directory.
    pub next_offset: u64,
}

impl<'tiff> Directory<'tiff> {
    /// Get an iterator over the entries of the directory, which start just after the entry
    /// count.
    pub fn entries(self) -> (r: Entries<'tiff>)
        ensures
            r.spec_decoder() == self.decoder,
            r.spec_remaining() == self.entries_count,
            r.spec_entry_offset() == if self.offset + self.decoder.spec_version().spec_count_size()
                <= u64::MAX {
                self.offset + self.decoder.spec_version().spec_count_size()
            } else {
                u64::MAX as int
            },
    {
        let count_size = self.decoder.version.count_size();
        let entry_offset = match self.offset.checked_add(count_size) {
            Some(offset) => offset,
            None => u64::MAX,
        };
        Entries { decoder: self.decoder, entries_count: self.entries_count, entry_offset }
    }
}

/// One entry read at position `pos`: its tag, datatype, count and the position of its value,
/// and the position of the following entry. The value lies in the entry itself, just after the
/// count, when its size is at most the width of an offset; otherwise that slot holds the
/// offset of the value.
pub open spec fn entry_step(data: Seq<u8>, order: ByteOrder, version: Version, pos: u64) -> Result<
    (u16, DType, u64, u64, u64),
    ErrorKind,
> {
    let count_size = version.spec_offset_size();
    match word_at(data, order, pos as int, 2) {
        None => Err(ErrorKind::UnexpectedEof),
        Some(tag) => match word_at(data, order, pos + 2, 2) {
            None => Err(ErrorKind::UnexpectedEof),
            Some(code) => match DType::from_code(code as u16) {
                None => Err(ErrorKind::UnknownDType(code as u16)),
                Some(dtype) => match word_at(data, order, pos + 4, count_size) {
                    None => Err(ErrorKind::UnexpectedEof),
                    Some(count) => {
                        let size = dtype.spec_size() * count;
                        let value_pos = pos + 4 + count_size;
                        if size > u64::MAX {
                            Err(ErrorKind::Overflow)
                        } else {
                            let offset = if size <= version.spec_offset_size() {
                                Some(value_pos as nat)
                            } else {
                                word_at(data, order, value_pos, version.spec_offset_size())
                            };
                            match offset {
                                None => Err(ErrorKind::UnexpectedEof),
                                Some(offset) => if pos + version.spec_entry_size() > u64::MAX {
                                    Err(ErrorKind::Overflow)
                                } else {
                                    Ok(
                                        (
                                            tag as u16,
                                            dtype,
                                            count as u64,
                                            offset as u64,
                                            (pos + version.spec_entry_size()) as u64,
                                        ),
                                    )
                                },
                            }
                        }
                    },
                },
            },
        },
    }
}

/// A value that fits in the slot of its entry is reported at its place in that slot, which lies
/// within the entry, and is never taken for an offset.
pub proof fn inline_value_lies_in_entry(data: Seq<u8>, order: ByteOrder, version: Version, pos: u64)
    requires
        entry_step(data, order, version, pos) is Ok,
        entry_step(data, order, version, pos)->Ok_0.1.spec_size() * entry_step(
            data,
            order,
            version,
            pos,
        )->Ok_0.2 <= version.spec_offset_size(),
    ensures
        ({
            let (tag, dtype, count, offset, next) = entry_step(data, order, version, pos)->Ok_0;
            &&& offset == pos + 4 + version.spec_offset_size()
            &&& pos < offset
            &&& offset + version.spec_offset_size() == pos + version.spec_entry_size()
            &&& next == pos + version.spec_entry_size()
        }),
{
    let cs = version.spec_offset_size();
    lemma_pow256_values();
    lemma_bytes_of_value(order, data.subrange(pos + 4, pos + 4 + cs));
}

/// An iterator over the entries of a TIFF directory.
pub struct Entries<'tiff> {
    decoder: &'tiff Decoder,
    /// The number of remaining entries in the directory.
    entries_count: u64,
    /// The offset of the entry pointed by the iterator.
    entry_offset: u64,
}

impl<'tiff> Entries<'tiff> {
    /// The decoder that found the directory.
    pub closed spec fn spec_decoder(&self) -> &'tiff Decoder {
        self.decoder
    }

    /// The number of entries left.
    pub closed spec fn spec_remaining(&self) -> u64 {
        self.entries_count
    }

    /// The position of the next entry.
    pub closed spec fn spec_entry_offset(&self) -> u64 {
        self.entry_offset
    }

    /// Returns the next entry in the directory; `Ok(None)` once all entries were read. An error
    /// leaves the iterator as it was.
    pub fn next_entry(&mut self) -> (r: Result<Option<Entry<'tiff>>, Error>)
        ensures
            final(self).spec_decoder() == old(self).spec_decoder(),
            if old(self).spec_remaining() == 0 {
                r matches Ok(None) && final(self).spec_remaining() == 0
                    && final(self).spec_entry_offset() == old(self).spec_entry_offset()
            } else {
                match entry_step(
                    old(self).spec_decoder().spec_data(),
                    old(self).spec_decoder().spec_byteorder(),
                    old(self).spec_decoder().spec_version(),
                    old(self).spec_entry_offset(),
                ) {
                    Err(kind) => r == Err::<Option<Entry<'tiff>>, Error>(err(kind))
                        && final(self).spec_remaining() == old(self).spec_remaining()
                        && final(self).spec_entry_offset() == old(self).spec_entry_offset(),
                    Ok((tag, dtype, count, offset, next)) => r matches Ok(Some(e))
                        && e.decoder == old(self).spec_decoder() && e.tag == Tag(tag)
                        && e.dtype == dtype && e.count == count && e.offset == offset
                        && final(self).spec_remaining() == old(self).spec_remaining() - 1
                        && final(self).spec_entry_offset() == next,
                }
            },
    {
        if self.entries_count == 0 {
            return Ok(None);
        }
        let decoder = self.decoder;
        let data = decoder.data.as_slice();
        let order = decoder.byteorder;
        let version = decoder.version;
        let pos = self.entry_offset;
        proof {
            lemma_pow256_values();
        }
        let tag = read_word(data, order, pos, 2)?;
        // pos + 2 <= data.len(), so these sums cannot overflow.
        let code = read_word(data, order, pos + 2, 2)?;
        let dtype = match DType::try_from_u16(code as u16) {
            Some(dtype) => dtype,
            None => return Err(Error::new(ErrorKind::UnknownDType(code as u16))),
        };
        let count_size = version.offset_size();
        let count = read_word(data, order, pos + 4, count_size as usize)?;
        let data_size = match dtype.size().checked_mul(count) {
            Some(size) => size,
            None => return Err(Error::new(ErrorKind::Overflow)),
        };
        let value_pos = pos + 4 + count_size;
        let offset = if data_size <= version.offset_size() {
            // The data is stored directly in the entry.
            value_pos
        } else {
            // The entry holds the offset of the data.
            read_word(data, order, value_pos, version.offset_size() as usize)?
        };
        let next = match pos.checked_add(version.entry_size()) {
            Some(next) => next,
            None => return Err(Error::new(ErrorKind::Overflow)),
        };
        self.entries_count = self.entries_count - 1;
        self.entry_offset = next;
        Ok(Some(Entry { decoder, tag: Tag(tag as u16), dtype, count, offset }))
    }
}

/// An entry of a TIFF directory.
pub struct Entry<'tiff> {
    /// The decoder that found the entry.
    pub decoder: &'tiff Decoder,
    /// The tag of the entry.
    pub tag: Tag,
    /// The datatype of the entry.
    pub dtype: DType,
    /// The number of elements in the entry.
    pub count: u64,
    /// The position of the entry's value in the file.
    pub offset: u64,
}

/// The bytes `n` bytes at position `pos` of `data`, if `data` holds them.
pub open spec fn bytes_at(data: Seq<u8>, pos: int, n: nat) -> Option<Seq<u8>> {
    if 0 <= pos && pos + n <= data.len() {
        Some(data.subrange(pos, pos + n))
    } else {
        None
    }
}

/// The `count` values of type `T` stored one after the other from position `pos` of `data`,
/// if `data` holds them.
pub open spec fn values_at<T: Decode>(data: Seq<u8>, order: ByteOrder, pos: int, count: nat) -> Option<
    Seq<T>,
> {
    if 0 <= pos && pos + count * T::width() <= data.len() {
        Some(
            Seq::new(
                count,
                |i: int|
                    T::from_bytes(
                        order,
                        data.subrange(pos + i * T::width(), pos + i * T::width() + T::width()),
                    ),
            ),
        )
    } else {
        None
    }
}

/// A value that can be decoded from a TIFF entry.
pub trait Decode: Sized {
    /// True when a value of this type can be decoded from an entry of datatype `dtype`.
    spec fn accepts(dtype: DType) -> bool;

    /// The number of bytes that one value takes.
    spec fn width() -> nat;

    /// The value that `bytes` (at least [`Decode::width`] of them) encode in `order`.
    spec fn from_bytes(order: ByteOrder, bytes: Seq<u8>) -> Self;

    /// Check if the type is compatible with the given datatype.
    fn is_dtype_good(dtype: DType) -> (r: bool)
        ensures
            r == Self::accepts(dtype),
    ;

    /// The number of bytes that one value takes.
    fn value_width() -> (r: usize)
        ensures
            r == Self::width(),
            1 <= r <= 8,
    ;

    /// Decodes the value stored at position `pos` of `src`.
    fn read_value(order: ByteOrder, src: &[u8], pos: usize) -> (r: Self)
        requires
            pos + Self::width() <= src@.len(),
        ensures
            r == Self::from_bytes(order, src@.subrange(pos as int, pos + Self::width())),
    ;
}

impl Decode for u8 {
    open spec fn accepts(dtype: DType) -> bool {
        dtype == DType::Byte || dtype == DType::Ascii || dtype == DType::Undefined
    }

    open spec fn width() -> nat {
        1
    }

    open spec fn from_bytes(order: ByteOrder, bytes: Seq<u8>) -> u8 {
        value_of(order, bytes.subrange(0, 1)) as u8
    }

    fn is_dtype_good(dtype: DType) -> (r: bool) {
        match dtype {
            DType::Byte | DType::Ascii | DType::Undefined => true,
            _ => false,
        }
    }

    fn value_width() -> (r: usize) {
        1
    }

    fn read_value(order: ByteOrder, src: &[u8], pos: usize) -> (r: u8) {
        proof {
            lemma_pow256_values();
            assert(src@.subrange(pos as int, pos + 1).subrange(0, 1) =~= src@.subrange(pos as int, pos + 1));
        }
        read_uint(order, src, pos, 1) as u8
    }
}

impl Decode for u16 {
    open spec fn accepts(dtype: DType) -> bool {
        dtype == DType::Short
    }

    open spec fn width() -> nat {
        2
    }

    open spec fn from_bytes(order: ByteOrder, bytes: Seq<u8>) -> u16 {
        value_of(order, bytes.subrange(0, 2)) as u16
    }

    fn is_dtype_good(dtype: DType) -> (r: bool) {
        match dtype {
            DType::Short => true,
            _ => false,
        }
    }

    fn value_width() -> (r: usize) {
        2
    }

    fn read_value(order: ByteOrder, src: &[u8], pos: usize) -> (r: u16) {
        proof {
            lemma_pow256_values();
            assert(src@.subrange(pos as int, pos + 2).subrange(0, 2) =~= src@.subrange(pos as int, pos + 2));
        }
        read_uint(order, src, pos, 2) as u16
    }
}

impl Decode for u32 {
    open spec fn accepts(dtype: DType) -> bool {
        dtype == DType::Long || dtype == DType::Ifd
    }

    open spec fn width() -> nat {
        4
    }

    open spec fn from_bytes(order: ByteOrder, bytes: Seq<u8>) -> u32 {
        value_of(order, bytes.subrange(0, 4)) as u32
    }

    fn is_dtype_good(dtype: DType) -> (r: bool) {
        match dtype {
            DType::Long | DType::Ifd => true,
            _ => false,
        }
    }

    fn value_width() -> (r: usize) {
        4
    }

    fn read_value(order: ByteOrder, src: &[u8], pos: usize) -> (r: u32) {
        proof {
            lemma_pow256_values();
            assert(src@.subrange(pos as int, pos + 4).subrange(0, 4) =~= src@.subrange(pos as int, pos + 4));
        }
        read_uint(order, src, pos, 4) as u32
    }
}

impl Decode for u64 {
    open spec fn accepts(dtype: DType) -> bool {
        dtype == DType::BigLong || dtype == DType::BigIfd
    }

    open spec fn width() -> nat {
        8
    }

    open spec fn from_bytes(order: ByteOrder, bytes: Seq<u8>) -> u64 {
        value_of(order, bytes.subrange(0, 8)) as u64
    }

    fn is_dtype_good(dtype: DType) -> (r: bool) {
        match dtype {
            DType::BigLong | DType::BigIfd => true,
            _ => false,
        }
    }

    fn value_width() -> (r: usize) {
        8
    }

    fn read_value(order: ByteOrder, src: &[u8], pos: usize) -> (r: u64) {
        proof {
            lemma_pow256_values();
            assert(src@.subrange(pos as int, pos + 8).subrange(0, 8) =~= src@.subrange(pos as int, pos + 8));
        }
        read_uint(order, src, pos, 8) as u64
    }
}

impl Decode for i8 {
    open spec fn accepts(dtype: DType) -> bool {
        dtype == DType::SignedByte
    }

    open spec fn width() -> nat {
        1
    }

    open spec fn from_bytes(order: ByteOrder, bytes: Seq<u8>) -> i8 {
        value_of(order, bytes.subrange(0, 1)) as u8 as i8
    }

    fn is_dtype_good(dtype: DType) -> (r: bool) {
        match dtype {
            DType::SignedByte => true,
            _ => false,
        }
    }

    fn value_width() -> (r: usize) {
        1
    }

    fn read_value(order: ByteOrder, src: &[u8], pos: usize) -> (r: i8) {
        proof {
            lemma_pow256_values();
            assert(src@.subrange(pos as int, pos + 1).subrange(0, 1) =~= src@.subrange(pos as int, pos + 1));
        }
        #[verifier::truncate] (read_uint(order, src, pos, 1) as u8 as i8)
    }
}

impl Decode for i16 {
    open spec fn accepts(dtype: DType) -> bool {
        dtype == DType::SignedShort
    }

    open spec fn width() -> nat {
        2
    }

    open spec fn from_bytes(order: ByteOrder, bytes: Seq<u8>) -> i16 {
        value_of(order, bytes.subrange(0, 2)) as u16 as i16
    }

    fn is_dtype_good(dtype: DType) -> (r: bool) {
        match dtype {
            DType::SignedShort => true,
            _ => false,
        }
    }

    fn value_width() -> (r: usize) {
        2
    }

    fn read_value(order: ByteOrder, src: &[u8], pos: usize) -> (r: i16) {
        proof {
            lemma_pow256_values();
            assert(src@.subrange(pos as int, pos + 2).subrange(0, 2) =~= src@.subrange(pos as int, pos + 2));
        }
        #[verifier::truncate] (read_uint(order, src, pos, 2) as u16 as i16)
    }
}

impl Decode for i32 {
    open spec fn accepts(dtype: DType) -> bool {
        dtype == DType::SignedLong
    }

    open spec fn width() -> nat {
        4
    }

    open spec fn from_bytes(order: ByteOrder, bytes: Seq<u8>) -> i32 {
        value_of(order, bytes.subrange(0, 4)) as u32 as i32
    }

    fn is_dtype_good(dtype: DType) -> (r: bool) {
        match dtype {
            DType::SignedLong => true,
            _ => false,
        }
    }

    fn value_width() -> (r: usize) {
        4
    }

    fn read_value(order: ByteOrder, src: &[u8], pos: usize) -> (r: i32) {
        proof {
            lemma_pow256_values();
            assert(src@.subrange(pos as int, pos + 4).subrange(0, 4) =~= src@.subrange(pos as int, pos + 4));
        }
        #[verifier::truncate] (read_uint(order, src, pos, 4) as u32 as i32)
    }
}

impl Decode for i64 {
    open spec fn accepts(dtype: DType) -> bool {
        dtype == DType::BigSignedLong
    }

    open spec fn width() -> nat {
        8
    }

    open spec fn from_bytes(order: ByteOrder, bytes: Seq<u8>) -> i64 {
        value_of(order, bytes.subrange(0, 8)) as u64 as i64
    }

    fn is_dtype_good(dtype: DType) -> (r: bool) {
        match dtype {
            DType::BigSignedLong => true,
            _ => false,
        }
    }

    fn value_width() -> (r: usize) {
        8
    }

    fn read_value(order: ByteOrder, src: &[u8], pos: usize) -> (r: i64) {
        proof {
            lemma_pow256_values();
            assert(src@.subrange(pos as int, pos + 8).subrange(0, 8) =~= src@.subrange(pos as int, pos + 8));
        }
        #[verifier::truncate] (read_uint(order, src, pos, 8) as u64 as i64)
    }
}

impl Decode for (u32, u32) {
    open spec fn accepts(dtype: DType) -> bool {
        dtype == DType::Rational
    }

    open spec fn width() -> nat {
        8
    }

    open spec fn from_bytes(order: ByteOrder, bytes: Seq<u8>) -> (u32, u32) {
        (u32::from_bytes(order, bytes.subrange(0, 4)), u32::from_bytes(order, bytes.subrange(4, 8)))
    }

    fn is_dtype_good(dtype: DType) -> (r: bool) {
        match dtype {
            DType::Rational => true,
            _ => false,
        }
    }

    fn value_width() -> (r: usize) {
        8
    }

    fn read_value(order: ByteOrder, src: &[u8], pos: usize) -> (r: (u32, u32)) {
        let num = u32::read_value(order, src, pos);
        assert(src@.len() == src.len());
        let den = u32::read_value(order, src, pos + 4);
        proof {
            let b = src@.subrange(pos as int, pos + 8);
            assert(b.subrange(0, 4) =~= src@.subrange(pos as int, pos + 4));
            assert(b.subrange(4, 8) =~= src@.subrange(pos + 4, pos + 8));
        }
        (num, den)
    }
}

impl Decode for Ratio<u32> {
    open spec fn accepts(dtype: DType) -> bool {
        dtype == DType::Rational
    }

    open spec fn width() -> nat {
        8
    }

    open spec fn from_bytes(order: ByteOrder, bytes: Seq<u8>) -> Ratio<u32> {
        Ratio { num: u32::from_bytes(order, bytes.subrange(0, 4)), den: u32::from_bytes(order, bytes.subrange(4, 8)) }
    }

    fn is_dtype_good(dtype: DType) -> (r: bool) {
        match dtype {
            DType::Rational => true,
            _ => false,
        }
    }

    fn value_width() -> (r: usize) {
        8
    }

    fn read_value(order: ByteOrder, src: &[u8], pos: usize) -> (r: Ratio<u32>) {
        let num = u32::read_value(order, src, pos);
        assert(src@.len() == src.len());
        let den = u32::read_value(order, src, pos + 4);
        proof {
            let b = src@.subrange(pos as int, pos + 8);
            assert(b.subrange(0, 4) =~= src@.subrange(pos as int, pos + 4));
            assert(b.subrange(4, 8) =~= src@.subrange(pos + 4, pos + 8));
        }
        Ratio::new(num, den)
    }
}

impl Decode for (i32, i32) {
    open spec fn accepts(dtype: DType) -> bool {
        dtype == DType::SignedRational
    }

    open spec fn width() -> nat {
        8
    }

    open spec fn from_bytes(order: ByteOrder, bytes: Seq<u8>) -> (i32, i32) {
        (i32::from_bytes(order, bytes.subrange(0, 4)), i32::from_bytes(order, bytes.subrange(4, 8)))
    }

    fn is_dtype_good(dtype: DType) -> (r: bool) {
        match dtype {
            DType::SignedRational => true,
            _ => false,
        }
    }

    fn value_width() -> (r: usize) {
        8
    }

    fn read_value(order: ByteOrder, src: &[u8], pos: usize) -> (r: (i32, i32)) {
        let num = i32::read_value(order, src, pos);
        assert(src@.len() == src.len());
        let den = i32::read_value(order, src, pos + 4);
        proof {
            let b = src@.subrange(pos as int, pos + 8);
            assert(b.subrange(0, 4) =~= src@.subrange(pos as int, pos + 4));
            assert(b.subrange(4, 8) =~= src@.subrange(pos + 4, pos + 8));
        }
        (num, den)
    }
}

impl Decode for Ratio<i32> {
    open spec fn accepts(dtype: DType) -> bool {
        dtype == DType::SignedRational
    }

    open spec fn width() -> nat {
        8
    }

    open spec fn from_bytes(order: ByteOrder, bytes: Seq<u8>) -> Ratio<i32> {
        Ratio { num: i32::from_bytes(order, bytes.subrange(0, 4)), den: i32::from_bytes(order, bytes.subrange(4, 8)) }
    }

    fn is_dtype_good(dtype: DType) -> (r: bool) {
        match dtype {
            DType::SignedRational => true,
            _ => false,
        }
    }

    fn value_width() -> (r: usize) {
        8
    }

    fn read_value(order: ByteOrder, src: &[u8], pos: usize) -> (r: Ratio<i32>) {
        let num = i32::read_value(order, src, pos);
        assert(src@.len() == src.len());
        let den = i32::read_value(order, src, pos + 4);
        proof {
            let b = src@.subrange(pos as int, pos + 8);
            assert(b.subrange(0, 4) =~= src@.subrange(pos as int, pos + 4));
            assert(b.subrange(4, 8) =~= src@.subrange(pos + 4, pos + 8));
        }
        Ratio::new(num, den)
    }
}

impl<'tiff> Entry<'tiff> {
    /// Decode a single value from the entry. The entry must hold exactly one value, of a
    /// datatype that `T` accepts.
    pub fn decode<T: Decode>(&self) -> (r: Result<T, Error>)
        ensures
            r == if self.count != 1 {
                Err(err(ErrorKind::CountMismatch { count: self.count, expected: 1 }))
            } else if !T::accepts(self.dtype) {
                Err(err(ErrorKind::UnexpectedDType(self.dtype)))
            } else {
                match bytes_at(self.decoder.spec_data(), self.offset as int, T::width()) {
                    None => Err(err(ErrorKind::UnexpectedEof)),
                    Some(b) => Ok(T::from_bytes(self.decoder.spec_byteorder(), b)),
                }
            },
    {
        if self.count != 1 {
            return Err(Error::new(ErrorKind::CountMismatch { count: self.count, expected: 1 }));
        }
        if !T::is_dtype_good(self.dtype) {
            return Err(Error::new(ErrorKind::UnexpectedDType(self.dtype)));
        }
        let data = self.decoder.data.as_slice();
        let width = T::value_width();
        let len = data.len();
        if self.offset > len as u64 || (len as u64 - self.offset) < width as u64 {
            return Err(Error::new(ErrorKind::UnexpectedEof));
        }
        Ok(T::read_value(self.decoder.byteorder, data, self.offset as usize))
    }

    /// Decode the values of the entry into `buffer`, which must have one place per value; the
    /// datatype must be one that `T` accepts. On error `buffer` is left as it was.
    pub fn decode_into<T: Decode>(&self, buffer: &mut [T]) -> (r: Result<(), Error>)
        ensures
            final(buffer)@.len() == old(buffer)@.len(),
            if self.count != old(buffer)@.len() {
                r == Err::<(), Error>(
                    err(ErrorKind::CountMismatch { count: self.count, expected: old(buffer)@.len() as u64 }),
                ) && final(buffer)@ == old(buffer)@
            } else if !T::accepts(self.dtype) {
                r == Err::<(), Error>(err(ErrorKind::UnexpectedDType(self.dtype)))
                    && final(buffer)@ == old(buffer)@
            } else {
                match values_at::<T>(
                    self.decoder.spec_data(),
                    self.decoder.spec_byteorder(),
                    self.offset as int,
                    self.count as nat,
                ) {
                    None => r == Err::<(), Error>(err(ErrorKind::UnexpectedEof)) && final(buffer)@
                        == old(buffer)@,
                    Some(v) => r is Ok && final(buffer)@ == v,
                }
            },
    {
        if self.count != buffer.len() as u64 {
            return Err(
                Error::new(
                    ErrorKind::CountMismatch { count: self.count, expected: buffer.len() as u64 },
                ),
            );
        }
        if !T::is_dtype_good(self.dtype) {
            return Err(Error::new(ErrorKind::UnexpectedDType(self.dtype)));
        }
        let data = self.decoder.data.as_slice();
        let order = self.decoder.byteorder;
        let width = T::value_width();
        let len = data.len();
        let count = self.count;
        if self.offset > len as u64 || count > (len as u64 - self.offset) / (width as u64) {
            proof {
                if self.offset <= len {
                    assert(self.offset + count * width > len) by (nonlinear_arith)
                        requires
                            count > (len - self.offset) / (width as int),
                            width >= 1,
                            self.offset <= len,
                    ;
                }
            }
            return Err(Error::new(ErrorKind::UnexpectedEof));
        }
        proof {
            assert(self.offset + count * width <= len) by (nonlinear_arith)
                requires
                    count <= (len - self.offset) / (width as int),
                    width >= 1,
                    self.offset <= len,
            ;
        }
        let start = self.offset as usize;
        let n = buffer.len();
        let ghost want = values_at::<T>(data@, order, start as int, n as nat)->Some_0;
        let mut i: usize = 0;
        let mut pos: usize = start;
        while i < n
            invariant
                i <= n,
                n == buffer@.len(),
                start + n * width <= data@.len(),
                data@.len() == data.len(),
                width == T::width(),
                1 <= width <= 8,
                pos == start + i * width,
                want == values_at::<T>(data@, order, start as int, n as nat)->Some_0,
                values_at::<T>(data@, order, start as int, n as nat) is Some,
                forall|k: int| 0 <= k < i ==> buffer@[k] == want[k],
            decreases n - i,
        {
            proof {
                assert(pos + width <= start + n * width) by (nonlinear_arith)
                    requires
                        pos == start + i * width,
                        i < n,
                        width >= 1,
                ;
            }
            buffer[i] = T::read_value(order, data, pos);
            proof {
                assert(pos + width == start + (i + 1) * width) by (nonlinear_arith)
                    requires
                        pos == start + i * width,
                ;
            }
            pos = pos + width;
            i = i + 1;
        }
        assert(buffer@ =~= want);
        Ok(())
    }

    /// Decode all the values of the entry, which must be of a datatype that `T` accepts.
    pub fn decode_vec<T: Decode>(&self) -> (r: Result<Vec<T>, Error>)
        ensures
            match r {
                Ok(v) => T::accepts(self.dtype) && values_at::<T>(
                    self.decoder.spec_data(),
                    self.decoder.spec_byteorder(),
                    self.offset as int,
                    self.count as nat,
                ) == Some(v@),
                Err(e) => e == if !T::accepts(self.dtype) {
                    err(ErrorKind::UnexpectedDType(self.dtype))
                } else {
                    err(ErrorKind::UnexpectedEof)
                } && (T::accepts(self.dtype) ==> values_at::<T>(
                    self.decoder.spec_data(),
                    self.decoder.spec_byteorder(),
                    self.offset as int,
                    self.count as nat,
                ) is None),
            },
    {
        if !T::is_dtype_good(self.dtype) {
            return Err(Error::new(ErrorKind::UnexpectedDType(self.dtype)));
        }
        self.read_values::<T>()
    }

    /// Reads the `count` values of the entry as values of type `T`, whatever the datatype of
    /// the entry.
    pub fn read_values<T: Decode>(&self) -> (r: Result<Vec<T>, Error>)
        ensures
            match r {
                Ok(v) => values_at::<T>(
                    self.decoder.spec_data(),
                    self.decoder.spec_byteorder(),
                    self.offset as int,
                    self.count as nat,
                ) == Some(v@),
                Err(e) => e == err(ErrorKind::UnexpectedEof) && values_at::<T>(
                    self.decoder.spec_data(),
                    self.decoder.spec_byteorder(),
                    self.offset as int,
                    self.count as nat,
                ) is None,
            },
    {
        let data = self.decoder.data.as_slice();
        let order = self.decoder.byteorder;
        let width = T::value_width();
        let len = data.len();
        let count = self.count;
        if self.offset > len as u64 || count > (len as u64 - self.offset) / (width as u64) {
            proof {
                if self.offset <= len {
                    assert(self.offset + count * width > len) by (nonlinear_arith)
                        requires
                            count > (len - self.offset) / (width as int),
                            width >= 1,
                            self.offset <= len,
                    ;
                }
            }
            return Err(Error::new(ErrorKind::UnexpectedEof));
        }
        proof {
            assert(self.offset + count * width <= len) by (nonlinear_arith)
                requires
                    count <= (len - self.offset) / (width as int),
                    width >= 1,
                    self.offset <= len,
            ;
        }
        let start = self.offset as usize;
        let n = count as usize;
        let ghost want = values_at::<T>(data@, order, start as int, n as nat)->Some_0;
        let mut values: Vec<T> = Vec::new();
        let mut i: usize = 0;
        let mut pos: usize = start;
        while i < n
            invariant
                i <= n,
                start + n * width <= data@.len(),
                data@.len() == data.len(),
                width == T::width(),
                1 <= width <= 8,
                pos == start + i * width,
                want == values_at::<T>(data@, order, start as int, n as nat)->Some_0,
                values_at::<T>(data@, order, start as int, n as nat) is Some,
                values@.len() == i,
                forall|k: int| 0 <= k < i ==> values@[k] == want[k],
            decreases n - i,
        {
            proof {
                assert(pos + width <= start + n * width) by (nonlinear_arith)
                    requires
                        pos == start + i * width,
                        i < n,
                        width >= 1,
                ;
            }
            let v = T::read_value(order, data, pos);
            values.push(v);
            proof {
                assert(pos + width == start + (i + 1) * width) by (nonlinear_arith)
                    requires
                        pos == start + i * width,
                ;
            }
            pos = pos + width;
            i = i + 1;
        }
        proof {
            assert(values@ =~= want);
        }
        Ok(values)
    }
}

} // verus!
