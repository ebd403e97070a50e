//! Data compression schemes.
use vstd::prelude::*;

use crate::error::{err, Error, ErrorKind};
use crate::packbits::{unpacked, PackBitsReader};

verus! {

/// Data compression algorithm.
#[derive(Clone, Copy, Debug, PartialEq, Eq, PartialOrd, Ord, Structural)]
pub struct Compression(pub u16);

/// Codes of the known values.
impl Compression {
    /// No compression.
    pub const NONE: u16 = 1;
    /// CCITT Group 3 1-Dimensional Modified Huffman run length encoding.
    pub const CCITTRLE: u16 = 2;
    /// T4/Group 3 Fax compression.
    pub const CCITTFAX3: u16 = 3;
    /// T6/Group 4 Fax compression.
    pub const CCITTFAX4: u16 = 4;
    /// LZW compression.
    pub const LZW: u16 = 5;
    /// Standard JPEG compression.
    pub const STANDARD_JPEG: u16 = 6;
    /// JPEG compression.
    pub const JPEG: u16 = 7;
    /// Deflate compression.
    pub const DEFLATE: u16 = 8;
    /// Legacy deflate compression.
    pub const LEGACY_DEFLATE: u16 = 32946;
    /// PackBits compression.
    pub const PACKBITS: u16 = 32773;
}

/// The name of the value with code `code`, or "Unknown".
pub open spec fn compression_name(code: u16) -> &'static str {
    if code == 1 {
        "None"
    } else if code == 2 {
        "CCITT RLE"
    } else if code == 3 {
        "CCITT Fax 3"
    } else if code == 4 {
        "CCITT Fax 4"
    } else if code == 5 {
        "LZW"
    } else if code == 6 {
        "Standard JPEG"
    } else if code == 7 {
        "JPEG"
    } else if code == 8 {
        "Deflate"
    } else if code == 32946 {
        "Deflate"
    } else if code == 32773 {
        "PackBits"
    } else {
        "Unknown"
    }
}

impl Compression {
    /// Returns the name of the value if known, otherwise "Unknown" is returned.
    pub fn name(&self) -> (r: &'static str)
        ensures
            r == compression_name(self.0),
    {
        let code = self.0;
        if code == 1 {
            "None"
        } else if code == 2 {
            "CCITT RLE"
        } else if code == 3 {
            "CCITT Fax 3"
        } else if code == 4 {
            "CCITT Fax 4"
        } else if code == 5 {
            "LZW"
        } else if code == 6 {
            "Standard JPEG"
        } else if code == 7 {
            "JPEG"
        } else if code == 8 {
            "Deflate"
        } else if code == 32946 {
            "Deflate"
        } else if code == 32773 {
            "PackBits"
        } else {
            "Unknown"
        }
    }
}

impl Default for Compression {
    /// The default value, `NONE`.
    fn default() -> (r: Self)
        ensures
            r.0 == Compression::NONE,
    {
        Compression(Compression::NONE)
    }
}



/// The bytes that the zlib stream `data` decompresses to, or `None` when `data` does not hold
/// a complete zlib stream.
pub uninterp spec fn zlib_decompressed(data: Seq<u8>) -> Option<Seq<u8>>;

/// Relies on `flate2::read::ZlibDecoder`: read to its end, it yields the bytes that a zlib
/// stream decompresses to, or an error when the data is not a complete zlib stream. The
/// result depends on the data alone.
#[verifier::external_body]
fn inflate_zlib(data: &[u8]) -> (r: Option<Vec<u8>>)
    ensures
        match r {
            Some(v) => zlib_decompressed(data@) == Some(v@),
            None => zlib_decompressed(data@) is None,
        },
{
    let mut out = Vec::new();
    match std::io::Read::read_to_end(&mut flate2::read::ZlibDecoder::new(data), &mut out) {
        Ok(_) => Some(out),
        Err(_) => None,
    }
}

/// The decompressed bytes of `data` under `compression`, and the error that ends them early,
/// if any. `None` for a compression that no reader handles.
pub open spec fn decompressed(data: Seq<u8>, compression: u16) -> Option<
    (Seq<u8>, Option<ErrorKind>),
> {
    if compression == Compression::NONE {
        Some((data, None))
    } else if compression == Compression::PACKBITS {
        let (out, failed) = unpacked(data);
        Some(
            (
                out,
                if failed {
                    Some(ErrorKind::UnexpectedEof)
                } else {
                    None
                },
            ),
        )
    } else if compression == Compression::DEFLATE || compression == Compression::LEGACY_DEFLATE {
        match zlib_decompressed(data) {
            Some(out) => Some((out, None)),
            None => Some((Seq::empty(), Some(ErrorKind::InvalidCompressedData))),
        }
    } else {
        None
    }
}

/// The bytes of `s` from position `pos` on; none when `pos` is past the end.
pub open spec fn tail_from(s: Seq<u8>, pos: int) -> Seq<u8> {
    if 0 <= pos <= s.len() {
        s.subrange(pos, s.len() as int)
    } else {
        Seq::empty()
    }
}

/// The decompressors, one per algorithm.
enum Inner {
    /// The bytes as they are, from `pos` on.
    Plain { data: Vec<u8>, pos: usize },
    /// A PackBits stream.
    PackBits(PackBitsReader),
    /// The output of a zlib stream from `pos` on; `None` when the stream is invalid.
    Inflated { data: Option<Vec<u8>>, pos: usize },
}

/// TIFF decompression reader over the compressed bytes of one chunk.
pub struct DecompressReader {
    inner: Inner,
}

impl DecompressReader {
    /// The bytes still to come, and the error that ends them early, if any.
    pub closed spec fn remaining(&self) -> (Seq<u8>, Option<ErrorKind>) {
        match self.inner {
            Inner::Plain { data, pos } => (tail_from(data@, pos as int), None),
            Inner::PackBits(r) => {
                let (out, failed) = r.remaining();
                (
                    out,
                    if failed {
                        Some(ErrorKind::UnexpectedEof)
                    } else {
                        None
                    },
                )
            },
            Inner::Inflated { data, pos } => match data {
                Some(v) => (tail_from(v@, pos as int), None),
                None => (Seq::empty(), Some(ErrorKind::InvalidCompressedData)),
            },
        }
    }

    /// Creates a new [`DecompressReader`] from the given compressed bytes and compression
    /// type. No compression, PackBits and Deflate (both codes) are handled; any other
    /// compression is refused.
    pub fn new(reader: Vec<u8>, compression: Compression) -> (r: Result<Self, Error>)
        ensures
            match decompressed(reader@, compression.0) {
                Some(expected) => r matches Ok(d) && d.remaining() == expected,
                None => r == Err::<DecompressReader, Error>(
                    err(ErrorKind::UnsupportedCompression(compression)),
                ),
            },
    {
        let code = compression.0;
        if code == Compression::NONE {
            let d = DecompressReader { inner: Inner::Plain { data: reader, pos: 0 } };
            assert(reader@.subrange(0, reader@.len() as int) =~= reader@);
            Ok(d)
        } else if code == Compression::PACKBITS {
            Ok(DecompressReader { inner: Inner::PackBits(PackBitsReader::new(reader)) })
        } else if code == Compression::DEFLATE || code == Compression::LEGACY_DEFLATE {
            let data = inflate_zlib(reader.as_slice());
            proof {
                if data is Some {
                    let v = data->Some_0;
                    assert(v@.subrange(0, v@.len() as int) =~= v@);
                }
            }
            Ok(DecompressReader { inner: Inner::Inflated { data, pos: 0 } })
        } else {
            Err(Error::new(ErrorKind::UnsupportedCompression(compression)))
        }
    }

    /// Fills `buf` with the next decompressed bytes and returns how many were written: all of
    /// `buf`, or every byte left when fewer remain. When the data ends early before `buf` is
    /// full, the result is the error that ends it.
    pub fn read(&mut self, buf: &mut [u8]) -> (r: Result<usize, Error>)
        ensures
            final(buf)@.len() == old(buf)@.len(),
            ({
                let (out, failure) = old(self).remaining();
                let n = old(buf)@.len();
                if n <= out.len() {
                    r == Ok::<usize, Error>(n as usize) && final(buf)@ == out.subrange(0, n as int)
                        && final(self).remaining() == (
                        out.subrange(n as int, out.len() as int),
                        failure,
                    )
                } else {
                    match failure {
                        None => {
                            &&& r == Ok::<usize, Error>(out.len() as usize)
                            &&& final(buf)@.subrange(0, out.len() as int) == out
                            &&& final(self).remaining() == (Seq::<u8>::empty(), failure)
                        },
                        Some(k) => r == Err::<usize, Error>(err(k)),
                    }
                }
            }),
    {
        match &mut self.inner {
            Inner::Plain { data, pos } => {
                let k = copy_from(data, pos, buf);
                Ok(k)
            },
            Inner::PackBits(reader) => reader.read(buf),
            Inner::Inflated { data, pos } => match data {
                Some(v) => {
                    let k = copy_from(v, pos, buf);
                    Ok(k)
                },
                None => if buf.len() == 0 {
                    Ok(0)
                } else {
                    Err(Error::new(ErrorKind::InvalidCompressedData))
                },
            },
        }
    }
}

/// Copies the bytes of `data` from `*pos` into `buf`, as many as fit, and advances `*pos`.
fn copy_from(data: &Vec<u8>, pos: &mut usize, buf: &mut [u8]) -> (k: usize)
    ensures
        final(buf)@.len() == old(buf)@.len(),
        ({
            let out = tail_from(data@, *old(pos) as int);
            &&& k == if old(buf)@.len() <= out.len() {
                old(buf)@.len()
            } else {
                out.len()
            }
            &&& final(buf)@.subrange(0, k as int) == out.subrange(0, k as int)
            &&& (k == old(buf)@.len() ==> final(buf)@ == out.subrange(0, k as int))
            &&& tail_from(data@, *final(pos) as int) == out.subrange(k as int, out.len() as int)
        }),
{
    let n = buf.len();
    if *pos > data.len() {
        *pos = data.len();
        assert(tail_from(data@, *pos as int) =~= Seq::<u8>::empty());
    }
    let avail = data.len() - *pos;
    let k = if n <= avail {
        n
    } else {
        avail
    };
    let start = *pos;
    let dlen = data.len();
    let mut i: usize = 0;
    while i < k
        invariant
            dlen == data@.len(),
            i <= k <= n,
            n == buf@.len(),
            buf@.len() == old(buf)@.len(),
            start + k <= data@.len(),
            forall|j: int| 0 <= j < i ==> buf@[j] == data@[start + j],
        decreases k - i,
    {
        buf[i] = data[start + i];
        i = i + 1;
    }
    *pos = start + k;
    proof {
        let out = data@.subrange(start as int, data@.len() as int);
        assert(buf@.subrange(0, k as int) =~= out.subrange(0, k as int));
        if k == n {
            assert(buf@ =~= buf@.subrange(0, k as int));
        }
        assert(tail_from(data@, *pos as int) =~= out.subrange(k as int, out.len() as int));
    }
    k
}

} // verus!
