//! Streaming readers that reverse a predictor row by row.
//!
//! The reader takes whole rows from its input, decodes each in place and hands the decoded
//! bytes out as one continuous stream. Input that ends inside a row is an error when that row is
//! reached.
use vstd::prelude::*;

use crate::byteorder::{host_order, native_order};
use crate::compression::tail_from;
use crate::endian::ByteOrder;
use crate::error::{err, Error, ErrorKind};
use crate::predictor::floating::{float_undifference_row, float_undifferenced};
use crate::predictor::horizontal::{undifferenced, IntPredictor};

verus! {

/// How a row is decoded.
pub enum RowKernel {
    /// Horizontal differencing of integer samples.
    Integer(IntPredictor),
    /// The floating-point predictor, for values `bps` bytes wide written in `host` order.
    Float { host: ByteOrder, bps: usize },
}

impl RowKernel {
    /// The decoded form of `row`.
    pub open spec fn decoded(self, row: Seq<u8>) -> Seq<u8> {
        match self {
            RowKernel::Integer(p) => undifferenced(
                p.spec_byteorder(),
                p.spec_host(),
                row,
                p.spec_samples() as nat,
                p.spec_bytespersample() as nat,
            ),
            RowKernel::Float { host, bps } => float_undifferenced(host, row, bps as nat),
        }
    }

    /// True when rows of `size` bytes hold whole samples.
    pub open spec fn fits(self, size: nat) -> bool {
        match self {
            RowKernel::Integer(p) => size % (p.spec_bytespersample() as nat) == 0,
            RowKernel::Float { host, bps } => bps >= 1 && size % (bps as nat) == 0,
        }
    }

    /// Decodes `row` in place.
    fn apply(&self, row: &mut [u8])
        requires
            self.fits(old(row)@.len()),
        ensures
            final(row)@ == self.decoded(old(row)@),
    {
        match self {
            RowKernel::Integer(p) => p.decode(row),
            RowKernel::Float { host, bps } => float_undifference_row(*host, *bps, row),
        }
    }
}

/// The decoded rows of `input`, cut into rows of `size` bytes; an incomplete last row is left
/// out.
pub open spec fn decoded_rows(kernel: RowKernel, input: Seq<u8>, size: nat) -> Seq<u8>
    decreases input.len(),
{
    if size == 0 || input.len() < size {
        Seq::empty()
    } else {
        kernel.decoded(input.subrange(0, size as int)) + decoded_rows(
            kernel,
            input.subrange(size as int, input.len() as int),
            size,
        )
    }
}

/// True when `n` bytes of input end inside a row of `size` bytes.
pub open spec fn ends_inside_row(n: nat, size: nat) -> bool {
    size > 0 && n % size != 0
}

/// A reader over rows of `size` bytes that decodes each.
pub struct RowReader {
    inner: Vec<u8>,
    pos: usize,
    row: Vec<u8>,
    cursor: usize,
    kernel: RowKernel,
}

impl RowReader {
    /// The bytes still to come, and whether the input ends inside a row.
    pub closed spec fn remaining(&self) -> (Seq<u8>, bool) {
        let input = tail_from(self.inner@, self.pos as int);
        (
            tail_from(self.row@, self.cursor as int) + decoded_rows(
                self.kernel,
                input,
                self.row@.len(),
            ),
            ends_inside_row(input.len(), self.row@.len()),
        )
    }

    #[verifier::type_invariant]
    spec fn inv(&self) -> bool {
        &&& self.pos <= self.inner@.len()
        &&& self.cursor <= self.row@.len()
        &&& self.kernel.fits(self.row@.len())
    }

    /// A reader over `inner` with rows of `size` bytes, none read yet.
    fn new(inner: Vec<u8>, size: usize, kernel: RowKernel) -> (r: Self)
        requires
            kernel.fits(size as nat),
        ensures
            r.remaining() == (
                decoded_rows(kernel, inner@, size as nat),
                ends_inside_row(inner@.len(), size as nat),
            ),
    {
        let row = vec![0u8; size];
        let r = RowReader { inner, pos: 0, row, cursor: size, kernel };
        proof {
            assert(tail_from(r.row@, size as int) =~= Seq::<u8>::empty());
            assert(tail_from(inner@, 0) =~= inner@);
            assert(Seq::<u8>::empty() + decoded_rows(kernel, inner@, size as nat) =~= decoded_rows(
                kernel,
                inner@,
                size as nat,
            ));
        }
        r
    }

    /// Takes the next row from the input and decodes it.
    fn load_row(&mut self)
        requires
            old(self).cursor == old(self).row@.len(),
            old(self).row@.len() > 0,
            old(self).pos + old(self).row@.len() <= old(self).inner@.len(),
        ensures
            final(self).remaining() == old(self).remaining(),
            final(self).cursor == 0,
            final(self).pos == old(self).pos + old(self).row@.len(),
            final(self).row@.len() == old(self).row@.len(),
            final(self).inner@ == old(self).inner@,
    {
        proof {
            use_type_invariant(&*self);
        }
        let ghost input = tail_from(self.inner@, self.pos as int);
        let size = self.row.len();
        let start = self.pos;
        let ilen = self.inner.len();
        let mut row: Vec<u8> = Vec::new();
        let mut i: usize = 0;
        while i < size
            invariant
                ilen == self.inner@.len(),
                start + size <= self.inner@.len(),
                i <= size,
                row@.len() == i,
                forall|k: int| 0 <= k < i ==> row@[k] == self.inner@[start + k],
            decreases size - i,
        {
            row.push(self.inner[start + i]);
            i = i + 1;
        }
        proof {
            assert(row@ =~= input.subrange(0, size as int));
        }
        self.kernel.apply(row.as_mut_slice());
        self.pos = start + size;
        self.row = row;
        self.cursor = 0;
        proof {
            let rest = tail_from(self.inner@, self.pos as int);
            assert(rest =~= input.subrange(size as int, input.len() as int));
            assert(tail_from(self.row@, 0) =~= self.row@);
            let n = input.len() as int;
            let s = size as int;
            vstd::arithmetic::div_mod::lemma_fundamental_div_mod(n - s, s);
            vstd::arithmetic::div_mod::lemma_mod_bound(n - s, s);
            assert(n == s * ((n - s) / s + 1) + (n - s) % s) by (nonlinear_arith)
                requires
                    n - s == s * ((n - s) / s) + (n - s) % s,
            ;
            vstd::arithmetic::div_mod::lemma_fundamental_div_mod_converse(
                n,
                s,
                (n - s) / s + 1,
                (n - s) % s,
            );
            assert(tail_from(old(self).row@, old(self).cursor as int) =~= Seq::<u8>::empty());
            assert(Seq::<u8>::empty() + decoded_rows(self.kernel, input, size as nat) =~= self.row@
                + decoded_rows(self.kernel, rest, size as nat));
        }
    }

    /// Fills `buf` with the next decoded bytes and returns how many were written: all of `buf`,
    /// or every byte left when fewer remain. When the input ends inside a row before `buf` is
    /// full, the result is an error.
    pub fn read(&mut self, buf: &mut [u8]) -> (r: Result<usize, Error>)
        ensures
            final(buf)@.len() == old(buf)@.len(),
            ({
                let (out, failed) = old(self).remaining();
                let n = old(buf)@.len();
                if n <= out.len() {
                    r == Ok::<usize, Error>(n as usize) && final(buf)@ == out.subrange(0, n as int)
                        && final(self).remaining() == (
                        out.subrange(n as int, out.len() as int),
                        failed,
                    )
                } else if !failed {
                    &&& r == Ok::<usize, Error>(out.len() as usize)
                    &&& final(buf)@.subrange(0, out.len() as int) == out
                    &&& final(self).remaining() == (Seq::<u8>::empty(), false)
                } else {
                    r == Err::<usize, Error>(err(ErrorKind::UnexpectedEof))
                }
            }),
    {
        let ghost out = self.remaining().0;
        let ghost failed = self.remaining().1;
        let n = buf.len();
        let mut start: usize = 0;
        while start < n
            invariant
                n == buf@.len(),
                buf@.len() == old(buf)@.len(),
                start <= n,
                start <= out.len(),
                buf@.subrange(0, start as int) == out.subrange(0, start as int),
                self.remaining() == (out.subrange(start as int, out.len() as int), failed),
                old(self).remaining() == (out, failed),
            decreases (self.inner@.len() - self.pos) * 2 + (self.row@.len() - self.cursor) + (n
                - start),
        {
            proof {
                use_type_invariant(&*self);
            }
            let ghost rest = out.subrange(start as int, out.len() as int);
            let ghost input = tail_from(self.inner@, self.pos as int);
            if self.cursor < self.row.len() {
                let ghost before = buf@;
                let ghost c0 = self.cursor;
                let k = copy_into(&self.row, self.cursor, buf, start);
                self.cursor = self.cursor + k;
                proof {
                    let head = tail_from(self.row@, c0 as int);
                    assert(rest == head + decoded_rows(self.kernel, input, self.row@.len()));
                    assert(buf@.subrange(0, start + k) =~= out.subrange(0, start + k)) by {
                        assert forall|i: int| 0 <= i < start + k implies buf@[i] == out[i] by {
                            if i < start {
                                assert(before.subrange(0, start as int)[i] == out.subrange(
                                    0,
                                    start as int,
                                )[i]);
                            } else {
                                assert(buf@.subrange(start as int, start + k)[i - start]
                                    == head.subrange(0, k as int)[i - start]);
                                assert(rest[i - start] == out[i]);
                            }
                        }
                    }
                    assert(out.subrange(start + k, out.len() as int) =~= rest.subrange(
                        k as int,
                        rest.len() as int,
                    ));
                    assert(rest.subrange(k as int, rest.len() as int) =~= tail_from(
                        self.row@,
                        self.cursor as int,
                    ) + decoded_rows(self.kernel, input, self.row@.len()));
                }
                start = start + k;
            } else if self.row.len() == 0 || self.pos == self.inner.len() {
                proof {
                    assert(tail_from(self.row@, self.cursor as int) =~= Seq::<u8>::empty());
                    assert(input.len() == 0 || self.row@.len() == 0);
                    if self.row@.len() > 0 {
                        vstd::arithmetic::div_mod::lemma_small_mod(0, self.row@.len());
                    }
                    assert(!failed);
                    assert(rest =~= Seq::<u8>::empty());
                    assert(out.len() == start);
                    assert(out.subrange(0, start as int) =~= out);
                }
                return Ok(start);
            } else if self.inner.len() - self.pos < self.row.len() {
                proof {
                    assert(tail_from(self.row@, self.cursor as int) =~= Seq::<u8>::empty());
                    assert(rest =~= Seq::<u8>::empty());
                    vstd::arithmetic::div_mod::lemma_small_mod(
                        input.len(),
                        self.row@.len(),
                    );
                }
                return Err(Error::new(ErrorKind::UnexpectedEof));
            } else {
                self.load_row();
            }
        }
        proof {
            assert(buf@ =~= buf@.subrange(0, n as int));
        }
        Ok(start)
    }

    /// Fills all of `buf` with the next decoded bytes; an error when fewer remain.
    pub fn read_exact(&mut self, buf: &mut [u8]) -> (r: Result<(), Error>)
        ensures
            final(buf)@.len() == old(buf)@.len(),
            ({
                let (out, failed) = old(self).remaining();
                let n = old(buf)@.len();
                if n <= out.len() {
                    r is Ok && final(buf)@ == out.subrange(0, n as int) && final(self).remaining()
                        == (out.subrange(n as int, out.len() as int), failed)
                } else {
                    r == Err::<(), Error>(err(ErrorKind::UnexpectedEof))
                }
            }),
    {
        let n = buf.len();
        match self.read(buf) {
            Ok(k) => if k == n {
                Ok(())
            } else {
                Err(Error::new(ErrorKind::UnexpectedEof))
            },
            Err(e) => Err(e),
        }
    }
}

/// Copies the bytes of `data` from `pos` into `buf` from `start`, as many as fit, and returns
/// how many were copied.
fn copy_into(data: &Vec<u8>, pos: usize, buf: &mut [u8], start: usize) -> (k: usize)
    requires
        pos < data@.len(),
        start < old(buf)@.len(),
    ensures
        final(buf)@.len() == old(buf)@.len(),
        forall|i: int| 0 <= i < start ==> final(buf)@[i] == old(buf)@[i],
        ({
            let out = tail_from(data@, pos as int);
            &&& k >= 1
            &&& k == if old(buf)@.len() - start <= out.len() {
                old(buf)@.len() - start
            } else {
                out.len() as int
            }
            &&& final(buf)@.subrange(start as int, start + k) == out.subrange(0, k as int)
            &&& pos + k <= data@.len()
            &&& tail_from(data@, pos + k) == out.subrange(k as int, out.len() as int)
        }),
{
    let n = buf.len();
    let avail = data.len() - pos;
    let room = n - start;
    let k = if room <= avail {
        room
    } else {
        avail
    };
    let from = pos;
    let dlen = data.len();
    let mut i: usize = 0;
    while i < k
        invariant
            dlen == data@.len(),
            i <= k,
            start + k <= n,
            n == buf@.len(),
            buf@.len() == old(buf)@.len(),
            from + k <= data@.len(),
            forall|j: int| 0 <= j < start ==> buf@[j] == old(buf)@[j],
            forall|j: int| start <= j < start + i ==> buf@[j] == data@[from + j - start],
        decreases k - i,
    {
        buf[start + i] = data[from + i];
        i = i + 1;
    }
    proof {
        let out = data@.subrange(from as int, data@.len() as int);
        assert(buf@.subrange(start as int, start + k) =~= out.subrange(0, k as int));
        assert(tail_from(data@, from + k) =~= out.subrange(k as int, out.len() as int));
    }
    k
}

/// Decode data by rows using the inverse of the integer predictor: each row is read in the
/// byte order of the file, accumulated per channel, and handed out in the byte order of the
/// machine.
pub struct IntPredictorReader {
    rows: RowReader,
}

/// The integer predictor reader under its other name.
pub type IntegerPredictorReader = IntPredictorReader;

/// The size in bytes of a row: columns times samples times bytes per sample.
pub open spec fn row_size(ncols: u32, samples: u16, bytespersample: u16) -> nat {
    (ncols * samples * bytespersample) as nat
}

/// Computes the size of a row, if it fits in memory.
fn row_size_of(ncols: u32, samples: u16, bytespersample: u16) -> (r: Option<usize>)
    ensures
        match r {
            Some(n) => n == row_size(ncols, samples, bytespersample),
            None => row_size(ncols, samples, bytespersample) > usize::MAX,
        },
{
    assert(ncols * samples <= 0xffff_ffff * 0xffff) by (nonlinear_arith)
        requires
            ncols <= 0xffff_ffff,
            samples <= 0xffff,
    ;
    let a = ncols as u128 * samples as u128;
    assert(a * bytespersample <= 0xffff_ffff * 0xffff * 0xffff) by (nonlinear_arith)
        requires
            a == ncols * samples,
            ncols <= 0xffff_ffff,
            samples <= 0xffff,
            bytespersample <= 0xffff,
    ;
    let size = a * bytespersample as u128;
    if size > usize::MAX as u128 {
        None
    } else {
        Some(size as usize)
    }
}

impl IntPredictorReader {
    /// The bytes still to come, and whether the input ends inside a row.
    pub closed spec fn remaining(&self) -> (Seq<u8>, bool) {
        self.rows.remaining()
    }

    /// Creates a new reader over the undecoded bytes `inner`, whose rows hold `ncols` pixels of
    /// `samples` samples of `bytespersample` bytes, stored in `byteorder`. Refused when the
    /// predictor cannot handle the samples, or when a row does not fit in memory.
    pub fn new(inner: Vec<u8>, byteorder: ByteOrder, ncols: u32, samples: u16, bytespersample: u16) -> (r: Result<Self, Error>)
        ensures
            match r {
                Ok(reader) => crate::predictor::horizontal::supported(samples, bytespersample)
                    && row_size(ncols, samples, bytespersample) <= usize::MAX
                    && reader.remaining() == (
                    decoded_rows(
                        RowKernel::Integer(
                            IntPredictor::spec_new(byteorder, host_order(), samples, bytespersample),
                        ),
                        inner@,
                        row_size(ncols, samples, bytespersample),
                    ),
                    ends_inside_row(inner@.len(), row_size(ncols, samples, bytespersample)),
                ),
                Err(e) => if !crate::predictor::horizontal::supported(samples, bytespersample) {
                    e == err(
                        ErrorKind::UnsupportedPredictor { samples, bytes_per_sample: bytespersample },
                    )
                } else {
                    row_size(ncols, samples, bytespersample) > usize::MAX && e == err(
                        ErrorKind::Overflow,
                    )
                },
            },
    {
        let predictor = IntPredictor::new(byteorder, samples, bytespersample)?;
        let size = match row_size_of(ncols, samples, bytespersample) {
            Some(size) => size,
            None => return Err(Error::new(ErrorKind::Overflow)),
        };
        proof {
            assert((size as nat) % (bytespersample as nat) == 0) by {
                vstd::arithmetic::div_mod::lemma_mod_multiples_basic(
                    (ncols * samples) as int,
                    bytespersample as int,
                );
            }
        }
        Ok(IntPredictorReader { rows: RowReader::new(inner, size, RowKernel::Integer(predictor)) })
    }

    /// Fills `buf` with the next decoded bytes and returns how many were written: all of `buf`,
    /// or every byte left when fewer remain; an error when the input ends inside a row before.
    pub fn read(&mut self, buf: &mut [u8]) -> (r: Result<usize, Error>)
        ensures
            final(buf)@.len() == old(buf)@.len(),
            ({
                let (out, failed) = old(self).remaining();
                let n = old(buf)@.len();
                if n <= out.len() {
                    r == Ok::<usize, Error>(n as usize) && final(buf)@ == out.subrange(0, n as int)
                        && final(self).remaining() == (
                        out.subrange(n as int, out.len() as int),
                        failed,
                    )
                } else if !failed {
                    &&& r == Ok::<usize, Error>(out.len() as usize)
                    &&& final(buf)@.subrange(0, out.len() as int) == out
                    &&& final(self).remaining() == (Seq::<u8>::empty(), false)
                } else {
                    r == Err::<usize, Error>(err(ErrorKind::UnexpectedEof))
                }
            }),
    {
        self.rows.read(buf)
    }

    /// Fills all of `buf` with the next decoded bytes; an error when fewer remain.
    pub fn read_exact(&mut self, buf: &mut [u8]) -> (r: Result<(), Error>)
        ensures
            final(buf)@.len() == old(buf)@.len(),
            ({
                let (out, failed) = old(self).remaining();
                let n = old(buf)@.len();
                if n <= out.len() {
                    r is Ok && final(buf)@ == out.subrange(0, n as int) && final(self).remaining()
                        == (out.subrange(n as int, out.len() as int), failed)
                } else {
                    r == Err::<(), Error>(err(ErrorKind::UnexpectedEof))
                }
            }),
    {
        self.rows.read_exact(buf)
    }
}

/// Decode data by rows using the inverse of floating point predictor.
pub struct FloatPredictorReader {
    rows: RowReader,
}

impl FloatPredictorReader {
    /// The bytes still to come, and whether the input ends inside a row.
    pub closed spec fn remaining(&self) -> (Seq<u8>, bool) {
        self.rows.remaining()
    }

    /// Creates a new reader over the undecoded bytes `inner`, whose rows hold `ncols` pixels of
    /// `samples` floating-point samples of `bytespersample` bytes.
    pub fn new(inner: Vec<u8>, ncols: u32, samples: u16, bytespersample: u16) -> (r: Self)
        requires
            bytespersample >= 1,
            row_size(ncols, samples, bytespersample) <= usize::MAX,
        ensures
            r.remaining() == (
                decoded_rows(
                    RowKernel::Float { host: host_order(), bps: bytespersample as usize },
                    inner@,
                    row_size(ncols, samples, bytespersample),
                ),
                ends_inside_row(inner@.len(), row_size(ncols, samples, bytespersample)),
            ),
    {
        let size = match row_size_of(ncols, samples, bytespersample) {
            Some(size) => size,
            None => 0,
        };
        proof {
            assert((size as nat) % (bytespersample as nat) == 0) by {
                vstd::arithmetic::div_mod::lemma_mod_multiples_basic(
                    (ncols * samples) as int,
                    bytespersample as int,
                );
            }
        }
        let kernel = RowKernel::Float { host: native_order(), bps: bytespersample as usize };
        FloatPredictorReader { rows: RowReader::new(inner, size, kernel) }
    }

    /// Fills `buf` with the next decoded bytes and returns how many were written: all of `buf`,
    /// or every byte left when fewer remain; an error when the input ends inside a row before.
    pub fn read(&mut self, buf: &mut [u8]) -> (r: Result<usize, Error>)
        ensures
            final(buf)@.len() == old(buf)@.len(),
            ({
                let (out, failed) = old(self).remaining();
                let n = old(buf)@.len();
                if n <= out.len() {
                    r == Ok::<usize, Error>(n as usize) && final(buf)@ == out.subrange(0, n as int)
                        && final(self).remaining() == (
                        out.subrange(n as int, out.len() as int),
                        failed,
                    )
                } else if !failed {
                    &&& r == Ok::<usize, Error>(out.len() as usize)
                    &&& final(buf)@.subrange(0, out.len() as int) == out
                    &&& final(self).remaining() == (Seq::<u8>::empty(), false)
                } else {
                    r == Err::<usize, Error>(err(ErrorKind::UnexpectedEof))
                }
            }),
    {
        self.rows.read(buf)
    }

    /// Fills all of `buf` with the next decoded bytes; an error when fewer remain.
    pub fn read_exact(&mut self, buf: &mut [u8]) -> (r: Result<(), Error>)
        ensures
            final(buf)@.len() == old(buf)@.len(),
            ({
                let (out, failed) = old(self).remaining();
                let n = old(buf)@.len();
                if n <= out.len() {
                    r is Ok && final(buf)@ == out.subrange(0, n as int) && final(self).remaining()
                        == (out.subrange(n as int, out.len() as int), failed)
                } else {
                    r == Err::<(), Error>(err(ErrorKind::UnexpectedEof))
                }
            }),
    {
        self.rows.read_exact(buf)
    }
}

} // verus!
