//! Reversal of horizontal differencing for integer samples.
//!
//! Each row holds, for every channel, the first sample followed by the differences between
//! consecutive samples of that channel. Reversal reads each sample in the byte order of the
//! file, accumulates per channel with wrapping addition, and writes the sums back in the byte
//! order of the machine.
use vstd::prelude::*;

use crate::byteorder::{
    bytes_of, lemma_bytes_of_value, lemma_pow256_mono, lemma_pow256_values, lemma_value_of_bytes,
    pow256, read_uint, value_of, write_uint,
};
use crate::byteorder::native_order;
use crate::endian::ByteOrder;
use crate::error::{err, Error, ErrorKind};

verus! {

/// Sample `j` of `row`, `bps` bytes wide, read in `order`.
pub open spec fn sample_at(order: ByteOrder, row: Seq<u8>, bps: nat, j: nat) -> nat {
    value_of(order, row.subrange((j * bps) as int, (j * bps + bps) as int))
}

/// The sum, modulo `256^bps`, of sample `j` and the samples before it in the same channel
/// (every `samples`-th sample).
pub open spec fn accumulated(order: ByteOrder, row: Seq<u8>, samples: nat, bps: nat, j: nat) -> nat
    decreases j,
{
    if j < samples || samples == 0 {
        sample_at(order, row, bps, j)
    } else {
        ((accumulated(order, row, samples, bps, (j - samples) as nat) + sample_at(
            order,
            row,
            bps,
            j,
        )) as int % (pow256(bps) as int)) as nat
    }
}

/// The row with horizontal differencing reversed: sample `j` replaced by its accumulated value,
/// written in `host` order.
pub open spec fn undifferenced(
    order: ByteOrder,
    host: ByteOrder,
    row: Seq<u8>,
    samples: nat,
    bps: nat,
) -> Seq<u8> {
    Seq::new(
        row.len(),
        |i: int|
            bytes_of(
                host,
                accumulated(order, row, samples, bps, (i / bps as int) as nat),
                bps,
            )[i % (bps as int)],
    )
}

/// A row whose samples are given by slots of `bps` bytes is, byte by byte, the sequence those
/// slots make.
proof fn lemma_slots_to_bytes(row: Seq<u8>, bps: nat, count: nat, f: spec_fn(nat) -> Seq<u8>)
    requires
        bps >= 1,
        row.len() == count * bps,
        forall|k: int| 0 <= k < count ==> #[trigger] row.subrange(k * bps, k * bps + bps) == f(k as nat),
    ensures
        row == Seq::new(row.len(), |i: int| f((i / bps as int) as nat)[i % (bps as int)]),
{
    assert forall|i: int| 0 <= i < row.len() implies row[i] == f((i / bps as int) as nat)[i % (
    bps as int)] by {
        let k = i / bps as int;
        let m = i % (bps as int);
        vstd::arithmetic::div_mod::lemma_fundamental_div_mod(i, bps as int);
        vstd::arithmetic::div_mod::lemma_mod_bound(i, bps as int);
        assert(0 <= k < count) by (nonlinear_arith)
            requires
                i == bps * k + m,
                0 <= m < bps,
                0 <= i < count * bps,
        ;
        assert(k * bps + bps <= row.len()) by (nonlinear_arith)
            requires
                k < count,
                row.len() == count * bps,
        ;
        assert(row.subrange(k * bps, k * bps + bps)[m] == row[k * bps + m]);
        assert(i == k * bps + m) by (nonlinear_arith)
            requires
                i == bps * k + m,
        ;
    }
    assert(row =~= Seq::new(row.len(), |i: int| f((i / bps as int) as nat)[i % (bps as int)]));
}

/// Reverses horizontal differencing in place on a row of samples `bps` bytes wide, stored in
/// `order`, with `samples` channels per pixel; the results are written in `host` order.
pub fn undifference_row(order: ByteOrder, host: ByteOrder, samples: usize, bps: usize, row: &mut [u8])
    requires
        samples >= 1,
        1 <= bps <= 8,
        old(row)@.len() % (bps as nat) == 0,
    ensures
        final(row)@ == undifferenced(order, host, old(row)@, samples as nat, bps as nat),
{
    let ghost orig = row@;
    let len = row.len();
    let count = len / bps;
    proof {
        lemma_pow256_values();
        lemma_pow256_mono(bps as nat, 8);
        vstd::arithmetic::div_mod::lemma_fundamental_div_mod(len as int, bps as int);
        assert(count * bps == len) by (nonlinear_arith)
            requires
                len as int == bps * count + (len as int) % (bps as int),
                (len as int) % (bps as int) == 0,
        ;
    }
    let modulus: u128 = power_of_256(bps);
    let ghost out = |k: nat| bytes_of(host, accumulated(order, orig, samples as nat, bps as nat, k), bps as nat);
    let mut j: usize = 0;
    while j < count
        invariant
            samples >= 1,
            1 <= bps <= 8,
            len == row@.len(),
            len == orig.len(),
            count * bps == len,
            modulus == pow256(bps as nat),
            pow256(bps as nat) <= pow256(8),
            pow256(8) == 0x1_0000_0000_0000_0000,
            pow256(16) == 0x1_0000_0000_0000_0000_0000_0000_0000_0000,
            j <= count,
            out == (|k: nat| bytes_of(host, accumulated(order, orig, samples as nat, bps as nat, k), bps as nat)),
            forall|k: int| 0 <= k < j ==> #[trigger] row@.subrange(k * bps, k * bps + bps) == out(k as nat),
            forall|i: int| j * bps <= i < len ==> row@[i] == orig[i],
        decreases count - j,
    {
        let ghost before = row@;
        proof {
            assert(j * bps + bps <= len) by (nonlinear_arith)
                requires
                    j < count,
                    count * bps == len,
            ;
        }
        let pos = j * bps;
        proof {
            assert(row@.subrange(pos as int, pos + bps) =~= orig.subrange(pos as int, pos + bps));
        }
        let diff = read_uint(order, row, pos, bps);
        let value: u128 = if j < samples {
            diff
        } else {
            proof {
                assert((j - samples) * bps + bps <= j * bps) by (nonlinear_arith)
                    requires
                        j >= samples,
                        samples >= 1,
                ;
            }
            let prev_pos = (j - samples) * bps;
            proof {
                assert(row@.subrange(prev_pos as int, prev_pos + bps) == out((j - samples) as nat));
                let a = accumulated(order, orig, samples as nat, bps as nat, (j - samples) as nat);
                assert(a < pow256(bps as nat)) by {
                    if j - samples < samples {
                        lemma_bytes_of_value(
                            order,
                            orig.subrange(prev_pos as int, prev_pos + bps),
                        );
                    }
                }
                lemma_value_of_bytes(host, a, bps as nat);
            }
            let prev = read_uint(host, row, prev_pos, bps);
            (prev + diff) % modulus
        };
        proof {
            lemma_bytes_of_value(order, orig.subrange(pos as int, pos + bps));
            assert(value == accumulated(order, orig, samples as nat, bps as nat, j as nat));
            assert(value < pow256(bps as nat)) by {
                if j >= samples {
                    vstd::arithmetic::div_mod::lemma_mod_bound(
                        (accumulated(order, orig, samples as nat, bps as nat, (j - samples) as nat)
                            + diff) as int,
                        modulus as int,
                    );
                }
            }
        }
        write_uint(host, value, row, pos, bps);
        proof {
            assert forall|k: int| 0 <= k < j + 1 implies #[trigger] row@.subrange(
                k * bps,
                k * bps + bps,
            ) == out(k as nat) by {
                if k < j {
                    assert(k * bps + bps <= j * bps) by (nonlinear_arith)
                        requires
                            k < j,
                            k >= 0,
                    ;
                    assert(row@.subrange(k * bps, k * bps + bps) =~= before.subrange(
                        k * bps,
                        k * bps + bps,
                    ));
                }
            }
            assert((j + 1) * bps == j * bps + bps) by (nonlinear_arith);
        }
        j = j + 1;
    }
    proof {
        lemma_slots_to_bytes(row@, bps as nat, count as nat, out);
    }
}

/// `256^n` for `n` up to 8.
fn power_of_256(n: usize) -> (r: u128)
    requires
        n <= 8,
    ensures
        r == pow256(n as nat),
    decreases n,
{
    if n == 0 {
        1
    } else {
        let p = power_of_256(n - 1);
        proof {
            lemma_pow256_values();
            lemma_pow256_mono((n - 1) as nat, 7);
            reveal_with_fuel(pow256, 9);
        }
        256 * p
    }
}

/// Decodes a row with 1 byte per sample and `N` samples per pixel.
pub fn decode_u8<const N: usize>(row: &mut [u8])
    requires
        N >= 1,
        old(row)@.len() % (N as nat) == 0,
    ensures
        final(row)@ == undifferenced(
            ByteOrder::LittleEndian,
            ByteOrder::LittleEndian,
            old(row)@,
            N as nat,
            1,
        ),
{
    undifference_row(ByteOrder::LittleEndian, ByteOrder::LittleEndian, N, 1, row);
}

/// True when rows of `samples` channels of `bps` bytes can be decoded: at least one channel, and
/// samples of 1, 2, 4 or 8 bytes.
pub open spec fn supported(samples: u16, bps: u16) -> bool {
    samples >= 1 && (bps == 1 || bps == 2 || bps == 4 || bps == 8)
}

/// Decode a single row of data in-place.
pub struct IntPredictor {
    byteorder: ByteOrder,
    host: ByteOrder,
    samples: u16,
    bytespersample: u16,
}

impl IntPredictor {
    /// The byte order of the samples in the file.
    pub closed spec fn spec_byteorder(&self) -> ByteOrder {
        self.byteorder
    }

    /// The number of samples per pixel.
    pub closed spec fn spec_samples(&self) -> u16 {
        self.samples
    }

    /// The number of bytes per sample.
    pub closed spec fn spec_bytespersample(&self) -> u16 {
        self.bytespersample
    }

    /// The byte order in which the decoded samples are written: the machine's.
    pub closed spec fn spec_host(&self) -> ByteOrder {
        self.host
    }

    /// The predictor with the given parameters.
    pub closed spec fn spec_new(byteorder: ByteOrder, host: ByteOrder, samples: u16, bytespersample: u16) -> IntPredictor {
        IntPredictor { byteorder, host, samples, bytespersample }
    }

    #[verifier::type_invariant]
    spec fn inv(&self) -> bool {
        supported(self.samples, self.bytespersample)
    }

    /// Creates a new instance of [`IntPredictor`] for samples stored in `byteorder`; refused
    /// unless there is at least one sample per pixel and samples are 1, 2, 4 or 8 bytes wide.
    pub fn new(byteorder: ByteOrder, samples: u16, bytespersample: u16) -> (r: Result<Self, Error>)
        ensures
            match r {
                Ok(p) => supported(samples, bytespersample) && p == IntPredictor::spec_new(
                    byteorder,
                    crate::byteorder::host_order(),
                    samples,
                    bytespersample,
                ) && p.spec_byteorder() == byteorder
                    && p.spec_samples() == samples && p.spec_bytespersample() == bytespersample
                    && p.spec_host() == crate::byteorder::host_order(),
                Err(e) => !supported(samples, bytespersample) && e == err(
                    ErrorKind::UnsupportedPredictor { samples, bytes_per_sample: bytespersample },
                ),
            },
    {
        if samples == 0 || !(bytespersample == 1 || bytespersample == 2 || bytespersample == 4
            || bytespersample == 8) {
            return Err(
                Error::new(
                    ErrorKind::UnsupportedPredictor { samples, bytes_per_sample: bytespersample },
                ),
            );
        }
        Ok(IntPredictor { byteorder, host: native_order(), samples, bytespersample })
    }

    /// Decode a row of data in-place: each sample is read in the byte order of the file,
    /// accumulated per channel, and written back in the byte order of the machine. The row
    /// must hold whole samples.
    pub fn decode(&self, row: &mut [u8])
        requires
            old(row)@.len() % (self.spec_bytespersample() as nat) == 0,
        ensures
            final(row)@ == undifferenced(
                self.spec_byteorder(),
                self.spec_host(),
                old(row)@,
                self.spec_samples() as nat,
                self.spec_bytespersample() as nat,
            ),
    {
        proof {
            use_type_invariant(self);
        }
        undifference_row(
            self.byteorder,
            self.host,
            self.samples as usize,
            self.bytespersample as usize,
            row,
        );
    }
}

/// With one byte per sample the byte orders play no part: the fixed-arity kernel
/// [`decode_u8`] gives, byte for byte, what [`IntPredictor::decode`] gives for any byte order.
pub proof fn one_byte_samples_ignore_byte_order(
    row: Seq<u8>,
    samples: nat,
    order: ByteOrder,
    host: ByteOrder,
)
    requires
        samples >= 1,
    ensures
        undifferenced(ByteOrder::LittleEndian, ByteOrder::LittleEndian, row, samples, 1)
            == undifferenced(order, host, row, samples, 1),
{
    assert forall|j: nat| j < row.len() implies accumulated(
        ByteOrder::LittleEndian,
        row,
        samples,
        1,
        j,
    ) == accumulated(order, row, samples, 1, j) by {
        lemma_accumulated_one_byte(row, samples, order, j);
    }
    assert forall|i: int| 0 <= i < row.len() implies #[trigger] undifferenced(
        ByteOrder::LittleEndian,
        ByteOrder::LittleEndian,
        row,
        samples,
        1,
    )[i] == undifferenced(order, host, row, samples, 1)[i] by {
        let v = accumulated(order, row, samples, 1, i as nat);
        lemma_accumulated_one_byte(row, samples, order, i as nat);
        lemma_one_byte(ByteOrder::LittleEndian, v);
        lemma_one_byte(host, v);
    }
    assert(undifferenced(ByteOrder::LittleEndian, ByteOrder::LittleEndian, row, samples, 1)
        =~= undifferenced(order, host, row, samples, 1));
}

/// A single byte is written the same way in both byte orders.
proof fn lemma_one_byte(order: ByteOrder, v: nat)
    ensures
        bytes_of(order, v, 1) == seq![(v % 256) as u8],
{
    reveal_with_fuel(crate::byteorder::be_bytes, 2);
    assert(crate::byteorder::be_bytes(v, 1) =~= seq![(v % 256) as u8]);
    assert(crate::byteorder::be_bytes(v, 1).reverse() =~= seq![(v % 256) as u8]);
}

/// With one byte per sample, samples and their sums do not depend on the byte order, and stay
/// below 256.
proof fn lemma_accumulated_one_byte(row: Seq<u8>, samples: nat, order: ByteOrder, j: nat)
    requires
        samples >= 1,
        j < row.len(),
    ensures
        accumulated(order, row, samples, 1, j) == accumulated(
            ByteOrder::LittleEndian,
            row,
            samples,
            1,
            j,
        ),
        accumulated(order, row, samples, 1, j) < 256,
    decreases j,
{
    let s = row.subrange(j as int, (j + 1) as int);
    reveal_with_fuel(crate::byteorder::be_value, 2);
    assert(s.drop_last() =~= Seq::<u8>::empty());
    assert(s.reverse() =~= s);
    assert(crate::byteorder::pow256(1) == 256) by {
        reveal_with_fuel(crate::byteorder::pow256, 2);
    }
    if j >= samples {
        lemma_accumulated_one_byte(row, samples, order, (j - samples) as nat);
    }
}

} // verus!
