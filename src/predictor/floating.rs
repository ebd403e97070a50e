//! Reversal of the floating-point predictor (Adobe Photoshop TIFF Technical Note 3).
//!
//! A row is first undone as a flat byte stream of differences, then its bytes are moved back
//! from planes (all most significant bytes first, then the next ones) to whole values in the
//! byte order of the machine.
use vstd::prelude::*;

use crate::endian::ByteOrder;

verus! {

/// Byte `i` of the running sum of `row`: the sum, modulo 256, of bytes `0..=i`.
pub open spec fn running_sum(row: Seq<u8>, i: nat) -> u8
    decreases i,
{
    if i == 0 {
        row[0]
    } else {
        ((running_sum(row, (i - 1) as nat) + row[i as int]) % 256) as u8
    }
}

/// The plane that holds byte `b` of a value `bps` bytes wide in `host` order: planes go from
/// the most significant byte to the least significant one.
pub open spec fn plane_of(host: ByteOrder, b: nat, bps: nat) -> nat {
    match host {
        ByteOrder::BigEndian => b,
        ByteOrder::LittleEndian => (bps - 1 - b) as nat,
    }
}

/// The row with the floating-point predictor reversed, values written in `host` order.
pub open spec fn float_undifferenced(host: ByteOrder, row: Seq<u8>, bps: nat) -> Seq<u8> {
    let cols = row.len() / bps;
    Seq::new(
        row.len(),
        |i: int|
            running_sum(
                row,
                plane_of(host, (i % (bps as int)) as nat, bps) * cols + (i / (bps as int)) as nat,
            ),
    )
}

/// Reverses the floating-point predictor in place on a row of values `bps` bytes wide, writing
/// them in `host` order.
pub fn float_undifference_row(host: ByteOrder, bps: usize, row: &mut [u8])
    requires
        bps >= 1,
        old(row)@.len() % (bps as nat) == 0,
    ensures
        final(row)@ == float_undifferenced(host, old(row)@, bps as nat),
{
    let ghost orig = row@;
    let len = row.len();
    // Undo the byte differencing into a buffer.
    let mut buffer: Vec<u8> = Vec::new();
    let mut i: usize = 0;
    while i < len
        invariant
            len == row@.len(),
            row@ == orig,
            i <= len,
            buffer@.len() == i,
            forall|k: int| 0 <= k < i ==> buffer@[k] == running_sum(orig, k as nat),
        decreases len - i,
    {
        let b = if i == 0 {
            row[0]
        } else {
            ((buffer[i - 1] as u16 + row[i] as u16) % 256) as u8
        };
        buffer.push(b);
        i = i + 1;
    }
    // Move the bytes from planes back to values.
    let cols = len / bps;
    proof {
        vstd::arithmetic::div_mod::lemma_fundamental_div_mod(len as int, bps as int);
        assert(cols * bps == len) by (nonlinear_arith)
            requires
                len as int == bps * cols + (len as int) % (bps as int),
                (len as int) % (bps as int) == 0,
        ;
    }
    let ghost want = float_undifferenced(host, orig, bps as nat);
    let mut col: usize = 0;
    while col < cols
        invariant
            len == row@.len(),
            len == orig.len(),
            cols * bps == len,
            bps >= 1,
            col <= cols,
            buffer@.len() == len,
            forall|k: int| 0 <= k < len ==> buffer@[k] == running_sum(orig, k as nat),
            want == float_undifferenced(host, orig, bps as nat),
            forall|k: int| 0 <= k < col * bps ==> row@[k] == want[k],
        decreases cols - col,
    {
        let mut b: usize = 0;
        while b < bps
            invariant
                len == row@.len(),
                len == orig.len(),
                cols * bps == len,
                bps >= 1,
                col < cols,
                b <= bps,
                buffer@.len() == len,
                forall|k: int| 0 <= k < len ==> buffer@[k] == running_sum(orig, k as nat),
                want == float_undifferenced(host, orig, bps as nat),
                forall|k: int| 0 <= k < col * bps + b ==> row@[k] == want[k],
            decreases bps - b,
        {
            let plane = match host {
                ByteOrder::BigEndian => b,
                ByteOrder::LittleEndian => bps - b - 1,
            };
            proof {
                assert(plane * cols + col < len) by (nonlinear_arith)
                    requires
                        plane < bps,
                        col < cols,
                        cols * bps == len,
                ;
                assert(col * bps + b < len) by (nonlinear_arith)
                    requires
                        b < bps,
                        col < cols,
                        cols * bps == len,
                ;
                let i = col * bps + b;
                vstd::arithmetic::div_mod::lemma_fundamental_div_mod_converse(
                    i as int,
                    bps as int,
                    col as int,
                    b as int,
                );
                assert(len as int / bps as int == cols) by {
                    vstd::arithmetic::div_mod::lemma_fundamental_div_mod_converse(
                        len as int,
                        bps as int,
                        cols as int,
                        0,
                    );
                }
            }
            let index = col * bps + b;
            row[index] = buffer[plane * cols + col];
            b = b + 1;
        }
        proof {
            assert((col + 1) * bps == col * bps + bps) by (nonlinear_arith);
        }
        col = col + 1;
    }
    assert(row@ =~= want);
}

} // verus!
