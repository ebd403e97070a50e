//! Reading and writing unsigned and signed integers in a chosen byte order.
//!
//! Every operation is stated over the bytes it reads or writes: [`be_value`] is the number that
//! a sequence of bytes denotes when the first byte is the most significant one, and
//! [`be_bytes`] is the inverse. Little-endian forms are the same with the bytes reversed.
use vstd::prelude::*;

use crate::endian::ByteOrder as Order;

verus! {

/// `256` raised to the power `n`.
pub open spec fn pow256(n: nat) -> nat
    decreases n,
{
    if n == 0 {
        1
    } else {
        256 * pow256((n - 1) as nat)
    }
}

/// The number denoted by `s`, most significant byte first.
pub open spec fn be_value(s: Seq<u8>) -> nat
    decreases s.len(),
{
    if s.len() == 0 {
        0
    } else {
        (be_value(s.drop_last()) * 256 + s.last()) as nat
    }
}

/// The `n` bytes of `v` (taken modulo `256^n`), most significant byte first.
pub open spec fn be_bytes(v: nat, n: nat) -> Seq<u8>
    decreases n,
{
    if n == 0 {
        Seq::empty()
    } else {
        be_bytes(v / 256, (n - 1) as nat).push((v % 256) as u8)
    }
}

/// The number denoted by `s`, least significant byte first.
pub open spec fn le_value(s: Seq<u8>) -> nat {
    be_value(s.reverse())
}

/// The `n` bytes of `v`, least significant byte first.
pub open spec fn le_bytes(v: nat, n: nat) -> Seq<u8> {
    be_bytes(v, n).reverse()
}

/// The number that the bytes `s` denote in the byte order `order`.
pub open spec fn value_of(order: Order, s: Seq<u8>) -> nat {
    match order {
        Order::BigEndian => be_value(s),
        Order::LittleEndian => le_value(s),
    }
}

/// The `n` bytes that represent `v` in the byte order `order`.
pub open spec fn bytes_of(order: Order, v: nat, n: nat) -> Seq<u8> {
    match order {
        Order::BigEndian => be_bytes(v, n),
        Order::LittleEndian => le_bytes(v, n),
    }
}

/// The byte order of the machine that runs the program.
pub open spec fn host_order() -> Order {
    match vstd::endian::endianness() {
        vstd::endian::Endian::Little => Order::LittleEndian,
        vstd::endian::Endian::Big => Order::BigEndian,
    }
}

/// The `n`-byte value `v` with the order of its bytes reversed.
pub open spec fn swapped(v: nat, n: nat) -> nat {
    be_value(be_bytes(v, n).reverse())
}

/// The value whose bytes, laid out in `order`, are the bytes of the host value `v`: `v` itself
/// when `order` is the host's order, else `v` with its bytes swapped.
pub open spec fn reordered(order: Order, v: nat, n: nat) -> nat {
    if order == host_order() {
        v
    } else {
        swapped(v, n)
    }
}

pub proof fn lemma_pow256_positive(n: nat)
    ensures
        pow256(n) >= 1,
    decreases n,
{
    if n > 0 {
        lemma_pow256_positive((n - 1) as nat);
    }
}

/// A sequence of `n` bytes denotes a number below `256^n`.
pub proof fn lemma_be_value_bound(s: Seq<u8>)
    ensures
        be_value(s) < pow256(s.len()),
    decreases s.len(),
{
    if s.len() > 0 {
        let t = s.drop_last();
        lemma_be_value_bound(t);
        assert(be_value(t) + 1 <= pow256(t.len()));
        assert(be_value(t) * 256 + 256 <= pow256(t.len()) * 256) by (nonlinear_arith)
            requires
                be_value(t) + 1 <= pow256(t.len()),
        ;
    }
}

pub proof fn lemma_le_value_bound(s: Seq<u8>)
    ensures
        le_value(s) < pow256(s.len()),
{
    lemma_be_value_bound(s.reverse());
}

pub proof fn lemma_reverse_reverse(s: Seq<u8>)
    ensures
        s.reverse().reverse() == s,
        s.reverse().len() == s.len(),
{
    assert(s.reverse().reverse() =~= s);
}

pub proof fn lemma_be_bytes_len(v: nat, n: nat)
    ensures
        be_bytes(v, n).len() == n,
        le_bytes(v, n).len() == n,
    decreases n,
{
    if n > 0 {
        lemma_be_bytes_len(v / 256, (n - 1) as nat);
    }
}

/// Writing a value below `256^n` in `n` bytes and reading it back gives the value.
pub proof fn lemma_be_value_of_bytes(v: nat, n: nat)
    requires
        v < pow256(n),
    ensures
        be_value(be_bytes(v, n)) == v,
    decreases n,
{
    lemma_be_bytes_len(v, n);
    if n > 0 {
        let p = pow256((n - 1) as nat);
        assert(v / 256 < p) by (nonlinear_arith)
            requires
                v < 256 * p,
        ;
        lemma_be_value_of_bytes(v / 256, (n - 1) as nat);
        let s = be_bytes(v, n);
        assert(s.drop_last() =~= be_bytes(v / 256, (n - 1) as nat));
    } else {
        assert(v == 0);
    }
}

/// Reading a sequence of bytes and writing the value back in as many bytes gives the bytes.
pub proof fn lemma_be_bytes_of_value(s: Seq<u8>)
    ensures
        be_bytes(be_value(s), s.len()) == s,
    decreases s.len(),
{
    if s.len() == 0 {
        assert(be_bytes(0, 0) =~= s);
    } else {
        let t = s.drop_last();
        let v = be_value(s);
        assert(v / 256 == be_value(t) && v % 256 == s.last()) by {
            vstd::arithmetic::div_mod::lemma_fundamental_div_mod_converse(
                v as int,
                256,
                be_value(t) as int,
                s.last() as int,
            );
        }
        lemma_be_bytes_of_value(t);
        assert(be_bytes(v, s.len()) =~= s);
    }
}

pub proof fn lemma_le_value_of_bytes(v: nat, n: nat)
    requires
        v < pow256(n),
    ensures
        le_value(le_bytes(v, n)) == v,
{
    lemma_reverse_reverse(be_bytes(v, n));
    lemma_be_value_of_bytes(v, n);
}

pub proof fn lemma_le_bytes_of_value(s: Seq<u8>)
    ensures
        le_bytes(le_value(s), s.len()) == s,
{
    lemma_reverse_reverse(s);
    lemma_be_bytes_of_value(s.reverse());
}

/// In either byte order, reading back what was written gives the value.
pub proof fn lemma_value_of_bytes(order: Order, v: nat, n: nat)
    requires
        v < pow256(n),
    ensures
        value_of(order, bytes_of(order, v, n)) == v,
        bytes_of(order, v, n).len() == n,
{
    lemma_be_bytes_len(v, n);
    lemma_be_value_of_bytes(v, n);
    lemma_le_value_of_bytes(v, n);
}

/// In either byte order, writing back what was read gives the bytes.
pub proof fn lemma_bytes_of_value(order: Order, s: Seq<u8>)
    ensures
        bytes_of(order, value_of(order, s), s.len()) == s,
        value_of(order, s) < pow256(s.len()),
{
    lemma_be_bytes_of_value(s);
    lemma_le_bytes_of_value(s);
    lemma_be_value_bound(s);
    lemma_le_value_bound(s);
}

/// Swapping the bytes of a value twice gives the value back.
pub proof fn lemma_swapped_twice(v: nat, n: nat)
    requires
        v < pow256(n),
    ensures
        swapped(swapped(v, n), n) == v,
        swapped(v, n) < pow256(n),
{
    let r = be_bytes(v, n).reverse();
    lemma_be_bytes_len(v, n);
    lemma_be_value_bound(r);
    lemma_be_bytes_of_value(r);
    lemma_reverse_reverse(be_bytes(v, n));
    lemma_be_value_of_bytes(v, n);
}

/// Reordering a value twice for the same byte order gives the value back.
pub proof fn lemma_reordered_twice(order: Order, v: nat, n: nat)
    requires
        v < pow256(n),
    ensures
        reordered(order, reordered(order, v, n), n) == v,
        reordered(order, v, n) < pow256(n),
{
    lemma_swapped_twice(v, n);
}

} // verus!

verus! {

pub proof fn lemma_pow256_mono(i: nat, j: nat)
    requires
        i <= j,
    ensures
        pow256(i) <= pow256(j),
    decreases j,
{
    if i < j {
        lemma_pow256_mono(i, (j - 1) as nat);
        lemma_pow256_positive((j - 1) as nat);
    }
}

pub proof fn lemma_pow256_values()
    ensures
        pow256(1) == 0x100,
        pow256(2) == 0x1_0000,
        pow256(4) == 0x1_0000_0000,
        pow256(8) == 0x1_0000_0000_0000_0000,
        pow256(16) == 0x1_0000_0000_0000_0000_0000_0000_0000_0000,
{
    reveal_with_fuel(pow256, 17);
}

/// The bytes `s` in the order in which their value is accumulated, most significant first.
pub open spec fn msb_first(order: Order, s: Seq<u8>) -> Seq<u8> {
    match order {
        Order::BigEndian => s,
        Order::LittleEndian => s.reverse(),
    }
}

/// Reads the `n` bytes of `src` that start at `start` as a number in `order`.
pub fn read_uint(order: Order, src: &[u8], start: usize, n: usize) -> (r: u128)
    requires
        n <= 16,
        start + n <= src@.len(),
    ensures
        r == value_of(order, src@.subrange(start as int, start + n)),
        r < pow256(n as nat),
{
    let ghost s = src@.subrange(start as int, start + n);
    let ghost m = msb_first(order, s);
    let mut acc: u128 = 0;
    let mut i: usize = 0;
    proof {
        lemma_pow256_values();
        assert(m.take(0) =~= Seq::<u8>::empty());
    }
    while i < n
        invariant
            i <= n <= 16,
            start + n <= src.len(),
            s == src@.subrange(start as int, start + n),
            m == msb_first(order, s),
            m.len() == n,
            acc == be_value(m.take(i as int)),
            acc < pow256(i as nat),
            pow256(16) == 0x1_0000_0000_0000_0000_0000_0000_0000_0000,
        decreases n - i,
    {
        let b = match order {
            Order::BigEndian => src[start + i],
            Order::LittleEndian => src[start + n - 1 - i],
        };
        proof {
            assert(b == m[i as int]);
            lemma_pow256_mono((i + 1) as nat, 16);
            assert(m.take(i + 1).drop_last() =~= m.take(i as int));
            assert(acc * 256 + b < pow256((i + 1) as nat)) by (nonlinear_arith)
                requires
                    acc < pow256(i as nat),
                    b < 256,
                    pow256((i + 1) as nat) == 256 * pow256(i as nat),
            ;
        }
        acc = acc * 256 + b as u128;
        i = i + 1;
    }
    proof {
        assert(m.take(n as int) =~= m);
        lemma_reverse_reverse(s);
    }
    acc
}

/// The `n` bytes of `v` (taken modulo `256^n`), most significant byte first.
fn be_bytes_vec(v: u128, n: usize) -> (r: Vec<u8>)
    ensures
        r@ == be_bytes(v as nat, n as nat),
    decreases n,
{
    if n == 0 {
        Vec::new()
    } else {
        let mut r = be_bytes_vec(v / 256, n - 1);
        r.push((v % 256) as u8);
        r
    }
}

/// Writes `v` as `n` bytes in `order` into `dst`, starting at `start`; the other bytes of `dst`
/// are left as they were.
pub fn write_uint(order: Order, v: u128, dst: &mut [u8], start: usize, n: usize)
    requires
        n <= 16,
        start + n <= old(dst)@.len(),
    ensures
        final(dst)@.len() == old(dst)@.len(),
        final(dst)@.subrange(start as int, start + n) == bytes_of(order, v as nat, n as nat),
        forall|k: int|
            0 <= k < old(dst)@.len() && !(start <= k < start + n) ==> final(dst)@[k] == old(dst)@[k],
{
    let bytes = be_bytes_vec(v, n);
    proof {
        lemma_be_bytes_len(v as nat, n as nat);
    }
    let ghost want = bytes_of(order, v as nat, n as nat);
    let mut i: usize = 0;
    while i < n
        invariant
            i <= n,
            start + n <= dst.len(),
            dst@.len() == old(dst)@.len(),
            bytes@ == be_bytes(v as nat, n as nat),
            bytes@.len() == n,
            want == bytes_of(order, v as nat, n as nat),
            forall|k: int| start <= k < start + i ==> dst@[k] == want[k - start],
            forall|k: int|
                0 <= k < old(dst)@.len() && !(start <= k < start + i) ==> dst@[k] == old(dst)@[k],
        decreases n - i,
    {
        let b = match order {
            Order::BigEndian => bytes[i],
            Order::LittleEndian => bytes[n - 1 - i],
        };
        dst[start + i] = b;
        i = i + 1;
    }
    assert(dst@.subrange(start as int, start + n) =~= want);
}

} // verus!

verus! {

/// Relies on `u16::from_ne_bytes`: the two bytes are read in the byte order of the machine.
#[verifier::external_body]
fn u16_from_host_bytes(bytes: [u8; 2]) -> (r: u16)
    ensures
        r == value_of(host_order(), bytes@),
{
    u16::from_ne_bytes(bytes)
}

/// The byte order of the machine that runs the program.
pub fn native_order() -> (r: Order)
    ensures
        r == host_order(),
{
    let probe = u16_from_host_bytes([1u8, 0u8]);
    proof {
        let s = seq![1u8, 0u8];
        reveal_with_fuel(be_value, 3);
        assert(s.drop_last() =~= seq![1u8]);
        assert(seq![1u8].drop_last() =~= Seq::<u8>::empty());
        assert(be_value(s) == 256);
        assert(s.reverse() =~= seq![0u8, 1u8]);
        assert(seq![0u8, 1u8].drop_last() =~= seq![0u8]);
        assert(seq![0u8].drop_last() =~= Seq::<u8>::empty());
        assert(le_value(s) == 1);
    }
    if probe == 1 {
        Order::LittleEndian
    } else {
        Order::BigEndian
    }
}

/// Reorders the `n` low bytes of `v` between the host's order and `order`.
pub fn reorder_uint(order: Order, v: u128, n: usize) -> (r: u128)
    requires
        n <= 16,
        v < pow256(n as nat),
    ensures
        r == reordered(order, v as nat, n as nat),
{
    if native_order() == order {
        v
    } else {
        let bytes = be_bytes_vec(v, n);
        proof {
            lemma_be_bytes_len(v as nat, n as nat);
            assert(bytes@.subrange(0, n as int) =~= bytes@);
        }
        read_uint(Order::LittleEndian, bytes.as_slice(), 0, n)
    }
}

/// A byte order, with operations that decode, encode, read and write integers in it.
///
/// `decode` turns a host value whose bytes were laid out in this order into the value they
/// denote, `encode` is its inverse, `read` takes a value from the first bytes of a slice and
/// `write` puts one there. The slice forms act element by element.
pub trait ByteOrder {
    /// The byte order that this type stands for.
    spec fn order() -> Order;

    /// The byte order that this type stands for, as a value.
    fn byte_order() -> (r: Order)
        ensures
            r == Self::order(),
    ;

    /// Converts a `u16` whose bytes were laid out in this order into a host value.
    fn decode_u16(value: u16) -> (r: u16)
        ensures
            r == reordered(Self::order(), value as nat, 2),
    ;

    /// Converts a host `u16` into a value whose bytes are laid out in this order.
    fn encode_u16(value: u16) -> (r: u16)
        ensures
            r == reordered(Self::order(), value as nat, 2),
    ;

    /// Reads a `u16` from the first 2 bytes of `src`.
    fn read_u16(src: &[u8]) -> (r: u16)
        requires
            src@.len() >= 2,
        ensures
            r == value_of(Self::order(), src@.subrange(0, 2)),
    ;

    /// Writes `value` into the first 2 bytes of `dst`.
    fn write_u16(value: u16, dst: &mut [u8])
        requires
            old(dst)@.len() >= 2,
        ensures
            final(dst)@.len() == old(dst)@.len(),
            final(dst)@.subrange(0, 2) == bytes_of(Self::order(), value as nat, 2),
            final(dst)@.subrange(2, old(dst)@.len() as int) == old(dst)@.subrange(2, old(dst)@.len() as int),
    ;

    /// Converts an `i16` whose bytes were laid out in this order into a host value.
    fn decode_i16(value: i16) -> (r: i16)
        ensures
            r == reordered(Self::order(), value as u16 as nat, 2) as i16,
    {
        Self::decode_u16(#[verifier::truncate] (value as u16)) as i16
    }

    /// Converts a host `i16` into a value whose bytes are laid out in this order.
    fn encode_i16(value: i16) -> (r: i16)
        ensures
            r == reordered(Self::order(), value as u16 as nat, 2) as i16,
    {
        Self::encode_u16(#[verifier::truncate] (value as u16)) as i16
    }

    /// Reads an `i16` from the first 2 bytes of `src`.
    fn read_i16(src: &[u8]) -> (r: i16)
        requires
            src@.len() >= 2,
        ensures
            r == value_of(Self::order(), src@.subrange(0, 2)) as i16,
    {
        #[verifier::truncate] (Self::read_u16(src) as i16)
    }

    /// Writes `value` into the first 2 bytes of `dst`.
    fn write_i16(value: i16, dst: &mut [u8])
        requires
            old(dst)@.len() >= 2,
        ensures
            final(dst)@.len() == old(dst)@.len(),
            final(dst)@.subrange(0, 2) == bytes_of(Self::order(), value as u16 as nat, 2),
            final(dst)@.subrange(2, old(dst)@.len() as int) == old(dst)@.subrange(2, old(dst)@.len() as int),
    {
        Self::write_u16(#[verifier::truncate] (value as u16), dst)
    }

    /// Applies `decode_u16` to every element of `values`, in place.
    fn decode_slice_u16(values: &mut [u16])
        ensures
            final(values)@.len() == old(values)@.len(),
            forall|i: int|
                0 <= i < old(values)@.len() ==> final(values)@[i] == reordered(
                    Self::order(),
                    old(values)@[i] as nat,
                    2,
                ),
    {
        let mut i: usize = 0;
        while i < values.len()
            invariant
                i <= values@.len(),
                values@.len() == old(values)@.len(),
                forall|k: int|
                    0 <= k < i ==> values@[k] == reordered(Self::order(), old(values)@[k] as nat, 2),
                forall|k: int| i <= k < values@.len() ==> values@[k] == old(values)@[k],
            decreases values@.len() - i,
        {
            let v = Self::decode_u16(values[i]);
            values[i] = v;
            i = i + 1;
        }
    }

    /// Applies `encode_u16` to every element of `values`, in place.
    fn encode_slice_u16(values: &mut [u16])
        ensures
            final(values)@.len() == old(values)@.len(),
            forall|i: int|
                0 <= i < old(values)@.len() ==> final(values)@[i] == reordered(
                    Self::order(),
                    old(values)@[i] as nat,
                    2,
                ),
    {
        let mut i: usize = 0;
        while i < values.len()
            invariant
                i <= values@.len(),
                values@.len() == old(values)@.len(),
                forall|k: int|
                    0 <= k < i ==> values@[k] == reordered(Self::order(), old(values)@[k] as nat, 2),
                forall|k: int| i <= k < values@.len() ==> values@[k] == old(values)@[k],
            decreases values@.len() - i,
        {
            let v = Self::encode_u16(values[i]);
            values[i] = v;
            i = i + 1;
        }
    }

    /// Reads `dst.len()` values of 2 bytes each from `src`, which must hold exactly that
    /// many bytes.
    fn read_slice_u16(src: &[u8], dst: &mut [u16])
        requires
            src@.len() == old(dst)@.len() * 2,
        ensures
            final(dst)@.len() == old(dst)@.len(),
            forall|i: int|
                0 <= i < old(dst)@.len() ==> final(dst)@[i] == value_of(
                    Self::order(),
                    #[trigger] src@.subrange(2 * i, 2 * i + 2),
                ),
    {
        let order = Self::byte_order();
        proof {
            lemma_pow256_values();
        }
        let mut i: usize = 0;
        while i < dst.len()
            invariant
                i <= dst@.len(),
                dst@.len() == old(dst)@.len(),
                src@.len() == dst@.len() * 2,
                src@.len() == src.len(),
                order == Self::order(),
                pow256(2) <= pow256(16),
                forall|k: int|
                    0 <= k < i ==> dst@[k] == value_of(
                        Self::order(),
                        #[trigger] src@.subrange(2 * k, 2 * k + 2),
                    ),
            decreases dst@.len() - i,
        {
            proof {
                lemma_pow256_values();
                assert(2 * i + 2 <= src@.len()) by (nonlinear_arith)
                    requires
                        i < dst@.len(),
                        src@.len() == dst@.len() * 2,
                ;
            }
            let v = read_uint(order, src, 2 * i, 2);
            dst[i] = v as u16;
            i = i + 1;
        }
    }

    /// Writes the values of `src`, 2 bytes each, into `dst`, which must hold exactly that many
    /// bytes.
    fn write_slice_u16(src: &[u16], dst: &mut [u8])
        requires
            src@.len() * 2 == old(dst)@.len(),
        ensures
            final(dst)@.len() == old(dst)@.len(),
            forall|i: int|
                0 <= i < src@.len() ==> #[trigger] final(dst)@.subrange(2 * i, 2 * i + 2) == bytes_of(
                    Self::order(),
                    src@[i] as nat,
                    2,
                ),
    {
        let order = Self::byte_order();
        let mut i: usize = 0;
        while i < src.len()
            invariant
                i <= src@.len(),
                dst@.len() == old(dst)@.len(),
                src@.len() * 2 == dst@.len(),
                dst@.len() == dst.len(),
                order == Self::order(),
                forall|k: int|
                    0 <= k < i ==> #[trigger] dst@.subrange(2 * k, 2 * k + 2) == bytes_of(
                        Self::order(),
                        src@[k] as nat,
                        2,
                    ),
            decreases src@.len() - i,
        {
            proof {
                assert(2 * i + 2 <= dst@.len()) by (nonlinear_arith)
                    requires
                        i < src@.len(),
                        src@.len() * 2 == dst@.len(),
                ;
            }
            let ghost before = dst@;
            write_uint(order, src[i] as u128, dst, 2 * i, 2);
            proof {
                assert forall|k: int| 0 <= k < i implies #[trigger] dst@.subrange(2 * k, 2 * k + 2)
                    == bytes_of(Self::order(), src@[k] as nat, 2) by {
                    assert(2 * k + 2 <= 2 * i) by (nonlinear_arith)
                        requires
                            k < i,
                    ;
                    assert(dst@.subrange(2 * k, 2 * k + 2) =~= before.subrange(2 * k, 2 * k + 2));
                }
            }
            i = i + 1;
        }
    }

    /// Converts a `u32` whose bytes were laid out in this order into a host value.
    fn decode_u32(value: u32) -> (r: u32)
        ensures
            r == reordered(Self::order(), value as nat, 4),
    ;

    /// Converts a host `u32` into a value whose bytes are laid out in this order.
    fn encode_u32(value: u32) -> (r: u32)
        ensures
            r == reordered(Self::order(), value as nat, 4),
    ;

    /// Reads a `u32` from the first 4 bytes of `src`.
    fn read_u32(src: &[u8]) -> (r: u32)
        requires
            src@.len() >= 4,
        ensures
            r == value_of(Self::order(), src@.subrange(0, 4)),
    ;

    /// Writes `value` into the first 4 bytes of `dst`.
    fn write_u32(value: u32, dst: &mut [u8])
        requires
            old(dst)@.len() >= 4,
        ensures
            final(dst)@.len() == old(dst)@.len(),
            final(dst)@.subrange(0, 4) == bytes_of(Self::order(), value as nat, 4),
            final(dst)@.subrange(4, old(dst)@.len() as int) == old(dst)@.subrange(4, old(dst)@.len() as int),
    ;

    /// Converts an `i32` whose bytes were laid out in this order into a host value.
    fn decode_i32(value: i32) -> (r: i32)
        ensures
            r == reordered(Self::order(), value as u32 as nat, 4) as i32,
    {
        Self::decode_u32(#[verifier::truncate] (value as u32)) as i32
    }

    /// Converts a host `i32` into a value whose bytes are laid out in this order.
    fn encode_i32(value: i32) -> (r: i32)
        ensures
            r == reordered(Self::order(), value as u32 as nat, 4) as i32,
    {
        Self::encode_u32(#[verifier::truncate] (value as u32)) as i32
    }

    /// Reads an `i32` from the first 4 bytes of `src`.
    fn read_i32(src: &[u8]) -> (r: i32)
        requires
            src@.len() >= 4,
        ensures
            r == value_of(Self::order(), src@.subrange(0, 4)) as i32,
    {
        #[verifier::truncate] (Self::read_u32(src) as i32)
    }

    /// Writes `value` into the first 4 bytes of `dst`.
    fn write_i32(value: i32, dst: &mut [u8])
        requires
            old(dst)@.len() >= 4,
        ensures
            final(dst)@.len() == old(dst)@.len(),
            final(dst)@.subrange(0, 4) == bytes_of(Self::order(), value as u32 as nat, 4),
            final(dst)@.subrange(4, old(dst)@.len() as int) == old(dst)@.subrange(4, old(dst)@.len() as int),
    {
        Self::write_u32(#[verifier::truncate] (value as u32), dst)
    }

    /// Applies `decode_u32` to every element of `values`, in place.
    fn decode_slice_u32(values: &mut [u32])
        ensures
            final(values)@.len() == old(values)@.len(),
            forall|i: int|
                0 <= i < old(values)@.len() ==> final(values)@[i] == reordered(
                    Self::order(),
                    old(values)@[i] as nat,
                    4,
                ),
    {
        let mut i: usize = 0;
        while i < values.len()
            invariant
                i <= values@.len(),
                values@.len() == old(values)@.len(),
                forall|k: int|
                    0 <= k < i ==> values@[k] == reordered(Self::order(), old(values)@[k] as nat, 4),
                forall|k: int| i <= k < values@.len() ==> values@[k] == old(values)@[k],
            decreases values@.len() - i,
        {
            let v = Self::decode_u32(values[i]);
            values[i] = v;
            i = i + 1;
        }
    }

    /// Applies `encode_u32` to every element of `values`, in place.
    fn encode_slice_u32(values: &mut [u32])
        ensures
            final(values)@.len() == old(values)@.len(),
            forall|i: int|
                0 <= i < old(values)@.len() ==> final(values)@[i] == reordered(
                    Self::order(),
                    old(values)@[i] as nat,
                    4,
                ),
    {
        let mut i: usize = 0;
        while i < values.len()
            invariant
                i <= values@.len(),
                values@.len() == old(values)@.len(),
                forall|k: int|
                    0 <= k < i ==> values@[k] == reordered(Self::order(), old(values)@[k] as nat, 4),
                forall|k: int| i <= k < values@.len() ==> values@[k] == old(values)@[k],
            decreases values@.len() - i,
        {
            let v = Self::encode_u32(values[i]);
            values[i] = v;
            i = i + 1;
        }
    }

    /// Reads `dst.len()` values of 4 bytes each from `src`, which must hold exactly that
    /// many bytes.
    fn read_slice_u32(src: &[u8], dst: &mut [u32])
        requires
            src@.len() == old(dst)@.len() * 4,
        ensures
            final(dst)@.len() == old(dst)@.len(),
            forall|i: int|
                0 <= i < old(dst)@.len() ==> final(dst)@[i] == value_of(
                    Self::order(),
                    #[trigger] src@.subrange(4 * i, 4 * i + 4),
                ),
    {
        let order = Self::byte_order();
        proof {
            lemma_pow256_values();
        }
        let mut i: usize = 0;
        while i < dst.len()
            invariant
                i <= dst@.len(),
                dst@.len() == old(dst)@.len(),
                src@.len() == dst@.len() * 4,
                src@.len() == src.len(),
                order == Self::order(),
                pow256(4) <= pow256(16),
                forall|k: int|
                    0 <= k < i ==> dst@[k] == value_of(
                        Self::order(),
                        #[trigger] src@.subrange(4 * k, 4 * k + 4),
                    ),
            decreases dst@.len() - i,
        {
            proof {
                lemma_pow256_values();
                assert(4 * i + 4 <= src@.len()) by (nonlinear_arith)
                    requires
                        i < dst@.len(),
                        src@.len() == dst@.len() * 4,
                ;
            }
            let v = read_uint(order, src, 4 * i, 4);
            dst[i] = v as u32;
            i = i + 1;
        }
    }

    /// Writes the values of `src`, 4 bytes each, into `dst`, which must hold exactly that many
    /// bytes.
    fn write_slice_u32(src: &[u32], dst: &mut [u8])
        requires
            src@.len() * 4 == old(dst)@.len(),
        ensures
            final(dst)@.len() == old(dst)@.len(),
            forall|i: int|
                0 <= i < src@.len() ==> #[trigger] final(dst)@.subrange(4 * i, 4 * i + 4) == bytes_of(
                    Self::order(),
                    src@[i] as nat,
                    4,
                ),
    {
        let order = Self::byte_order();
        let mut i: usize = 0;
        while i < src.len()
            invariant
                i <= src@.len(),
                dst@.len() == old(dst)@.len(),
                src@.len() * 4 == dst@.len(),
                dst@.len() == dst.len(),
                order == Self::order(),
                forall|k: int|
                    0 <= k < i ==> #[trigger] dst@.subrange(4 * k, 4 * k + 4) == bytes_of(
                        Self::order(),
                        src@[k] as nat,
                        4,
                    ),
            decreases src@.len() - i,
        {
            proof {
                assert(4 * i + 4 <= dst@.len()) by (nonlinear_arith)
                    requires
                        i < src@.len(),
                        src@.len() * 4 == dst@.len(),
                ;
            }
            let ghost before = dst@;
            write_uint(order, src[i] as u128, dst, 4 * i, 4);
            proof {
                assert forall|k: int| 0 <= k < i implies #[trigger] dst@.subrange(4 * k, 4 * k + 4)
                    == bytes_of(Self::order(), src@[k] as nat, 4) by {
                    assert(4 * k + 4 <= 4 * i) by (nonlinear_arith)
                        requires
                            k < i,
                    ;
                    assert(dst@.subrange(4 * k, 4 * k + 4) =~= before.subrange(4 * k, 4 * k + 4));
                }
            }
            i = i + 1;
        }
    }

    /// Converts a `u64` whose bytes were laid out in this order into a host value.
    fn decode_u64(value: u64) -> (r: u64)
        ensures
            r == reordered(Self::order(), value as nat, 8),
    ;

    /// Converts a host `u64` into a value whose bytes are laid out in this order.
    fn encode_u64(value: u64) -> (r: u64)
        ensures
            r == reordered(Self::order(), value as nat, 8),
    ;

    /// Reads a `u64` from the first 8 bytes of `src`.
    fn read_u64(src: &[u8]) -> (r: u64)
        requires
            src@.len() >= 8,
        ensures
            r == value_of(Self::order(), src@.subrange(0, 8)),
    ;

    /// Writes `value` into the first 8 bytes of `dst`.
    fn write_u64(value: u64, dst: &mut [u8])
        requires
            old(dst)@.len() >= 8,
        ensures
            final(dst)@.len() == old(dst)@.len(),
            final(dst)@.subrange(0, 8) == bytes_of(Self::order(), value as nat, 8),
            final(dst)@.subrange(8, old(dst)@.len() as int) == old(dst)@.subrange(8, old(dst)@.len() as int),
    ;

    /// Converts an `i64` whose bytes were laid out in this order into a host value.
    fn decode_i64(value: i64) -> (r: i64)
        ensures
            r == reordered(Self::order(), value as u64 as nat, 8) as i64,
    {
        Self::decode_u64(#[verifier::truncate] (value as u64)) as i64
    }

    /// Converts a host `i64` into a value whose bytes are laid out in this order.
    fn encode_i64(value: i64) -> (r: i64)
        ensures
            r == reordered(Self::order(), value as u64 as nat, 8) as i64,
    {
        Self::encode_u64(#[verifier::truncate] (value as u64)) as i64
    }

    /// Reads an `i64` from the first 8 bytes of `src`.
    fn read_i64(src: &[u8]) -> (r: i64)
        requires
            src@.len() >= 8,
        ensures
            r == value_of(Self::order(), src@.subrange(0, 8)) as i64,
    {
        #[verifier::truncate] (Self::read_u64(src) as i64)
    }

    /// Writes `value` into the first 8 bytes of `dst`.
    fn write_i64(value: i64, dst: &mut [u8])
        requires
            old(dst)@.len() >= 8,
        ensures
            final(dst)@.len() == old(dst)@.len(),
            final(dst)@.subrange(0, 8) == bytes_of(Self::order(), value as u64 as nat, 8),
            final(dst)@.subrange(8, old(dst)@.len() as int) == old(dst)@.subrange(8, old(dst)@.len() as int),
    {
        Self::write_u64(#[verifier::truncate] (value as u64), dst)
    }

    /// Applies `decode_u64` to every element of `values`, in place.
    fn decode_slice_u64(values: &mut [u64])
        ensures
            final(values)@.len() == old(values)@.len(),
            forall|i: int|
                0 <= i < old(values)@.len() ==> final(values)@[i] == reordered(
                    Self::order(),
                    old(values)@[i] as nat,
                    8,
                ),
    {
        let mut i: usize = 0;
        while i < values.len()
            invariant
                i <= values@.len(),
                values@.len() == old(values)@.len(),
                forall|k: int|
                    0 <= k < i ==> values@[k] == reordered(Self::order(), old(values)@[k] as nat, 8),
                forall|k: int| i <= k < values@.len() ==> values@[k] == old(values)@[k],
            decreases values@.len() - i,
        {
            let v = Self::decode_u64(values[i]);
            values[i] = v;
            i = i + 1;
        }
    }

    /// Applies `encode_u64` to every element of `values`, in place.
    fn encode_slice_u64(values: &mut [u64])
        ensures
            final(values)@.len() == old(values)@.len(),
            forall|i: int|
                0 <= i < old(values)@.len() ==> final(values)@[i] == reordered(
                    Self::order(),
                    old(values)@[i] as nat,
                    8,
                ),
    {
        let mut i: usize = 0;
        while i < values.len()
            invariant
                i <= values@.len(),
                values@.len() == old(values)@.len(),
                forall|k: int|
                    0 <= k < i ==> values@[k] == reordered(Self::order(), old(values)@[k] as nat, 8),
                forall|k: int| i <= k < values@.len() ==> values@[k] == old(values)@[k],
            decreases values@.len() - i,
        {
            let v = Self::encode_u64(values[i]);
            values[i] = v;
            i = i + 1;
        }
    }

    /// Reads `dst.len()` values of 8 bytes each from `src`, which must hold exactly that
    /// many bytes.
    fn read_slice_u64(src: &[u8], dst: &mut [u64])
        requires
            src@.len() == old(dst)@.len() * 8,
        ensures
            final(dst)@.len() == old(dst)@.len(),
            forall|i: int|
                0 <= i < old(dst)@.len() ==> final(dst)@[i] == value_of(
                    Self::order(),
                    #[trigger] src@.subrange(8 * i, 8 * i + 8),
                ),
    {
        let order = Self::byte_order();
        proof {
            lemma_pow256_values();
        }
        let mut i: usize = 0;
        while i < dst.len()
            invariant
                i <= dst@.len(),
                dst@.len() == old(dst)@.len(),
                src@.len() == dst@.len() * 8,
                src@.len() == src.len(),
                order == Self::order(),
                pow256(8) <= pow256(16),
                forall|k: int|
                    0 <= k < i ==> dst@[k] == value_of(
                        Self::order(),
                        #[trigger] src@.subrange(8 * k, 8 * k + 8),
                    ),
            decreases dst@.len() - i,
        {
            proof {
                lemma_pow256_values();
                assert(8 * i + 8 <= src@.len()) by (nonlinear_arith)
                    requires
                        i < dst@.len(),
                        src@.len() == dst@.len() * 8,
                ;
            }
            let v = read_uint(order, src, 8 * i, 8);
            dst[i] = v as u64;
            i = i + 1;
        }
    }

    /// Writes the values of `src`, 8 bytes each, into `dst`, which must hold exactly that many
    /// bytes.
    fn write_slice_u64(src: &[u64], dst: &mut [u8])
        requires
            src@.len() * 8 == old(dst)@.len(),
        ensures
            final(dst)@.len() == old(dst)@.len(),
            forall|i: int|
                0 <= i < src@.len() ==> #[trigger] final(dst)@.subrange(8 * i, 8 * i + 8) == bytes_of(
                    Self::order(),
                    src@[i] as nat,
                    8,
                ),
    {
        let order = Self::byte_order();
        let mut i: usize = 0;
        while i < src.len()
            invariant
                i <= src@.len(),
                dst@.len() == old(dst)@.len(),
                src@.len() * 8 == dst@.len(),
                dst@.len() == dst.len(),
                order == Self::order(),
                forall|k: int|
                    0 <= k < i ==> #[trigger] dst@.subrange(8 * k, 8 * k + 8) == bytes_of(
                        Self::order(),
                        src@[k] as nat,
                        8,
                    ),
            decreases src@.len() - i,
        {
            proof {
                assert(8 * i + 8 <= dst@.len()) by (nonlinear_arith)
                    requires
                        i < src@.len(),
                        src@.len() * 8 == dst@.len(),
                ;
            }
            let ghost before = dst@;
            write_uint(order, src[i] as u128, dst, 8 * i, 8);
            proof {
                assert forall|k: int| 0 <= k < i implies #[trigger] dst@.subrange(8 * k, 8 * k + 8)
                    == bytes_of(Self::order(), src@[k] as nat, 8) by {
                    assert(8 * k + 8 <= 8 * i) by (nonlinear_arith)
                        requires
                            k < i,
                    ;
                    assert(dst@.subrange(8 * k, 8 * k + 8) =~= before.subrange(8 * k, 8 * k + 8));
                }
            }
            i = i + 1;
        }
    }

    /// Converts a `u128` whose bytes were laid out in this order into a host value.
    fn decode_u128(value: u128) -> (r: u128)
        ensures
            r == reordered(Self::order(), value as nat, 16),
    ;

    /// Converts a host `u128` into a value whose bytes are laid out in this order.
    fn encode_u128(value: u128) -> (r: u128)
        ensures
            r == reordered(Self::order(), value as nat, 16),
    ;

    /// Reads a `u128` from the first 16 bytes of `src`.
    fn read_u128(src: &[u8]) -> (r: u128)
        requires
            src@.len() >= 16,
        ensures
            r == value_of(Self::order(), src@.subrange(0, 16)),
    ;

    /// Writes `value` into the first 16 bytes of `dst`.
    fn write_u128(value: u128, dst: &mut [u8])
        requires
            old(dst)@.len() >= 16,
        ensures
            final(dst)@.len() == old(dst)@.len(),
            final(dst)@.subrange(0, 16) == bytes_of(Self::order(), value as nat, 16),
            final(dst)@.subrange(16, old(dst)@.len() as int) == old(dst)@.subrange(16, old(dst)@.len() as int),
    ;

    /// Converts an `i128` whose bytes were laid out in this order into a host value.
    fn decode_i128(value: i128) -> (r: i128)
        ensures
            r == reordered(Self::order(), value as u128 as nat, 16) as i128,
    {
        Self::decode_u128(#[verifier::truncate] (value as u128)) as i128
    }

    /// Converts a host `i128` into a value whose bytes are laid out in this order.
    fn encode_i128(value: i128) -> (r: i128)
        ensures
            r == reordered(Self::order(), value as u128 as nat, 16) as i128,
    {
        Self::encode_u128(#[verifier::truncate] (value as u128)) as i128
    }

    /// Reads an `i128` from the first 16 bytes of `src`.
    fn read_i128(src: &[u8]) -> (r: i128)
        requires
            src@.len() >= 16,
        ensures
            r == value_of(Self::order(), src@.subrange(0, 16)) as i128,
    {
        #[verifier::truncate] (Self::read_u128(src) as i128)
    }

    /// Writes `value` into the first 16 bytes of `dst`.
    fn write_i128(value: i128, dst: &mut [u8])
        requires
            old(dst)@.len() >= 16,
        ensures
            final(dst)@.len() == old(dst)@.len(),
            final(dst)@.subrange(0, 16) == bytes_of(Self::order(), value as u128 as nat, 16),
            final(dst)@.subrange(16, old(dst)@.len() as int) == old(dst)@.subrange(16, old(dst)@.len() as int),
    {
        Self::write_u128(#[verifier::truncate] (value as u128), dst)
    }

    /// Applies `decode_u128` to every element of `values`, in place.
    fn decode_slice_u128(values: &mut [u128])
        ensures
            final(values)@.len() == old(values)@.len(),
            forall|i: int|
                0 <= i < old(values)@.len() ==> final(values)@[i] == reordered(
                    Self::order(),
                    old(values)@[i] as nat,
                    16,
                ),
    {
        let mut i: usize = 0;
        while i < values.len()
            invariant
                i <= values@.len(),
                values@.len() == old(values)@.len(),
                forall|k: int|
                    0 <= k < i ==> values@[k] == reordered(Self::order(), old(values)@[k] as nat, 16),
                forall|k: int| i <= k < values@.len() ==> values@[k] == old(values)@[k],
            decreases values@.len() - i,
        {
            let v = Self::decode_u128(values[i]);
            values[i] = v;
            i = i + 1;
        }
    }

    /// Applies `encode_u128` to every element of `values`, in place.
    fn encode_slice_u128(values: &mut [u128])
        ensures
            final(values)@.len() == old(values)@.len(),
            forall|i: int|
                0 <= i < old(values)@.len() ==> final(values)@[i] == reordered(
                    Self::order(),
                    old(values)@[i] as nat,
                    16,
                ),
    {
        let mut i: usize = 0;
        while i < values.len()
            invariant
                i <= values@.len(),
                values@.len() == old(values)@.len(),
                forall|k: int|
                    0 <= k < i ==> values@[k] == reordered(Self::order(), old(values)@[k] as nat, 16),
                forall|k: int| i <= k < values@.len() ==> values@[k] == old(values)@[k],
            decreases values@.len() - i,
        {
            let v = Self::encode_u128(values[i]);
            values[i] = v;
            i = i + 1;
        }
    }

    /// Reads `dst.len()` values of 16 bytes each from `src`, which must hold exactly that
    /// many bytes.
    fn read_slice_u128(src: &[u8], dst: &mut [u128])
        requires
            src@.len() == old(dst)@.len() * 16,
        ensures
            final(dst)@.len() == old(dst)@.len(),
            forall|i: int|
                0 <= i < old(dst)@.len() ==> final(dst)@[i] == value_of(
                    Self::order(),
                    #[trigger] src@.subrange(16 * i, 16 * i + 16),
                ),
    {
        let order = Self::byte_order();
        proof {
            lemma_pow256_values();
        }
        let mut i: usize = 0;
        while i < dst.len()
            invariant
                i <= dst@.len(),
                dst@.len() == old(dst)@.len(),
                src@.len() == dst@.len() * 16,
                src@.len() == src.len(),
                order == Self::order(),
                pow256(16) <= pow256(16),
                forall|k: int|
                    0 <= k < i ==> dst@[k] == value_of(
                        Self::order(),
                        #[trigger] src@.subrange(16 * k, 16 * k + 16),
                    ),
            decreases dst@.len() - i,
        {
            proof {
                lemma_pow256_values();
                assert(16 * i + 16 <= src@.len()) by (nonlinear_arith)
                    requires
                        i < dst@.len(),
                        src@.len() == dst@.len() * 16,
                ;
            }
            let v = read_uint(order, src, 16 * i, 16);
            dst[i] = v as u128;
            i = i + 1;
        }
    }

    /// Writes the values of `src`, 16 bytes each, into `dst`, which must hold exactly that many
    /// bytes.
    fn write_slice_u128(src: &[u128], dst: &mut [u8])
        requires
            src@.len() * 16 == old(dst)@.len(),
        ensures
            final(dst)@.len() == old(dst)@.len(),
            forall|i: int|
                0 <= i < src@.len() ==> #[trigger] final(dst)@.subrange(16 * i, 16 * i + 16) == bytes_of(
                    Self::order(),
                    src@[i] as nat,
                    16,
                ),
    {
        let order = Self::byte_order();
        let mut i: usize = 0;
        while i < src.len()
            invariant
                i <= src@.len(),
                dst@.len() == old(dst)@.len(),
                src@.len() * 16 == dst@.len(),
                dst@.len() == dst.len(),
                order == Self::order(),
                forall|k: int|
                    0 <= k < i ==> #[trigger] dst@.subrange(16 * k, 16 * k + 16) == bytes_of(
                        Self::order(),
                        src@[k] as nat,
                        16,
                    ),
            decreases src@.len() - i,
        {
            proof {
                assert(16 * i + 16 <= dst@.len()) by (nonlinear_arith)
                    requires
                        i < src@.len(),
                        src@.len() * 16 == dst@.len(),
                ;
            }
            let ghost before = dst@;
            write_uint(order, src[i] as u128, dst, 16 * i, 16);
            proof {
                assert forall|k: int| 0 <= k < i implies #[trigger] dst@.subrange(16 * k, 16 * k + 16)
                    == bytes_of(Self::order(), src@[k] as nat, 16) by {
                    assert(16 * k + 16 <= 16 * i) by (nonlinear_arith)
                        requires
                            k < i,
                    ;
                    assert(dst@.subrange(16 * k, 16 * k + 16) =~= before.subrange(16 * k, 16 * k + 16));
                }
            }
            i = i + 1;
        }
    }

    /// Applies `decode_i16` to every element of `values`, in place.
    fn decode_slice_i16(values: &mut [i16])
        ensures
            final(values)@.len() == old(values)@.len(),
            forall|i: int|
                0 <= i < old(values)@.len() ==> final(values)@[i] == reordered(
                    Self::order(),
                    old(values)@[i] as u16 as nat,
                    2,
                ) as i16,
    {
        let mut i: usize = 0;
        while i < values.len()
            invariant
                i <= values@.len(),
                values@.len() == old(values)@.len(),
                forall|k: int|
                    0 <= k < i ==> values@[k] == reordered(Self::order(), old(values)@[k] as u16 as nat, 2) as i16,
                forall|k: int| i <= k < values@.len() ==> values@[k] == old(values)@[k],
            decreases values@.len() - i,
        {
            let v = Self::decode_i16(values[i]);
            values[i] = v;
            i = i + 1;
        }
    }

    /// Applies `encode_i16` to every element of `values`, in place.
    fn encode_slice_i16(values: &mut [i16])
        ensures
            final(values)@.len() == old(values)@.len(),
            forall|i: int|
                0 <= i < old(values)@.len() ==> final(values)@[i] == reordered(
                    Self::order(),
                    old(values)@[i] as u16 as nat,
                    2,
                ) as i16,
    {
        let mut i: usize = 0;
        while i < values.len()
            invariant
                i <= values@.len(),
                values@.len() == old(values)@.len(),
                forall|k: int|
                    0 <= k < i ==> values@[k] == reordered(Self::order(), old(values)@[k] as u16 as nat, 2) as i16,
                forall|k: int| i <= k < values@.len() ==> values@[k] == old(values)@[k],
            decreases values@.len() - i,
        {
            let v = Self::encode_i16(values[i]);
            values[i] = v;
            i = i + 1;
        }
    }

    /// Reads `dst.len()` values of 2 bytes each from `src`, which must hold exactly that
    /// many bytes.
    fn read_slice_i16(src: &[u8], dst: &mut [i16])
        requires
            src@.len() == old(dst)@.len() * 2,
        ensures
            final(dst)@.len() == old(dst)@.len(),
            forall|i: int|
                0 <= i < old(dst)@.len() ==> final(dst)@[i] == value_of(
                    Self::order(),
                    #[trigger] src@.subrange(2 * i, 2 * i + 2),
                ) as i16,
    {
        let order = Self::byte_order();
        let mut i: usize = 0;
        while i < dst.len()
            invariant
                i <= dst@.len(),
                dst@.len() == old(dst)@.len(),
                src@.len() == dst@.len() * 2,
                src@.len() == src.len(),
                order == Self::order(),
                forall|k: int|
                    0 <= k < i ==> dst@[k] == value_of(
                        Self::order(),
                        #[trigger] src@.subrange(2 * k, 2 * k + 2),
                    ) as i16,
            decreases dst@.len() - i,
        {
            proof {
                lemma_pow256_values();
                assert(2 * i + 2 <= src@.len()) by (nonlinear_arith)
                    requires
                        i < dst@.len(),
                        src@.len() == dst@.len() * 2,
                ;
            }
            let v = read_uint(order, src, 2 * i, 2);
            dst[i] = #[verifier::truncate] (v as i16);
            i = i + 1;
        }
    }

    /// Writes the values of `src`, 2 bytes each, into `dst`, which must hold exactly that many
    /// bytes.
    fn write_slice_i16(src: &[i16], dst: &mut [u8])
        requires
            src@.len() * 2 == old(dst)@.len(),
        ensures
            final(dst)@.len() == old(dst)@.len(),
            forall|i: int|
                0 <= i < src@.len() ==> #[trigger] final(dst)@.subrange(2 * i, 2 * i + 2) == bytes_of(
                    Self::order(),
                    src@[i] as u16 as nat,
                    2,
                ),
    {
        let order = Self::byte_order();
        let mut i: usize = 0;
        while i < src.len()
            invariant
                i <= src@.len(),
                dst@.len() == old(dst)@.len(),
                src@.len() * 2 == dst@.len(),
                dst@.len() == dst.len(),
                order == Self::order(),
                forall|k: int|
                    0 <= k < i ==> #[trigger] dst@.subrange(2 * k, 2 * k + 2) == bytes_of(
                        Self::order(),
                        src@[k] as u16 as nat,
                        2,
                    ),
            decreases src@.len() - i,
        {
            proof {
                assert(2 * i + 2 <= dst@.len()) by (nonlinear_arith)
                    requires
                        i < src@.len(),
                        src@.len() * 2 == dst@.len(),
                ;
            }
            let ghost before = dst@;
            let value = #[verifier::truncate] (src[i] as u16);
            write_uint(order, value as u128, dst, 2 * i, 2);
            proof {
                assert forall|k: int| 0 <= k < i implies #[trigger] dst@.subrange(2 * k, 2 * k + 2)
                    == bytes_of(Self::order(), src@[k] as u16 as nat, 2) by {
                    assert(2 * k + 2 <= 2 * i) by (nonlinear_arith)
                        requires
                            k < i,
                    ;
                    assert(dst@.subrange(2 * k, 2 * k + 2) =~= before.subrange(2 * k, 2 * k + 2));
                }
            }
            i = i + 1;
        }
    }

    /// Applies `decode_i32` to every element of `values`, in place.
    fn decode_slice_i32(values: &mut [i32])
        ensures
            final(values)@.len() == old(values)@.len(),
            forall|i: int|
                0 <= i < old(values)@.len() ==> final(values)@[i] == reordered(
                    Self::order(),
                    old(values)@[i] as u32 as nat,
                    4,
                ) as i32,
    {
        let mut i: usize = 0;
        while i < values.len()
            invariant
                i <= values@.len(),
                values@.len() == old(values)@.len(),
                forall|k: int|
                    0 <= k < i ==> values@[k] == reordered(Self::order(), old(values)@[k] as u32 as nat, 4) as i32,
                forall|k: int| i <= k < values@.len() ==> values@[k] == old(values)@[k],
            decreases values@.len() - i,
        {
            let v = Self::decode_i32(values[i]);
            values[i] = v;
            i = i + 1;
        }
    }

    /// Applies `encode_i32` to every element of `values`, in place.
    fn encode_slice_i32(values: &mut [i32])
        ensures
            final(values)@.len() == old(values)@.len(),
            forall|i: int|
                0 <= i < old(values)@.len() ==> final(values)@[i] == reordered(
                    Self::order(),
                    old(values)@[i] as u32 as nat,
                    4,
                ) as i32,
    {
        let mut i: usize = 0;
        while i < values.len()
            invariant
                i <= values@.len(),
                values@.len() == old(values)@.len(),
                forall|k: int|
                    0 <= k < i ==> values@[k] == reordered(Self::order(), old(values)@[k] as u32 as nat, 4) as i32,
                forall|k: int| i <= k < values@.len() ==> values@[k] == old(values)@[k],
            decreases values@.len() - i,
        {
            let v = Self::encode_i32(values[i]);
            values[i] = v;
            i = i + 1;
        }
    }

    /// Reads `dst.len()` values of 4 bytes each from `src`, which must hold exactly that
    /// many bytes.
    fn read_slice_i32(src: &[u8], dst: &mut [i32])
        requires
            src@.len() == old(dst)@.len() * 4,
        ensures
            final(dst)@.len() == old(dst)@.len(),
            forall|i: int|
                0 <= i < old(dst)@.len() ==> final(dst)@[i] == value_of(
                    Self::order(),
                    #[trigger] src@.subrange(4 * i, 4 * i + 4),
                ) as i32,
    {
        let order = Self::byte_order();
        let mut i: usize = 0;
        while i < dst.len()
            invariant
                i <= dst@.len(),
                dst@.len() == old(dst)@.len(),
                src@.len() == dst@.len() * 4,
                src@.len() == src.len(),
                order == Self::order(),
                forall|k: int|
                    0 <= k < i ==> dst@[k] == value_of(
                        Self::order(),
                        #[trigger] src@.subrange(4 * k, 4 * k + 4),
                    ) as i32,
            decreases dst@.len() - i,
        {
            proof {
                lemma_pow256_values();
                assert(4 * i + 4 <= src@.len()) by (nonlinear_arith)
                    requires
                        i < dst@.len(),
                        src@.len() == dst@.len() * 4,
                ;
            }
            let v = read_uint(order, src, 4 * i, 4);
            dst[i] = #[verifier::truncate] (v as i32);
            i = i + 1;
        }
    }

    /// Writes the values of `src`, 4 bytes each, into `dst`, which must hold exactly that many
    /// bytes.
    fn write_slice_i32(src: &[i32], dst: &mut [u8])
        requires
            src@.len() * 4 == old(dst)@.len(),
        ensures
            final(dst)@.len() == old(dst)@.len(),
            forall|i: int|
                0 <= i < src@.len() ==> #[trigger] final(dst)@.subrange(4 * i, 4 * i + 4) == bytes_of(
                    Self::order(),
                    src@[i] as u32 as nat,
                    4,
                ),
    {
        let order = Self::byte_order();
        let mut i: usize = 0;
        while i < src.len()
            invariant
                i <= src@.len(),
                dst@.len() == old(dst)@.len(),
                src@.len() * 4 == dst@.len(),
                dst@.len() == dst.len(),
                order == Self::order(),
                forall|k: int|
                    0 <= k < i ==> #[trigger] dst@.subrange(4 * k, 4 * k + 4) == bytes_of(
                        Self::order(),
                        src@[k] as u32 as nat,
                        4,
                    ),
            decreases src@.len() - i,
        {
            proof {
                assert(4 * i + 4 <= dst@.len()) by (nonlinear_arith)
                    requires
                        i < src@.len(),
                        src@.len() * 4 == dst@.len(),
                ;
            }
            let ghost before = dst@;
            let value = #[verifier::truncate] (src[i] as u32);
            write_uint(order, value as u128, dst, 4 * i, 4);
            proof {
                assert forall|k: int| 0 <= k < i implies #[trigger] dst@.subrange(4 * k, 4 * k + 4)
                    == bytes_of(Self::order(), src@[k] as u32 as nat, 4) by {
                    assert(4 * k + 4 <= 4 * i) by (nonlinear_arith)
                        requires
                            k < i,
                    ;
                    assert(dst@.subrange(4 * k, 4 * k + 4) =~= before.subrange(4 * k, 4 * k + 4));
                }
            }
            i = i + 1;
        }
    }

    /// Applies `decode_i64` to every element of `values`, in place.
    fn decode_slice_i64(values: &mut [i64])
        ensures
            final(values)@.len() == old(values)@.len(),
            forall|i: int|
                0 <= i < old(values)@.len() ==> final(values)@[i] == reordered(
                    Self::order(),
                    old(values)@[i] as u64 as nat,
                    8,
                ) as i64,
    {
        let mut i: usize = 0;
        while i < values.len()
            invariant
                i <= values@.len(),
                values@.len() == old(values)@.len(),
                forall|k: int|
                    0 <= k < i ==> values@[k] == reordered(Self::order(), old(values)@[k] as u64 as nat, 8) as i64,
                forall|k: int| i <= k < values@.len() ==> values@[k] == old(values)@[k],
            decreases values@.len() - i,
        {
            let v = Self::decode_i64(values[i]);
            values[i] = v;
            i = i + 1;
        }
    }

    /// Applies `encode_i64` to every element of `values`, in place.
    fn encode_slice_i64(values: &mut [i64])
        ensures
            final(values)@.len() == old(values)@.len(),
            forall|i: int|
                0 <= i < old(values)@.len() ==> final(values)@[i] == reordered(
                    Self::order(),
                    old(values)@[i] as u64 as nat,
                    8,
                ) as i64,
    {
        let mut i: usize = 0;
        while i < values.len()
            invariant
                i <= values@.len(),
                values@.len() == old(values)@.len(),
                forall|k: int|
                    0 <= k < i ==> values@[k] == reordered(Self::order(), old(values)@[k] as u64 as nat, 8) as i64,
                forall|k: int| i <= k < values@.len() ==> values@[k] == old(values)@[k],
            decreases values@.len() - i,
        {
            let v = Self::encode_i64(values[i]);
            values[i] = v;
            i = i + 1;
        }
    }

    /// Reads `dst.len()` values of 8 bytes each from `src`, which must hold exactly that
    /// many bytes.
    fn read_slice_i64(src: &[u8], dst: &mut [i64])
        requires
            src@.len() == old(dst)@.len() * 8,
        ensures
            final(dst)@.len() == old(dst)@.len(),
            forall|i: int|
                0 <= i < old(dst)@.len() ==> final(dst)@[i] == value_of(
                    Self::order(),
                    #[trigger] src@.subrange(8 * i, 8 * i + 8),
                ) as i64,
    {
        let order = Self::byte_order();
        let mut i: usize = 0;
        while i < dst.len()
            invariant
                i <= dst@.len(),
                dst@.len() == old(dst)@.len(),
                src@.len() == dst@.len() * 8,
                src@.len() == src.len(),
                order == Self::order(),
                forall|k: int|
                    0 <= k < i ==> dst@[k] == value_of(
                        Self::order(),
                        #[trigger] src@.subrange(8 * k, 8 * k + 8),
                    ) as i64,
            decreases dst@.len() - i,
        {
            proof {
                lemma_pow256_values();
                assert(8 * i + 8 <= src@.len()) by (nonlinear_arith)
                    requires
                        i < dst@.len(),
                        src@.len() == dst@.len() * 8,
                ;
            }
            let v = read_uint(order, src, 8 * i, 8);
            dst[i] = #[verifier::truncate] (v as i64);
            i = i + 1;
        }
    }

    /// Writes the values of `src`, 8 bytes each, into `dst`, which must hold exactly that many
    /// bytes.
    fn write_slice_i64(src: &[i64], dst: &mut [u8])
        requires
            src@.len() * 8 == old(dst)@.len(),
        ensures
            final(dst)@.len() == old(dst)@.len(),
            forall|i: int|
                0 <= i < src@.len() ==> #[trigger] final(dst)@.subrange(8 * i, 8 * i + 8) == bytes_of(
                    Self::order(),
                    src@[i] as u64 as nat,
                    8,
                ),
    {
        let order = Self::byte_order();
        let mut i: usize = 0;
        while i < src.len()
            invariant
                i <= src@.len(),
                dst@.len() == old(dst)@.len(),
                src@.len() * 8 == dst@.len(),
                dst@.len() == dst.len(),
                order == Self::order(),
                forall|k: int|
                    0 <= k < i ==> #[trigger] dst@.subrange(8 * k, 8 * k + 8) == bytes_of(
                        Self::order(),
                        src@[k] as u64 as nat,
                        8,
                    ),
            decreases src@.len() - i,
        {
            proof {
                assert(8 * i + 8 <= dst@.len()) by (nonlinear_arith)
                    requires
                        i < src@.len(),
                        src@.len() * 8 == dst@.len(),
                ;
            }
            let ghost before = dst@;
            let value = #[verifier::truncate] (src[i] as u64);
            write_uint(order, value as u128, dst, 8 * i, 8);
            proof {
                assert forall|k: int| 0 <= k < i implies #[trigger] dst@.subrange(8 * k, 8 * k + 8)
                    == bytes_of(Self::order(), src@[k] as u64 as nat, 8) by {
                    assert(8 * k + 8 <= 8 * i) by (nonlinear_arith)
                        requires
                            k < i,
                    ;
                    assert(dst@.subrange(8 * k, 8 * k + 8) =~= before.subrange(8 * k, 8 * k + 8));
                }
            }
            i = i + 1;
        }
    }

    /// Applies `decode_i128` to every element of `values`, in place.
    fn decode_slice_i128(values: &mut [i128])
        ensures
            final(values)@.len() == old(values)@.len(),
            forall|i: int|
                0 <= i < old(values)@.len() ==> final(values)@[i] == reordered(
                    Self::order(),
                    old(values)@[i] as u128 as nat,
                    16,
                ) as i128,
    {
        let mut i: usize = 0;
        while i < values.len()
            invariant
                i <= values@.len(),
                values@.len() == old(values)@.len(),
                forall|k: int|
                    0 <= k < i ==> values@[k] == reordered(Self::order(), old(values)@[k] as u128 as nat, 16) as i128,
                forall|k: int| i <= k < values@.len() ==> values@[k] == old(values)@[k],
            decreases values@.len() - i,
        {
            let v = Self::decode_i128(values[i]);
            values[i] = v;
            i = i + 1;
        }
    }

    /// Applies `encode_i128` to every element of `values`, in place.
    fn encode_slice_i128(values: &mut [i128])
        ensures
            final(values)@.len() == old(values)@.len(),
            forall|i: int|
                0 <= i < old(values)@.len() ==> final(values)@[i] == reordered(
                    Self::order(),
                    old(values)@[i] as u128 as nat,
                    16,
                ) as i128,
    {
        let mut i: usize = 0;
        while i < values.len()
            invariant
                i <= values@.len(),
                values@.len() == old(values)@.len(),
                forall|k: int|
                    0 <= k < i ==> values@[k] == reordered(Self::order(), old(values)@[k] as u128 as nat, 16) as i128,
                forall|k: int| i <= k < values@.len() ==> values@[k] == old(values)@[k],
            decreases values@.len() - i,
        {
            let v = Self::encode_i128(values[i]);
            values[i] = v;
            i = i + 1;
        }
    }

    /// Reads `dst.len()` values of 16 bytes each from `src`, which must hold exactly that
    /// many bytes.
    fn read_slice_i128(src: &[u8], dst: &mut [i128])
        requires
            src@.len() == old(dst)@.len() * 16,
        ensures
            final(dst)@.len() == old(dst)@.len(),
            forall|i: int|
                0 <= i < old(dst)@.len() ==> final(dst)@[i] == value_of(
                    Self::order(),
                    #[trigger] src@.subrange(16 * i, 16 * i + 16),
                ) as i128,
    {
        let order = Self::byte_order();
        let mut i: usize = 0;
        while i < dst.len()
            invariant
                i <= dst@.len(),
                dst@.len() == old(dst)@.len(),
                src@.len() == dst@.len() * 16,
                src@.len() == src.len(),
                order == Self::order(),
                forall|k: int|
                    0 <= k < i ==> dst@[k] == value_of(
                        Self::order(),
                        #[trigger] src@.subrange(16 * k, 16 * k + 16),
                    ) as i128,
            decreases dst@.len() - i,
        {
            proof {
                lemma_pow256_values();
                assert(16 * i + 16 <= src@.len()) by (nonlinear_arith)
                    requires
                        i < dst@.len(),
                        src@.len() == dst@.len() * 16,
                ;
            }
            let v = read_uint(order, src, 16 * i, 16);
            dst[i] = #[verifier::truncate] (v as i128);
            i = i + 1;
        }
    }

    /// Writes the values of `src`, 16 bytes each, into `dst`, which must hold exactly that many
    /// bytes.
    fn write_slice_i128(src: &[i128], dst: &mut [u8])
        requires
            src@.len() * 16 == old(dst)@.len(),
        ensures
            final(dst)@.len() == old(dst)@.len(),
            forall|i: int|
                0 <= i < src@.len() ==> #[trigger] final(dst)@.subrange(16 * i, 16 * i + 16) == bytes_of(
                    Self::order(),
                    src@[i] as u128 as nat,
                    16,
                ),
    {
        let order = Self::byte_order();
        let mut i: usize = 0;
        while i < src.len()
            invariant
                i <= src@.len(),
                dst@.len() == old(dst)@.len(),
                src@.len() * 16 == dst@.len(),
                dst@.len() == dst.len(),
                order == Self::order(),
                forall|k: int|
                    0 <= k < i ==> #[trigger] dst@.subrange(16 * k, 16 * k + 16) == bytes_of(
                        Self::order(),
                        src@[k] as u128 as nat,
                        16,
                    ),
            decreases src@.len() - i,
        {
            proof {
                assert(16 * i + 16 <= dst@.len()) by (nonlinear_arith)
                    requires
                        i < src@.len(),
                        src@.len() * 16 == dst@.len(),
                ;
            }
            let ghost before = dst@;
            let value = #[verifier::truncate] (src[i] as u128);
            write_uint(order, value as u128, dst, 16 * i, 16);
            proof {
                assert forall|k: int| 0 <= k < i implies #[trigger] dst@.subrange(16 * k, 16 * k + 16)
                    == bytes_of(Self::order(), src@[k] as u128 as nat, 16) by {
                    assert(16 * k + 16 <= 16 * i) by (nonlinear_arith)
                        requires
                            k < i,
                    ;
                    assert(dst@.subrange(16 * k, 16 * k + 16) =~= before.subrange(16 * k, 16 * k + 16));
                }
            }
            i = i + 1;
        }
    }
}

/// Little-endian byte order.
pub struct LittleEndian;

/// Big-endian byte order.
pub struct BigEndian;

impl ByteOrder for BigEndian {
    open spec fn order() -> Order {
        Order::BigEndian
    }

    fn byte_order() -> (r: Order) {
        Order::BigEndian
    }

    fn decode_u16(value: u16) -> (r: u16) {
        proof {
            lemma_pow256_values();
            lemma_reordered_twice(Order::BigEndian, value as nat, 2);
        }
        reorder_uint(Order::BigEndian, value as u128, 2) as u16
    }

    fn encode_u16(value: u16) -> (r: u16) {
        proof {
            lemma_pow256_values();
            lemma_reordered_twice(Order::BigEndian, value as nat, 2);
        }
        reorder_uint(Order::BigEndian, value as u128, 2) as u16
    }

    fn read_u16(src: &[u8]) -> (r: u16) {
        proof {
            lemma_pow256_values();
        }
        read_uint(Order::BigEndian, src, 0, 2) as u16
    }

    fn write_u16(value: u16, dst: &mut [u8]) {
        proof {
            lemma_pow256_values();
        }
        write_uint(Order::BigEndian, value as u128, dst, 0, 2);
        assert(dst@.subrange(2, old(dst)@.len() as int) =~= old(dst)@.subrange(2, old(dst)@.len() as int));
    }

    fn decode_u32(value: u32) -> (r: u32) {
        proof {
            lemma_pow256_values();
            lemma_reordered_twice(Order::BigEndian, value as nat, 4);
        }
        reorder_uint(Order::BigEndian, value as u128, 4) as u32
    }

    fn encode_u32(value: u32) -> (r: u32) {
        proof {
            lemma_pow256_values();
            lemma_reordered_twice(Order::BigEndian, value as nat, 4);
        }
        reorder_uint(Order::BigEndian, value as u128, 4) as u32
    }

    fn read_u32(src: &[u8]) -> (r: u32) {
        proof {
            lemma_pow256_values();
        }
        read_uint(Order::BigEndian, src, 0, 4) as u32
    }

    fn write_u32(value: u32, dst: &mut [u8]) {
        proof {
            lemma_pow256_values();
        }
        write_uint(Order::BigEndian, value as u128, dst, 0, 4);
        assert(dst@.subrange(4, old(dst)@.len() as int) =~= old(dst)@.subrange(4, old(dst)@.len() as int));
    }

    fn decode_u64(value: u64) -> (r: u64) {
        proof {
            lemma_pow256_values();
            lemma_reordered_twice(Order::BigEndian, value as nat, 8);
        }
        reorder_uint(Order::BigEndian, value as u128, 8) as u64
    }

    fn encode_u64(value: u64) -> (r: u64) {
        proof {
            lemma_pow256_values();
            lemma_reordered_twice(Order::BigEndian, value as nat, 8);
        }
        reorder_uint(Order::BigEndian, value as u128, 8) as u64
    }

    fn read_u64(src: &[u8]) -> (r: u64) {
        proof {
            lemma_pow256_values();
        }
        read_uint(Order::BigEndian, src, 0, 8) as u64
    }

    fn write_u64(value: u64, dst: &mut [u8]) {
        proof {
            lemma_pow256_values();
        }
        write_uint(Order::BigEndian, value as u128, dst, 0, 8);
        assert(dst@.subrange(8, old(dst)@.len() as int) =~= old(dst)@.subrange(8, old(dst)@.len() as int));
    }

    fn decode_u128(value: u128) -> (r: u128) {
        proof {
            lemma_pow256_values();
            lemma_reordered_twice(Order::BigEndian, value as nat, 16);
        }
        reorder_uint(Order::BigEndian, value as u128, 16) as u128
    }

    fn encode_u128(value: u128) -> (r: u128) {
        proof {
            lemma_pow256_values();
            lemma_reordered_twice(Order::BigEndian, value as nat, 16);
        }
        reorder_uint(Order::BigEndian, value as u128, 16) as u128
    }

    fn read_u128(src: &[u8]) -> (r: u128) {
        proof {
            lemma_pow256_values();
        }
        read_uint(Order::BigEndian, src, 0, 16) as u128
    }

    fn write_u128(value: u128, dst: &mut [u8]) {
        proof {
            lemma_pow256_values();
        }
        write_uint(Order::BigEndian, value as u128, dst, 0, 16);
        assert(dst@.subrange(16, old(dst)@.len() as int) =~= old(dst)@.subrange(16, old(dst)@.len() as int));
    }
}

impl ByteOrder for LittleEndian {
    open spec fn order() -> Order {
        Order::LittleEndian
    }

    fn byte_order() -> (r: Order) {
        Order::LittleEndian
    }

    fn decode_u16(value: u16) -> (r: u16) {
        proof {
            lemma_pow256_values();
            lemma_reordered_twice(Order::LittleEndian, value as nat, 2);
        }
        reorder_uint(Order::LittleEndian, value as u128, 2) as u16
    }

    fn encode_u16(value: u16) -> (r: u16) {
        proof {
            lemma_pow256_values();
            lemma_reordered_twice(Order::LittleEndian, value as nat, 2);
        }
        reorder_uint(Order::LittleEndian, value as u128, 2) as u16
    }

    fn read_u16(src: &[u8]) -> (r: u16) {
        proof {
            lemma_pow256_values();
        }
        read_uint(Order::LittleEndian, src, 0, 2) as u16
    }

    fn write_u16(value: u16, dst: &mut [u8]) {
        proof {
            lemma_pow256_values();
        }
        write_uint(Order::LittleEndian, value as u128, dst, 0, 2);
        assert(dst@.subrange(2, old(dst)@.len() as int) =~= old(dst)@.subrange(2, old(dst)@.len() as int));
    }

    fn decode_u32(value: u32) -> (r: u32) {
        proof {
            lemma_pow256_values();
            lemma_reordered_twice(Order::LittleEndian, value as nat, 4);
        }
        reorder_uint(Order::LittleEndian, value as u128, 4) as u32
    }

    fn encode_u32(value: u32) -> (r: u32) {
        proof {
            lemma_pow256_values();
            lemma_reordered_twice(Order::LittleEndian, value as nat, 4);
        }
        reorder_uint(Order::LittleEndian, value as u128, 4) as u32
    }

    fn read_u32(src: &[u8]) -> (r: u32) {
        proof {
            lemma_pow256_values();
        }
        read_uint(Order::LittleEndian, src, 0, 4) as u32
    }

    fn write_u32(value: u32, dst: &mut [u8]) {
        proof {
            lemma_pow256_values();
        }
        write_uint(Order::LittleEndian, value as u128, dst, 0, 4);
        assert(dst@.subrange(4, old(dst)@.len() as int) =~= old(dst)@.subrange(4, old(dst)@.len() as int));
    }

    fn decode_u64(value: u64) -> (r: u64) {
        proof {
            lemma_pow256_values();
            lemma_reordered_twice(Order::LittleEndian, value as nat, 8);
        }
        reorder_uint(Order::LittleEndian, value as u128, 8) as u64
    }

    fn encode_u64(value: u64) -> (r: u64) {
        proof {
            lemma_pow256_values();
            lemma_reordered_twice(Order::LittleEndian, value as nat, 8);
        }
        reorder_uint(Order::LittleEndian, value as u128, 8) as u64
    }

    fn read_u64(src: &[u8]) -> (r: u64) {
        proof {
            lemma_pow256_values();
        }
        read_uint(Order::LittleEndian, src, 0, 8) as u64
    }

    fn write_u64(value: u64, dst: &mut [u8]) {
        proof {
            lemma_pow256_values();
        }
        write_uint(Order::LittleEndian, value as u128, dst, 0, 8);
        assert(dst@.subrange(8, old(dst)@.len() as int) =~= old(dst)@.subrange(8, old(dst)@.len() as int));
    }

    fn decode_u128(value: u128) -> (r: u128) {
        proof {
            lemma_pow256_values();
            lemma_reordered_twice(Order::LittleEndian, value as nat, 16);
        }
        reorder_uint(Order::LittleEndian, value as u128, 16) as u128
    }

    fn encode_u128(value: u128) -> (r: u128) {
        proof {
            lemma_pow256_values();
            lemma_reordered_twice(Order::LittleEndian, value as nat, 16);
        }
        reorder_uint(Order::LittleEndian, value as u128, 16) as u128
    }

    fn read_u128(src: &[u8]) -> (r: u128) {
        proof {
            lemma_pow256_values();
        }
        read_uint(Order::LittleEndian, src, 0, 16) as u128
    }

    fn write_u128(value: u128, dst: &mut [u8]) {
        proof {
            lemma_pow256_values();
        }
        write_uint(Order::LittleEndian, value as u128, dst, 0, 16);
        assert(dst@.subrange(16, old(dst)@.len() as int) =~= old(dst)@.subrange(16, old(dst)@.len() as int));
    }
}

} // verus!

verus! {

/// Decoding what `encode` produced gives the value back, in either byte order and for
/// every width of `n` bytes (`decode_uN(encode_uN(v)) == v`).
pub proof fn decode_after_encode(order: Order, v: nat, n: nat)
    requires
        v < pow256(n),
    ensures
        reordered(order, reordered(order, v, n), n) == v,
{
    lemma_reordered_twice(order, v, n);
}

/// Reading back what `write` put into a buffer gives the value back, in either byte
/// order and for every width of `n` bytes (`read_uN(write_uN(v))== v`).
pub proof fn read_after_write(order: Order, v: nat, n: nat)
    requires
        v < pow256(n),
    ensures
        value_of(order, bytes_of(order, v, n)) == v,
        bytes_of(order, v, n).len() == n,
{
    lemma_value_of_bytes(order, v, n);
}

/// Applying the element-wise `encode` and then the element-wise `decode` to a sequence of
/// `n`-byte values gives the sequence back (`decode_slice(encode_slice(xs)) == xs`).
pub proof fn decode_slice_after_encode_slice(order: Order, xs: Seq<nat>, n: nat)
    requires
        forall|i: int| 0 <= i < xs.len() ==> xs[i] < pow256(n),
    ensures
        Seq::new(xs.len(), |i: int| reordered(order, reordered(order, xs[i], n), n)) == xs,
{
    assert forall|i: int| 0 <= i < xs.len() implies reordered(
        order,
        reordered(order, xs[i], n),
        n,
    ) == xs[i] by {
        lemma_reordered_twice(order, xs[i], n);
    }
    assert(Seq::new(xs.len(), |i: int| reordered(order, reordered(order, xs[i], n), n)) =~= xs);
}

/// Element `i` of `read_slice` is what the scalar `read` returns on the bytes of `src` that
/// start at `n * i`.
pub proof fn read_slice_is_elementwise_read(order: Order, src: Seq<u8>, n: int, i: int)
    requires
        0 <= i,
        0 <= n,
        n * i + n <= src.len(),
    ensures
        value_of(order, src.subrange(n * i, n * i + n)) == value_of(
            order,
            src.subrange(n * i, src.len() as int).subrange(0, n),
        ),
{
    assert(0 <= n * i) by (nonlinear_arith)
        requires
            0 <= i,
            0 <= n,
    ;
    assert(src.subrange(n * i, n * i + n) =~= src.subrange(n * i, src.len() as int).subrange(0, n));
}

} // verus!
