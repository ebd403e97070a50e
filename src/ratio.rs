//! Rational numbers laid out as TIFF stores them: a numerator followed by a denominator.
//!
//! Ratios compare by value (`5/10 == 1/2`). A zero denominator stands for an infinity of the
//! sign of the numerator (`1/0` is above every finite ratio, `-1/0` below), and `0/0` stands for
//! zero.
use vstd::prelude::*;

use core::cmp::Ordering;
use vstd::arithmetic::div_mod::{
    lemma_fundamental_div_mod, lemma_fundamental_div_mod_converse, lemma_mod_bound,
};

verus! {

/// Represents a ratio of two integers.
#[derive(Clone, Copy, Debug)]
pub struct Ratio<T> {
    /// The numerator of the ratio.
    pub num: T,
    /// The denominator of the ratio.
    pub den: T,
}

impl<T> Ratio<T> {
    /// Creates a new ratio from the given numerator and denominator.
    pub fn new(num: T, den: T) -> (r: Self)
        ensures
            r.num == num,
            r.den == den,
    {
        Ratio { num, den }
    }
}

/// The order of two integers.
pub open spec fn int_cmp(x: int, y: int) -> Ordering {
    if x < y {
        Ordering::Less
    } else if x == y {
        Ordering::Equal
    } else {
        Ordering::Greater
    }
}

/// `1` when `num/den` stands for plus infinity, `-1` for minus infinity, `0` when it is finite.
pub open spec fn infinity_sign(num: int, den: int) -> int {
    if den != 0 || num == 0 {
        0
    } else if num > 0 {
        1
    } else {
        -1
    }
}

/// The same finite ratio with a positive denominator; `0/0` becomes `0/1`.
pub open spec fn normalized(num: int, den: int) -> (int, int) {
    if den == 0 {
        (0, 1)
    } else if den < 0 {
        (-num, -den)
    } else {
        (num, den)
    }
}

/// The order of the values of `n1/d1` and `n2/d2` on the line extended by the two infinities.
pub open spec fn ratio_cmp(n1: int, d1: int, n2: int, d2: int) -> Ordering {
    let s1 = infinity_sign(n1, d1);
    let s2 = infinity_sign(n2, d2);
    if s1 != 0 || s2 != 0 {
        int_cmp(s1, s2)
    } else {
        let (a, b) = normalized(n1, d1);
        let (c, d) = normalized(n2, d2);
        int_cmp(a * d, c * b)
    }
}

/// Compares `n1/d1` with `n2/d2`, whose parts all lie within 32 bits of magnitude.
fn cmp_parts(n1: i64, d1: i64, n2: i64, d2: i64) -> (r: Ordering)
    requires
        -0x1_0000_0000 <= n1 <= 0x1_0000_0000,
        -0x1_0000_0000 <= d1 <= 0x1_0000_0000,
        -0x1_0000_0000 <= n2 <= 0x1_0000_0000,
        -0x1_0000_0000 <= d2 <= 0x1_0000_0000,
    ensures
        r == ratio_cmp(n1 as int, d1 as int, n2 as int, d2 as int),
{
    let s1: i64 = if d1 != 0 || n1 == 0 {
        0
    } else if n1 > 0 {
        1
    } else {
        -1
    };
    let s2: i64 = if d2 != 0 || n2 == 0 {
        0
    } else if n2 > 0 {
        1
    } else {
        -1
    };
    if s1 != 0 || s2 != 0 {
        return if s1 < s2 {
            Ordering::Less
        } else if s1 == s2 {
            Ordering::Equal
        } else {
            Ordering::Greater
        };
    }
    let (a, b): (i128, i128) = if d1 == 0 {
        (0, 1)
    } else if d1 < 0 {
        (-(n1 as i128), -(d1 as i128))
    } else {
        (n1 as i128, d1 as i128)
    };
    let (c, d): (i128, i128) = if d2 == 0 {
        (0, 1)
    } else if d2 < 0 {
        (-(n2 as i128), -(d2 as i128))
    } else {
        (n2 as i128, d2 as i128)
    };
    assert(-0x1_0000_0000_0000_0000 <= a * d <= 0x1_0000_0000_0000_0000) by (nonlinear_arith)
        requires
            -0x1_0000_0000 <= a <= 0x1_0000_0000,
            -0x1_0000_0000 <= d <= 0x1_0000_0000,
    ;
    assert(-0x1_0000_0000_0000_0000 <= c * b <= 0x1_0000_0000_0000_0000) by (nonlinear_arith)
        requires
            -0x1_0000_0000 <= c <= 0x1_0000_0000,
            -0x1_0000_0000 <= b <= 0x1_0000_0000,
    ;
    let x = a * d;
    let y = c * b;
    if x < y {
        Ordering::Less
    } else if x == y {
        Ordering::Equal
    } else {
        Ordering::Greater
    }
}

impl Ratio<u32> {
    /// Compares two ratios by value.
    pub fn cmp(&self, other: &Self) -> (r: Ordering)
        ensures
            r == ratio_cmp(self.num as int, self.den as int, other.num as int, other.den as int),
    {
        cmp_parts(self.num as i64, self.den as i64, other.num as i64, other.den as i64)
    }
}

impl Ratio<i32> {
    /// Compares two ratios by value.
    pub fn cmp(&self, other: &Self) -> (r: Ordering)
        ensures
            r == ratio_cmp(self.num as int, self.den as int, other.num as int, other.den as int),
    {
        cmp_parts(self.num as i64, self.den as i64, other.num as i64, other.den as i64)
    }
}

impl PartialEq for Ratio<u32> {
    fn eq(&self, other: &Self) -> (r: bool) {
        match self.cmp(other) {
            Ordering::Equal => true,
            _ => false,
        }
    }
}

impl vstd::std_specs::cmp::PartialEqSpecImpl for Ratio<u32> {
    open spec fn obeys_eq_spec() -> bool {
        true
    }

    open spec fn eq_spec(&self, other: &Ratio<u32>) -> bool {
        ratio_cmp(self.num as int, self.den as int, other.num as int, other.den as int)
            == Ordering::Equal
    }
}

impl PartialEq for Ratio<i32> {
    fn eq(&self, other: &Self) -> (r: bool) {
        match self.cmp(other) {
            Ordering::Equal => true,
            _ => false,
        }
    }
}

impl vstd::std_specs::cmp::PartialEqSpecImpl for Ratio<i32> {
    open spec fn obeys_eq_spec() -> bool {
        true
    }

    open spec fn eq_spec(&self, other: &Ratio<i32>) -> bool {
        ratio_cmp(self.num as int, self.den as int, other.num as int, other.den as int)
            == Ordering::Equal
    }
}

impl PartialOrd for Ratio<u32> {
    fn partial_cmp(&self, other: &Self) -> (r: Option<Ordering>) {
        Some(self.cmp(other))
    }
}

impl vstd::std_specs::cmp::PartialOrdSpecImpl for Ratio<u32> {
    open spec fn obeys_partial_cmp_spec() -> bool {
        true
    }

    open spec fn partial_cmp_spec(&self, other: &Ratio<u32>) -> Option<Ordering> {
        Some(ratio_cmp(self.num as int, self.den as int, other.num as int, other.den as int))
    }
}

impl PartialOrd for Ratio<i32> {
    fn partial_cmp(&self, other: &Self) -> (r: Option<Ordering>) {
        Some(self.cmp(other))
    }
}

impl vstd::std_specs::cmp::PartialOrdSpecImpl for Ratio<i32> {
    open spec fn obeys_partial_cmp_spec() -> bool {
        true
    }

    open spec fn partial_cmp_spec(&self, other: &Ratio<i32>) -> Option<Ordering> {
        Some(ratio_cmp(self.num as int, self.den as int, other.num as int, other.den as int))
    }
}

/// Floored division: the quotient rounded towards minus infinity.
pub open spec fn floor_div(a: int, b: int) -> int {
    if b > 0 {
        a / b
    } else {
        (-a) / (-b)
    }
}

/// The remainder of floored division, which has the sign of the divisor.
pub open spec fn floor_mod(a: int, b: int) -> int {
    a - b * floor_div(a, b)
}

/// Integer types that can be used in a [`Ratio`].
pub trait Integer: Sized {
    /// The value as a mathematical integer.
    spec fn as_int(self) -> int;

    /// True when the floored quotient of `a` by `b` can be computed in this type.
    spec fn div_defined(a: Self, b: Self) -> bool;

    /// The zero of the type.
    fn zero() -> (r: Self)
        ensures
            r.as_int() == 0,
    ;

    /// The floored quotient and remainder of `self` by `other`.
    fn div_mod_floor(self, other: Self) -> (r: (Self, Self))
        requires
            Self::div_defined(self, other),
        ensures
            r.0.as_int() == floor_div(self.as_int(), other.as_int()),
            r.1.as_int() == floor_mod(self.as_int(), other.as_int()),
    ;
}

impl Integer for u32 {
    open spec fn as_int(self) -> int {
        self as int
    }

    open spec fn div_defined(a: u32, b: u32) -> bool {
        b != 0
    }

    fn zero() -> (r: u32) {
        0
    }

    fn div_mod_floor(self, other: u32) -> (r: (u32, u32)) {
        let quot = self / other;
        let rem = self % other;
        proof {
            lemma_fundamental_div_mod(self as int, other as int);
        }
        (quot, rem)
    }
}

impl Integer for i32 {
    open spec fn as_int(self) -> int {
        self as int
    }

    open spec fn div_defined(a: i32, b: i32) -> bool {
        b != 0 && !(a == i32::MIN && b == -1)
    }

    fn zero() -> (r: i32) {
        0
    }

    fn div_mod_floor(self, other: i32) -> (r: (i32, i32)) {
        let a = self as i64;
        let b = other as i64;
        // Only non-negative operands are divided; the signs are put back afterwards.
        let (q, m): (i64, i64) = if b > 0 {
            if a >= 0 {
                (a / b, a % b)
            } else {
                let q0 = (-a) / b;
                let m0 = (-a) % b;
                if m0 == 0 {
                    (-q0, 0)
                } else {
                    (-q0 - 1, b - m0)
                }
            }
        } else {
            if a <= 0 {
                ((-a) / (-b), -((-a) % (-b)))
            } else {
                let q0 = a / (-b);
                let m0 = a % (-b);
                if m0 == 0 {
                    (-q0, 0)
                } else {
                    (-q0 - 1, b + m0)
                }
            }
        };
        proof {
            lemma_floor_div_mod(a as int, b as int, q as int, m as int);
        }
        (q as i32, m as i32)
    }
}

/// What the magnitude-based computation of `div_mod_floor` yields is the floored quotient and
/// remainder, and fits in 32 bits.
proof fn lemma_floor_div_mod(a: int, b: int, q: int, m: int)
    requires
        -0x8000_0000 <= a < 0x8000_0000,
        -0x8000_0000 <= b < 0x8000_0000,
        b != 0,
        !(a == -0x8000_0000 && b == -1),
        b > 0 && a >= 0 ==> q == a / b && m == a % b,
        b > 0 && a < 0 && (-a) % b == 0 ==> q == -((-a) / b) && m == 0,
        b > 0 && a < 0 && (-a) % b != 0 ==> q == -((-a) / b) - 1 && m == b - (-a) % b,
        b < 0 && a <= 0 ==> q == (-a) / (-b) && m == -((-a) % (-b)),
        b < 0 && a > 0 && a % (-b) == 0 ==> q == -(a / (-b)) && m == 0,
        b < 0 && a > 0 && a % (-b) != 0 ==> q == -(a / (-b)) - 1 && m == b + a % (-b),
    ensures
        q == floor_div(a, b),
        m == floor_mod(a, b),
        -0x8000_0000 <= q < 0x8000_0000,
        -0x8000_0000 <= m < 0x8000_0000,
{
    if b > 0 && a >= 0 {
        lemma_fundamental_div_mod(a, b);
        lemma_mod_bound(a, b);
        assert(0 <= q <= a) by (nonlinear_arith)
            requires
                a == b * q + m,
                0 <= m < b,
                a >= 0,
        ;
    } else if b > 0 {
        let p = -a;
        lemma_fundamental_div_mod(p, b);
        lemma_mod_bound(p, b);
        let q0 = p / b;
        let m0 = p % b;
        assert(0 <= q0 <= p) by (nonlinear_arith)
            requires
                p == b * q0 + m0,
                0 <= m0 < b,
                p >= 0,
        ;
        if m0 == 0 {
            assert(a == (-q0) * b + 0) by (nonlinear_arith)
                requires
                    p == b * q0 + m0,
                    m0 == 0,
                    a == -p,
            ;
            lemma_fundamental_div_mod_converse(a, b, -q0, 0);
            assert(m == a - b * q) by (nonlinear_arith)
                requires
                    a == (-q0) * b,
                    q == -q0,
                    m == 0,
            ;
        } else {
            assert(a == (-q0 - 1) * b + (b - m0)) by (nonlinear_arith)
                requires
                    p == b * q0 + m0,
                    a == -p,
            ;
            lemma_fundamental_div_mod_converse(a, b, -q0 - 1, b - m0);
            assert(2 * q0 <= p) by (nonlinear_arith)
                requires
                    p == b * q0 + m0,
                    0 < m0 < b,
                    q0 >= 0,
            ;
            assert(m == a - b * q) by (nonlinear_arith)
                requires
                    a == (-q0 - 1) * b + (b - m0),
                    q == -q0 - 1,
                    m == b - m0,
            ;
        }
    } else if a <= 0 {
        let p = -a;
        let d = -b;
        lemma_fundamental_div_mod(p, d);
        lemma_mod_bound(p, d);
        assert(0 <= q <= p) by (nonlinear_arith)
            requires
                p == d * q + (p % d),
                0 <= p % d < d,
                p >= 0,
        ;
        assert(d == 1 || 2 * q <= p) by (nonlinear_arith)
            requires
                p == d * q + (p % d),
                0 <= p % d < d,
                q >= 0,
        ;
        assert(m == a - b * q) by (nonlinear_arith)
            requires
                p == d * q + (p % d),
                m == -(p % d),
                a == -p,
                b == -d,
        ;
    } else {
        let d = -b;
        lemma_fundamental_div_mod(a, d);
        lemma_mod_bound(a, d);
        let q0 = a / d;
        let m0 = a % d;
        assert(0 <= q0 <= a) by (nonlinear_arith)
            requires
                a == d * q0 + m0,
                0 <= m0 < d,
                a >= 0,
        ;
        if m0 == 0 {
            assert(-a == (-q0) * d + 0) by (nonlinear_arith)
                requires
                    a == d * q0 + m0,
                    m0 == 0,
            ;
            lemma_fundamental_div_mod_converse(-a, d, -q0, 0);
            assert(m == a - b * q) by (nonlinear_arith)
                requires
                    a == d * q0,
                    b == -d,
                    q == -q0,
                    m == 0,
            ;
        } else {
            assert(-a == (-q0 - 1) * d + (d - m0)) by (nonlinear_arith)
                requires
                    a == d * q0 + m0,
            ;
            lemma_fundamental_div_mod_converse(-a, d, -q0 - 1, d - m0);
            assert(m == a - b * q) by (nonlinear_arith)
                requires
                    a == d * q0 + m0,
                    b == -d,
                    q == -q0 - 1,
                    m == b + m0,
            ;
        }
    }
}

} // verus!
