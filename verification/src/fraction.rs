//! Exact rational scores.

use vstd::prelude::*;

verus! {

/// A mathematical rational `num / den`.
pub ghost struct Ratio {
    pub num: int,
    pub den: int,
}

impl Ratio {
    /// `self <= other`, for positive denominators.
    pub open spec fn le(self, other: Ratio) -> bool {
        self.num * other.den <= other.num * self.den
    }

    /// `self < other`, for positive denominators.
    pub open spec fn lt(self, other: Ratio) -> bool {
        self.num * other.den < other.num * self.den
    }

    /// `self` and `other` denote the same rational number.
    pub open spec fn same(self, other: Ratio) -> bool {
        self.num * other.den == other.num * self.den
    }
}

/// A rational number with a machine-sized numerator and denominator.
#[derive(Clone, Copy, Debug)]
pub struct Fraction {
    pub num: i128,
    pub den: u128,
}

impl View for Fraction {
    type V = Ratio;

    open spec fn view(&self) -> Ratio {
        Ratio { num: self.num as int, den: self.den as int }
    }
}

impl Fraction {
    /// A fraction is well formed when its denominator is positive.
    pub open spec fn wf(&self) -> bool {
        self.den > 0
    }

    /// The fraction `0/1`.
    pub fn zero() -> (r: Fraction)
        ensures
            r@ == (Ratio { num: 0, den: 1 }),
            r.wf(),
    {
        Fraction { num: 0, den: 1 }
    }

    /// The fraction `1/1`.
    pub fn one() -> (r: Fraction)
        ensures
            r@ == (Ratio { num: 1, den: 1 }),
            r.wf(),
    {
        Fraction { num: 1, den: 1 }
    }

    /// Whether `self <= other`, decided exactly by cross multiplication in
    /// 256-bit arithmetic.
    pub fn le(&self, other: &Fraction) -> (r: bool)
        ensures
            r == self@.le(other@),
    {
        let lhs = signed_product(self.num, other.den);
        let rhs = signed_product(other.num, self.den);
        wide_le(&lhs, &rhs)
    }

    /// Whether `self < other`, decided exactly.
    pub fn lt(&self, other: &Fraction) -> (r: bool)
        ensures
            r == self@.lt(other@),
    {
        !other.le(self)
    }

    /// Whether `self` and `other` denote the same rational number.
    pub fn same(&self, other: &Fraction) -> (r: bool)
        ensures
            r == self@.same(other@),
    {
        self.le(other) && other.le(self)
    }
}

/// Two to the power 64.
pub open spec fn pow64() -> int {
    0x1_0000_0000_0000_0000
}

/// Two to the power 128.
pub open spec fn pow128() -> int {
    0x1_0000_0000_0000_0000_0000_0000_0000_0000int
}

/// A signed integer of up to 256 bits of magnitude.
pub struct Wide {
    pub negative: bool,
    pub hi: u128,
    pub lo: u128,
}

impl Wide {
    /// The absolute value held in the two words.
    pub open spec fn magnitude(&self) -> int {
        self.hi * pow128() + self.lo
    }

    /// The integer that the value stands for.
    pub open spec fn value(&self) -> int {
        if self.negative {
            -self.magnitude()
        } else {
            self.magnitude()
        }
    }
}

proof fn lemma_split_product(x1: int, x0: int, y1: int, y0: int, b: int)
    ensures
        (x1 * b + x0) * (y1 * b + y0) == (x1 * y1) * (b * b) + (x0 * y1 + x1 * y0) * b + x0 * y0,
{
    let a = x1 * b;
    let c = y1 * b;
    assert((a + x0) * (c + y0) == a * c + a * y0 + x0 * c + x0 * y0) by (nonlinear_arith);
    assert(a * c == (x1 * y1) * (b * b)) by (nonlinear_arith)
        requires
            a == x1 * b,
            c == y1 * b,
    ;
    assert(a * y0 == (x1 * y0) * b) by (nonlinear_arith)
        requires
            a == x1 * b,
    ;
    assert(x0 * c == (x0 * y1) * b) by (nonlinear_arith)
        requires
            c == y1 * b,
    ;
    assert((x0 * y1 + x1 * y0) * b == (x0 * y1) * b + (x1 * y0) * b) by (nonlinear_arith);
}

proof fn lemma_product_bound(x: int, y: int, b: int)
    requires
        0 <= x < b,
        0 <= y < b,
    ensures
        0 <= x * y <= (b - 1) * (b - 1),
{
    assert(0 <= x * y <= (b - 1) * (b - 1)) by (nonlinear_arith)
        requires
            0 <= x < b,
            0 <= y < b,
    ;
}

/// The full 256-bit product of two 128-bit words.
pub fn wide_mul(x: u128, y: u128) -> (r: (u128, u128))
    ensures
        r.0 * pow128() + r.1 == x * y,
{
    let b: u128 = 0x1_0000_0000_0000_0000;
    let x0: u128 = x % b;
    let x1: u128 = x / b;
    let y0: u128 = y % b;
    let y1: u128 = y / b;
    proof {
        lemma_product_bound(x0 as int, y0 as int, b as int);
        lemma_product_bound(x0 as int, y1 as int, b as int);
        lemma_product_bound(x1 as int, y0 as int, b as int);
        lemma_product_bound(x1 as int, y1 as int, b as int);
        lemma_split_product(x1 as int, x0 as int, y1 as int, y0 as int, b as int);
    }
    let low_low: u128 = x0 * y0;
    let low_high: u128 = x0 * y1;
    let high_low: u128 = x1 * y0;
    let high_high: u128 = x1 * y1;
    let mid: u128 = low_low / b + low_high % b + high_low % b;
    let lo: u128 = (mid % b) * b + low_low % b;
    assert(x * y == high_high * (b * b) + (low_high + high_low) * b + low_low);
    let hi: u128 = high_high + low_high / b + high_low / b + mid / b;
    (hi, lo)
}

/// The magnitude of a signed 128-bit integer.
fn magnitude_of(n: i128) -> (m: u128)
    ensures
        m == (if n < 0 { -n } else { n as int }),
{
    if n < 0 {
        ((-(n + 1)) as u128) + 1
    } else {
        n as u128
    }
}

/// The exact product of a signed and an unsigned 128-bit integer.
pub fn signed_product(n: i128, d: u128) -> (w: Wide)
    ensures
        w.value() == n * d,
{
    let m = magnitude_of(n);
    let (hi, lo) = wide_mul(m, d);
    proof {
        if n < 0 {
            assert((-n) * d == -(n * d)) by (nonlinear_arith);
        }
    }
    Wide { negative: n < 0, hi, lo }
}

/// Whether the integer held in `a` is at most the one held in `b`.
pub fn wide_le(a: &Wide, b: &Wide) -> (r: bool)
    ensures
        r == (a.value() <= b.value()),
{
    let a_zero = a.hi == 0 && a.lo == 0;
    let b_zero = b.hi == 0 && b.lo == 0;
    if a.negative && !b.negative {
        true
    } else if !a.negative && b.negative {
        a_zero && b_zero
    } else if !a.negative {
        a.hi < b.hi || (a.hi == b.hi && a.lo <= b.lo)
    } else {
        b.hi < a.hi || (b.hi == a.hi && b.lo <= a.lo)
    }
}

} // verus!
