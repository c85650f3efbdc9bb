//! The fixed-point scalar: a signed number with 32 integer and 32 fractional bits.
use fixed::types::I32F32;
use fixed_trigonometry::atan;
use vstd::prelude::*;

verus! {

/// Scale of the representation: a `Num` with bits `b` stands for `b / ONE_BITS`.
pub const ONE_BITS: i64 = 0x1_0000_0000;

/// A signed fixed-point number with 32 fractional bits, held as its raw bits.
#[derive(Clone, Copy, Debug, PartialEq, Eq, Structural)]
pub struct Num {
    pub bits: i64,
}

/// What `fixed` returns for the wrapping product of two numbers with these bits.
pub uninterp spec fn fixed_mul(a: i64, b: i64) -> i64;

/// What `fixed` returns for the wrapping quotient of two numbers with these bits.
pub uninterp spec fn fixed_div(a: i64, b: i64) -> i64;

/// What `fixed_trigonometry::sin` returns for the number with these bits.
pub uninterp spec fn fixed_sin(x: i64) -> i64;

/// What `fixed_trigonometry::cos` returns for the number with these bits.
pub uninterp spec fn fixed_cos(x: i64) -> i64;

/// What `fixed_trigonometry::atan::atan2` returns for `(y, x)` with these bits.
pub uninterp spec fn fixed_atan2(y: i64, x: i64) -> i64;

/// What `fixed_trigonometry::wrap_phase` returns for the number with these bits.
pub uninterp spec fn fixed_wrap_phase(x: i64) -> i64;

/// The product in exact arithmetic, rounded down to the representation.
pub open spec fn exact_mul(a: int, b: int) -> int {
    (a * b) / (ONE_BITS as int)
}

/// Integer division rounding toward zero, as Rust's `/` does; `d != 0`.
pub open spec fn trunc_div(n: int, d: int) -> int {
    let an = if n < 0 { -n } else { n };
    let ad = if d < 0 { -d } else { d };
    if (n < 0) == (d < 0) {
        an / ad
    } else {
        -(an / ad)
    }
}

/// The exact product of the bits is small enough that the rounded product fits.
pub open spec fn mul_in_range(a: int, b: int) -> bool {
    -0x8000_0000_0000_0000_0000_0000 < a * b < 0x8000_0000_0000_0000_0000_0000
}

/// The quotient, rounded toward zero, fits the representation.
pub open spec fn div_in_range(a: int, b: int) -> bool {
    i64::MIN <= trunc_div(a * ONE_BITS, b) <= i64::MAX
}

/// Bits of the largest magnitude that `sin` and `cos` are handed (four units).
pub const TRIG_BOUND_BITS: i64 = 0x4_0000_0000;

/// Inputs on which `atan2` neither overflows nor divides by zero: no component is
/// `i64::MIN`, and unless one of them is zero the larger magnitude lies between
/// `2^-16` and `2^15`.
pub open spec fn atan2_defined(y: i64, x: i64) -> bool {
    let ay = if y < 0 { -y } else { y as int };
    let ax = if x < 0 { -x } else { x as int };
    let m = if ay < ax { ax } else { ay };
    &&& y != i64::MIN
    &&& x != i64::MIN
    &&& (y == 0 || x == 0 || (0x1_0000 <= m && m <= 0x8000_0000_0000))
}

/// Relies on `FixedI64::wrapping_mul`: the double-width product of the bits shifted
/// down by 32, wrapping to 64 bits; exact floor when the product fits.
#[verifier::external_body]
fn mul_bits(a: i64, b: i64) -> (r: i64)
    ensures
        r == fixed_mul(a, b),
        mul_in_range(a as int, b as int) ==> r == exact_mul(a as int, b as int),
{
    I32F32::from_bits(a).wrapping_mul(I32F32::from_bits(b)).to_bits()
}

/// Relies on `FixedI64::wrapping_div`: the bits shifted up by 32 and divided with
/// Rust's `/` on 128 bits, then wrapped to 64 bits; it panics on a zero divisor.
#[verifier::external_body]
fn div_bits(a: i64, b: i64) -> (r: i64)
    requires
        b != 0,
    ensures
        r == fixed_div(a, b),
        div_in_range(a as int, b as int) ==> r == trunc_div(a * ONE_BITS, b as int),
{
    I32F32::from_bits(a).wrapping_div(I32F32::from_bits(b)).to_bits()
}

/// Relies on `FixedI64::sqrt`: rounded down, `r <= sqrt(a) < r + DELTA`; it panics
/// on a negative input and cannot overflow with 32 integer bits.
#[verifier::external_body]
fn sqrt_bits(a: i64) -> (r: i64)
    requires
        a >= 0,
    ensures
        r >= 0,
        r * r <= a * ONE_BITS,
        a * ONE_BITS < (r + 1) * (r + 1),
{
    I32F32::from_bits(a).sqrt().to_bits()
}

/// Relies on `fixed_trigonometry::sin`, whose polynomial stays in range for
/// arguments of magnitude at most four.
#[verifier::external_body]
fn sin_bits(x: i64) -> (r: i64)
    requires
        -TRIG_BOUND_BITS <= x <= TRIG_BOUND_BITS,
    ensures
        r == fixed_sin(x),
{
    fixed_trigonometry::sin(I32F32::from_bits(x)).to_bits()
}

/// Relies on `fixed_trigonometry::cos`, which shifts by a quarter turn, wraps the
/// phase and evaluates `sin`.
#[verifier::external_body]
fn cos_bits(x: i64) -> (r: i64)
    requires
        -TRIG_BOUND_BITS <= x <= TRIG_BOUND_BITS,
    ensures
        r == fixed_cos(x),
{
    fixed_trigonometry::cos(I32F32::from_bits(x)).to_bits()
}

/// Relies on `fixed_trigonometry::wrap_phase`: it adds or subtracts whole turns
/// until the angle lies in `-pi <= r < pi`.
#[verifier::external_body]
fn wrap_phase_bits(x: i64) -> (r: i64)
    ensures
        r == fixed_wrap_phase(x),
        -TRIG_BOUND_BITS <= r <= TRIG_BOUND_BITS,
{
    fixed_trigonometry::wrap_phase(I32F32::from_bits(x)).to_bits()
}

/// Relies on `fixed_trigonometry::atan::atan2`, which takes absolute values and
/// divides by a sum of squares: both must stay in range and the divisor non-zero.
#[verifier::external_body]
fn atan2_bits(y: i64, x: i64) -> (r: i64)
    requires
        atan2_defined(y, x),
    ensures
        r == fixed_atan2(y, x),
{
    atan::atan2(I32F32::from_bits(y), I32F32::from_bits(x)).to_bits()
}

impl Num {
    /// Zero.
    pub fn zero() -> (r: Num)
        ensures
            r.bits == 0,
    {
        Num { bits: 0 }
    }

    /// One.
    pub fn one() -> (r: Num)
        ensures
            r.bits == ONE_BITS,
    {
        Num { bits: ONE_BITS }
    }

    /// Pi, rounded down to the representation.
    pub fn pi() -> (r: Num)
        ensures
            r.bits == 13493037704,
    {
        Num { bits: 13493037704 }
    }

    /// Pi / 3, rounded down to the representation.
    pub fn frac_pi_3() -> (r: Num)
        ensures
            r.bits == 4497679234,
    {
        Num { bits: 4497679234 }
    }

    /// Pi / 4, rounded down to the representation.
    pub fn frac_pi_4() -> (r: Num)
        ensures
            r.bits == 3373259426,
    {
        Num { bits: 3373259426 }
    }

    /// 1 / sqrt(2), rounded down to the representation.
    pub fn frac_1_sqrt_2() -> (r: Num)
        ensures
            r.bits == 3037000499,
    {
        Num { bits: 3037000499 }
    }

    pub open spec fn add_spec(self, o: Num) -> Num {
        Num { bits: self.bits.wrapping_add(o.bits) }
    }

    pub open spec fn sub_spec(self, o: Num) -> Num {
        Num { bits: self.bits.wrapping_sub(o.bits) }
    }

    pub open spec fn neg_spec(self) -> Num {
        Num { bits: 0i64.wrapping_sub(self.bits) }
    }

    /// The product: exact and rounded down while in range, else what `fixed` wraps to.
    pub open spec fn mul_spec(self, o: Num) -> Num {
        if mul_in_range(self.bits as int, o.bits as int) {
            Num { bits: exact_mul(self.bits as int, o.bits as int) as i64 }
        } else {
            Num { bits: fixed_mul(self.bits, o.bits) }
        }
    }

    /// The quotient: exact and rounded toward zero while in range, else what
    /// `fixed` wraps to.
    pub open spec fn div_spec(self, o: Num) -> Num {
        if div_in_range(self.bits as int, o.bits as int) {
            Num { bits: trunc_div(self.bits * ONE_BITS, o.bits as int) as i64 }
        } else {
            Num { bits: fixed_div(self.bits, o.bits) }
        }
    }

    pub open spec fn mul_int_spec(self, k: i64) -> Num {
        Num { bits: self.bits.wrapping_mul(k) }
    }

    /// Division by a positive integer, truncating toward zero as integer division does.
    pub open spec fn div_int_spec(self, k: i64) -> Num {
        Num { bits: trunc_div(self.bits as int, k as int) as i64 }
    }

    pub fn from_bits(bits: i64) -> (r: Num)
        ensures
            r.bits == bits,
    {
        Num { bits }
    }

    /// The number that stands for the integer `n`.
    pub fn from_int(n: i32) -> (r: Num)
        ensures
            r.bits == n * ONE_BITS,
    {
        let bits: i64 = (n as i64) * ONE_BITS;
        Num { bits }
    }

    pub fn add(self, o: Num) -> (r: Num)
        ensures
            r == self.add_spec(o),
    {
        Num { bits: self.bits.wrapping_add(o.bits) }
    }

    pub fn sub(self, o: Num) -> (r: Num)
        ensures
            r == self.sub_spec(o),
    {
        Num { bits: self.bits.wrapping_sub(o.bits) }
    }

    pub fn neg(self) -> (r: Num)
        ensures
            r == self.neg_spec(),
    {
        Num { bits: 0i64.wrapping_sub(self.bits) }
    }

    pub fn mul(self, o: Num) -> (r: Num)
        ensures
            r == self.mul_spec(o),
    {
        Num { bits: mul_bits(self.bits, o.bits) }
    }

    pub fn div(self, o: Num) -> (r: Num)
        requires
            o.bits != 0,
        ensures
            r == self.div_spec(o),
    {
        Num { bits: div_bits(self.bits, o.bits) }
    }

    pub fn mul_int(self, k: i64) -> (r: Num)
        ensures
            r == self.mul_int_spec(k),
    {
        Num { bits: self.bits.wrapping_mul(k) }
    }

    pub fn div_int(self, k: i64) -> (r: Num)
        requires
            k >= 2,
        ensures
            r == self.div_int_spec(k),
    {
        if self.bits >= 0 {
            Num { bits: self.bits / k }
        } else {
            // -bits == m + 1, computed without overflow
            let m: i64 = -(self.bits + 1);
            let q: i64 = m / k;
            let rem: i64 = m % k;
            proof {
                let mm = m as int;
                let kk = k as int;
                assert(mm == q * kk + rem && 0 <= rem < kk) by (nonlinear_arith)
                    requires
                        mm >= 0,
                        kk > 0,
                        q == mm / kk,
                        rem == mm % kk,
                ;
                assert(q < mm || mm == 0) by (nonlinear_arith)
                    requires
                        mm >= 0,
                        kk >= 2,
                        q == mm / kk,
                ;
                if rem + 1 == k {
                    assert((mm + 1) / kk == q + 1) by (nonlinear_arith)
                        requires
                            mm == q * kk + rem,
                            rem + 1 == kk,
                            kk > 0,
                    ;
                } else {
                    assert((mm + 1) / kk == q) by (nonlinear_arith)
                        requires
                            mm + 1 == q * kk + (rem + 1),
                            0 <= rem + 1 < kk,
                    ;
                }
            }
            if rem + 1 == k {
                Num { bits: -(q + 1) }
            } else {
                Num { bits: -q }
            }
        }
    }

    pub fn sqrt(self) -> (r: Num)
        requires
            self.bits >= 0,
        ensures
            r.bits >= 0,
            r.bits * r.bits <= self.bits * ONE_BITS,
            self.bits * ONE_BITS < (r.bits + 1) * (r.bits + 1),
    {
        Num { bits: sqrt_bits(self.bits) }
    }

    pub open spec fn sin_spec(self) -> Num {
        Num { bits: fixed_sin(fixed_wrap_phase(self.bits)) }
    }

    pub open spec fn cos_spec(self) -> Num {
        Num { bits: fixed_cos(fixed_wrap_phase(self.bits)) }
    }

    /// Sine of the angle, first brought into one turn about zero.
    pub fn sin(self) -> (r: Num)
        ensures
            r == self.sin_spec(),
    {
        Num { bits: sin_bits(wrap_phase_bits(self.bits)) }
    }

    /// Cosine of the angle, first brought into one turn about zero.
    pub fn cos(self) -> (r: Num)
        ensures
            r == self.cos_spec(),
    {
        Num { bits: cos_bits(wrap_phase_bits(self.bits)) }
    }

    /// Two-argument arctangent of `(y, x)`.
    pub fn atan2(y: Num, x: Num) -> (r: Num)
        requires
            atan2_defined(y.bits, x.bits),
        ensures
            r.bits == fixed_atan2(y.bits, x.bits),
    {
        Num { bits: atan2_bits(y.bits, x.bits) }
    }
}

} // verus!
