//! Two-component fixed-point vectors.
use crate::num::{atan2_defined, exact_mul, fixed_atan2, mul_in_range, Num, ONE_BITS};
use vstd::prelude::*;

verus! {

/// Bits of the square root of the number with bits `n`: the `r >= 0` with
/// `r * r <= n * ONE_BITS < (r + 1) * (r + 1)`.
pub open spec fn is_root_bits(r: int, n: int) -> bool {
    r >= 0 && r * r <= n * ONE_BITS && n * ONE_BITS < (r + 1) * (r + 1)
}

pub open spec fn root_bits(n: int) -> int {
    choose|r: int| is_root_bits(r, n)
}

/// At most one value is the root of a given number.
pub proof fn lemma_root_unique(r1: int, r2: int, n: int)
    requires
        is_root_bits(r1, n),
        is_root_bits(r2, n),
    ensures
        r1 == r2,
{
    if r1 < r2 {
        assert((r1 + 1) * (r1 + 1) <= r2 * r2) by (nonlinear_arith)
            requires
                r1 >= 0,
                r1 + 1 <= r2,
        ;
    } else if r2 < r1 {
        assert((r2 + 1) * (r2 + 1) <= r1 * r1) by (nonlinear_arith)
            requires
                r2 >= 0,
                r2 + 1 <= r1,
        ;
    }
}

/// A 2D vector of fixed-point numbers; equality is by components.
#[derive(Clone, Copy, Debug, PartialEq, Eq, Structural)]
pub struct Vec2 {
    pub x: Num,
    pub y: Num,
}

/// Largest value (exclusive) of `x * x + y * y`, over the bits, for which the
/// squared length is computed without overflow.
pub open spec fn square_bound() -> int {
    0x8000_0000_0000_0000_0000_0000
}

impl Vec2 {
    pub open spec fn zero_spec() -> Vec2 {
        Vec2 { x: Num { bits: 0 }, y: Num { bits: 0 } }
    }

    pub open spec fn add_spec(self, o: Vec2) -> Vec2 {
        Vec2 { x: self.x.add_spec(o.x), y: self.y.add_spec(o.y) }
    }

    pub open spec fn sub_spec(self, o: Vec2) -> Vec2 {
        Vec2 { x: self.x.sub_spec(o.x), y: self.y.sub_spec(o.y) }
    }

    pub open spec fn mul_spec(self, o: Vec2) -> Vec2 {
        Vec2 { x: self.x.mul_spec(o.x), y: self.y.mul_spec(o.y) }
    }

    pub open spec fn div_spec(self, o: Vec2) -> Vec2 {
        Vec2 { x: self.x.div_spec(o.x), y: self.y.div_spec(o.y) }
    }

    pub open spec fn scale_spec(self, s: Num) -> Vec2 {
        Vec2 { x: self.x.mul_spec(s), y: self.y.mul_spec(s) }
    }

    pub open spec fn div_num_spec(self, s: Num) -> Vec2 {
        Vec2 { x: self.x.div_spec(s), y: self.y.div_spec(s) }
    }

    pub open spec fn length_sq_spec(self) -> Num {
        self.x.mul_spec(self.x).add_spec(self.y.mul_spec(self.y))
    }

    /// The squared length is computed without overflow.
    pub open spec fn fits(self) -> bool {
        self.x.bits * self.x.bits + self.y.bits * self.y.bits < square_bound()
    }

    pub open spec fn length_spec(self) -> Num {
        Num { bits: root_bits(self.length_sq_spec().bits as int) as i64 }
    }

    /// Unit vector; a vector whose length rounds to zero has no direction and
    /// gives the zero vector.
    pub open spec fn norm_spec(self) -> Vec2 {
        if self.length_spec().bits == 0 {
            Vec2::zero_spec()
        } else {
            self.div_num_spec(self.length_spec())
        }
    }

    pub open spec fn shrink_spec(self, by: Num) -> Vec2 {
        let len = self.length_spec();
        if by.bits >= len.bits || len.bits == 0 {
            Vec2::zero_spec()
        } else {
            self.scale_spec(len.sub_spec(by).div_spec(len))
        }
    }

    pub open spec fn rotated_spec(self, by: Num) -> Vec2 {
        let c = by.cos_spec();
        let s = by.sin_spec();
        Vec2 {
            x: self.x.mul_spec(c).add_spec(self.y.mul_spec(s.neg_spec())),
            y: self.x.mul_spec(s).add_spec(self.y.mul_spec(c)),
        }
    }

    pub fn zero() -> (r: Vec2)
        ensures
            r == Vec2::zero_spec(),
    {
        Vec2 { x: Num::zero(), y: Num::zero() }
    }

    /// Direction of the vector, by the two-argument arctangent of `(y, x)`.
    pub fn angle(&self) -> (r: Num)
        requires
            atan2_defined(self.y.bits, self.x.bits),
        ensures
            r.bits == fixed_atan2(self.y.bits, self.x.bits),
    {
        Num::atan2(self.y, self.x)
    }

    pub fn length_sq(&self) -> (r: Num)
        ensures
            r == self.length_sq_spec(),
    {
        self.x.mul(self.x).add(self.y.mul(self.y))
    }

    /// Each square is exact when the sum of squares is in range, and then their
    /// sum is a non-negative number that does not wrap.
    proof fn lemma_length_sq_exact(self)
        requires
            self.fits(),
        ensures
            self.length_sq_spec().bits >= 0,
    {
        let x = self.x.bits as int;
        let y = self.y.bits as int;
        let q = ONE_BITS as int;
        assert(mul_in_range(x, x) && mul_in_range(y, y)) by (nonlinear_arith)
            requires
                x * x + y * y < 0x8000_0000_0000_0000_0000_0000,
        ;
        assert(x * x / q >= 0 && y * y / q >= 0 && x * x / q + y * y / q < 0x8000_0000_0000_0000)
            by (nonlinear_arith)
            requires
                x * x + y * y < 0x8000_0000_0000_0000_0000_0000,
                q == 0x1_0000_0000,
        {
            assert(x * x >= 0 && y * y >= 0);
            assert(x * x / q + y * y / q <= (x * x + y * y) / q);
        }
    }

    /// Length by the fixed-point square root of `length_sq`.
    pub fn length(&self) -> (r: Num)
        requires
            self.fits(),
        ensures
            r == self.length_spec(),
            r.bits >= 0,
    {
        let sq = self.length_sq();
        proof {
            self.lemma_length_sq_exact();
        }
        let r = sq.sqrt();
        proof {
            lemma_root_unique(r.bits as int, root_bits(sq.bits as int), sq.bits as int);
        }
        r
    }

    pub fn norm(&self) -> (r: Vec2)
        requires
            self.fits(),
        ensures
            r == self.norm_spec(),
    {
        let len = self.length();
        if len.bits == 0 {
            Vec2::zero()
        } else {
            self.div_num(len)
        }
    }

    /// The vector in the same direction with length `by`.
    pub fn rescale(&self, by: Num) -> (r: Vec2)
        requires
            self.fits(),
        ensures
            r == self.norm_spec().scale_spec(by),
    {
        self.norm().scale(by)
    }

    /// Reduces the length by `by`, clamped at the zero vector.
    pub fn shrink(&self, by: Num) -> (r: Vec2)
        requires
            self.fits(),
        ensures
            r == self.shrink_spec(by),
            by.bits >= self.length_spec().bits ==> r == Vec2::zero_spec(),
    {
        let len = self.length();
        if by.bits >= len.bits || len.bits == 0 {
            Vec2::zero()
        } else {
            self.scale(len.sub(by).div(len))
        }
    }

    /// Rotation by the angle `by`, with the standard rotation matrix.
    pub fn rotated(&self, by: Num) -> (r: Vec2)
        ensures
            r == self.rotated_spec(by),
    {
        let c = by.cos();
        let s = by.sin();
        Vec2 { x: self.x.mul(c).add(self.y.mul(s.neg())), y: self.x.mul(s).add(self.y.mul(c)) }
    }

    pub fn xy(x: Num, y: Num) -> (r: Vec2)
        ensures
            r.x == x,
            r.y == y,
    {
        Vec2 { x, y }
    }

    pub fn diagonal(coord: Num) -> (r: Vec2)
        ensures
            r.x == coord,
            r.y == coord,
    {
        Vec2 { x: coord, y: coord }
    }

    /// The diagonal vector of length `len`: each component is `len / sqrt(2)`.
    pub fn diagonal_len(len: Num) -> (r: Vec2)
        ensures
            r.x == len.mul_spec(Num { bits: 3037000499 }),
            r.y == r.x,
    {
        Vec2::diagonal(len.mul(Num::frac_1_sqrt_2()))
    }

    pub fn polar(length: Num, angle: Num) -> (r: Vec2)
        ensures
            r.x == angle.cos_spec().mul_spec(length),
            r.y == angle.sin_spec().mul_spec(length),
    {
        Vec2 { x: angle.cos().mul(length), y: angle.sin().mul(length) }
    }

    pub fn unit(angle: Num) -> (r: Vec2)
        ensures
            r.x == angle.cos_spec(),
            r.y == angle.sin_spec(),
    {
        Vec2 { x: angle.cos(), y: angle.sin() }
    }

    pub fn on_x(length: Num) -> (r: Vec2)
        ensures
            r.x == length,
            r.y.bits == 0,
    {
        Vec2 { x: length, y: Num::zero() }
    }

    pub fn on_y(length: Num) -> (r: Vec2)
        ensures
            r.x.bits == 0,
            r.y == length,
    {
        Vec2 { x: Num::zero(), y: length }
    }

    pub fn add(self, o: Vec2) -> (r: Vec2)
        ensures
            r == self.add_spec(o),
    {
        Vec2 { x: self.x.add(o.x), y: self.y.add(o.y) }
    }

    pub fn sub(self, o: Vec2) -> (r: Vec2)
        ensures
            r == self.sub_spec(o),
    {
        Vec2 { x: self.x.sub(o.x), y: self.y.sub(o.y) }
    }

    /// Component-wise product.
    pub fn mul(self, o: Vec2) -> (r: Vec2)
        ensures
            r == self.mul_spec(o),
    {
        Vec2 { x: self.x.mul(o.x), y: self.y.mul(o.y) }
    }

    /// Component-wise quotient.
    pub fn div(self, o: Vec2) -> (r: Vec2)
        requires
            o.x.bits != 0,
            o.y.bits != 0,
        ensures
            r == self.div_spec(o),
    {
        Vec2 { x: self.x.div(o.x), y: self.y.div(o.y) }
    }

    /// Product with a scalar.
    pub fn scale(self, s: Num) -> (r: Vec2)
        ensures
            r == self.scale_spec(s),
    {
        Vec2 { x: self.x.mul(s), y: self.y.mul(s) }
    }

    /// Quotient by a scalar.
    pub fn div_num(self, s: Num) -> (r: Vec2)
        requires
            s.bits != 0,
        ensures
            r == self.div_num_spec(s),
    {
        Vec2 { x: self.x.div(s), y: self.y.div(s) }
    }

    pub fn add_assign(&mut self, o: Vec2)
        ensures
            *final(self) == old(self).add_spec(o),
    {
        self.x = self.x.add(o.x);
        self.y = self.y.add(o.y);
    }

    pub fn sub_assign(&mut self, o: Vec2)
        ensures
            *final(self) == old(self).sub_spec(o),
    {
        self.x = self.x.sub(o.x);
        self.y = self.y.sub(o.y);
    }

    pub fn mul_assign(&mut self, o: Vec2)
        ensures
            *final(self) == old(self).mul_spec(o),
    {
        self.x = self.x.mul(o.x);
        self.y = self.y.mul(o.y);
    }

    pub fn div_assign(&mut self, o: Vec2)
        requires
            o.x.bits != 0,
            o.y.bits != 0,
        ensures
            *final(self) == old(self).div_spec(o),
    {
        self.x = self.x.div(o.x);
        self.y = self.y.div(o.y);
    }

    pub fn scale_assign(&mut self, s: Num)
        ensures
            *final(self) == old(self).scale_spec(s),
    {
        self.x = self.x.mul(s);
        self.y = self.y.mul(s);
    }

    pub fn div_num_assign(&mut self, s: Num)
        requires
            s.bits != 0,
        ensures
            *final(self) == old(self).div_num_spec(s),
    {
        self.x = self.x.div(s);
        self.y = self.y.div(s);
    }
}

impl Default for Vec2 {
    fn default() -> (r: Vec2)
        ensures
            r == Vec2::zero_spec(),
    {
        Vec2::zero()
    }
}

/// The product of two whole numbers `i` and `j` is the whole number `i * j` when
/// that fits the integer part.
proof fn lemma_mul_whole(u: Num, w: Num, i: int, j: int)
    requires
        u.bits == i * ONE_BITS,
        w.bits == j * ONE_BITS,
        -0x8000_0000 < i * j < 0x8000_0000,
    ensures
        u.mul_spec(w).bits == i * j * ONE_BITS,
{
    let q = ONE_BITS as int;
    assert(u.bits * w.bits == (i * j * q) * q) by (nonlinear_arith)
        requires
            u.bits == i * q,
            w.bits == j * q,
    ;
    assert(mul_in_range(u.bits as int, w.bits as int)) by (nonlinear_arith)
        requires
            u.bits * w.bits == (i * j * q) * q,
            -0x8000_0000 < i * j < 0x8000_0000,
            q == 0x1_0000_0000,
    ;
    vstd::arithmetic::div_mod::lemma_div_multiples_vanish(i * j * q, q);
    assert(exact_mul(u.bits as int, w.bits as int) == i * j * q);
}

/// Whole-number components and scalar, of moderate size: scaling a vector by `s`
/// multiplies its squared length by `s * s` exactly.
pub proof fn lemma_scale_length_sq_whole(v: Vec2, s: Num, a: int, b: int, k: int)
    requires
        v.x.bits == a * ONE_BITS,
        v.y.bits == b * ONE_BITS,
        s.bits == k * ONE_BITS,
        (a * a + b * b) * (k * k + 1) < 0x8000_0000,
    ensures
        v.scale_spec(s).length_sq_spec() == v.length_sq_spec().mul_spec(s).mul_spec(s),
{
    let q = ONE_BITS as int;
    let big = (a * a + b * b) * (k * k + 1);
    assert(0 <= a * a * (k * k) <= big && 0 <= b * b * (k * k) <= big && 0 <= a * a <= big
        && 0 <= b * b <= big && 0 <= a * a + b * b <= big && 0 <= (a * a + b * b) * k * k <= big && -big <= (a * a + b
        * b) * k <= big && -big <= a * k <= big && -big <= b * k <= big) by (nonlinear_arith)
        requires
            big == (a * a + b * b) * (k * k + 1),
    ;
    // left side: each component scaled, then squared
    lemma_mul_whole(v.x, s, a, k);
    lemma_mul_whole(v.y, s, b, k);
    let sx = v.scale_spec(s).x;
    let sy = v.scale_spec(s).y;
    assert((a * k) * (a * k) == a * a * (k * k) && (b * k) * (b * k) == b * b * (k * k))
        by (nonlinear_arith);
    lemma_mul_whole(sx, sx, a * k, a * k);
    lemma_mul_whole(sy, sy, b * k, b * k);
    // right side: squared length, then scaled twice
    lemma_mul_whole(v.x, v.x, a, a);
    lemma_mul_whole(v.y, v.y, b, b);
    let l = v.length_sq_spec();
    assert(a * a * q + b * b * q == (a * a + b * b) * q && 0 <= (a * a + b * b) * q
        < 0x8000_0000_0000_0000) by (nonlinear_arith)
        requires
            0 <= a * a + b * b <= big,
            big < 0x8000_0000,
            q == 0x1_0000_0000,
    ;
    assert(l.bits == (a * a + b * b) * q);
    lemma_mul_whole(l, s, a * a + b * b, k);
    let m = l.mul_spec(s);
    assert((a * a + b * b) * k * k == (a * a + b * b) * k * k);
    lemma_mul_whole(m, s, (a * a + b * b) * k, k);
    assert(a * k * (a * k) * q + b * k * (b * k) * q == (a * a + b * b) * k * k * q && 0 <= (a
        * a + b * b) * k * k * q < 0x8000_0000_0000_0000) by (nonlinear_arith)
        requires
            0 <= (a * a + b * b) * k * k <= big,
            big < 0x8000_0000,
            q == 0x1_0000_0000,
    ;
}

/// A product in range is the exact product rounded down: `r * ONE <= a * b < (r + 1) * ONE`.
proof fn lemma_mul_floor(u: Num, w: Num)
    requires
        mul_in_range(u.bits as int, w.bits as int),
    ensures
        u.mul_spec(w).bits * ONE_BITS <= u.bits * w.bits < u.mul_spec(w).bits * ONE_BITS
            + ONE_BITS,
{
    let q = ONE_BITS as int;
    let p = u.bits * w.bits;
    vstd::arithmetic::div_mod::lemma_fundamental_div_mod(p, q);
    vstd::arithmetic::div_mod::lemma_mod_bound(p, q);
}

pub open spec fn abs(a: int) -> int {
    if a < 0 {
        -a
    } else {
        a
    }
}

/// Rounding `p` down by less than `q` moves its square by at most `q * (2|p| + q)`.
proof fn lemma_square_err(p: int, e: int, q: int)
    requires
        p - q < e <= p,
        q > 0,
    ensures
        abs(e * e - p * p) <= q * (2 * abs(p) + q),
{
    let d = p - e;
    assert(e * e - p * p == d * d - 2 * p * d) by (nonlinear_arith)
        requires
            d == p - e,
    ;
    assert(0 <= d < q);
    assert(0 <= d * d <= q * q) by (nonlinear_arith)
        requires
            0 <= d < q,
    ;
    assert(abs(2 * p * d) <= 2 * abs(p) * q) by (nonlinear_arith)
        requires
            0 <= d < q,
    {
        if p < 0 {
            assert(2 * (-p) * d <= 2 * (-p) * q) by (nonlinear_arith)
                requires
                    p < 0,
                    0 <= d < q,
            ;
        } else {
            assert(2 * p * d <= 2 * p * q) by (nonlinear_arith)
                requires
                    p >= 0,
                    0 <= d < q,
            ;
        }
    }
    assert(q * (2 * abs(p) + q) == 2 * abs(p) * q + q * q) by (nonlinear_arith);
}

/// Bound on the magnitude of the bits in `lemma_scale_length_sq`: 128 units.
pub open spec fn scale_bound() -> int {
    0x80_0000_0000
}

/// Scaling a vector by `s` multiplies its squared length by `s * s`, up to the
/// rounding of the representation: over the bits, with `ONE = 2^32`,
/// `|(v * s).length_sq() - v.length_sq() * s * s| * ONE^2` is at most
/// `2 (|x| + |y|) |s| + 2 s^2 + ONE |s| + 4 ONE^2`, for components and scalar of
/// magnitude at most 128, where nothing overflows.
pub proof fn lemma_scale_length_sq(v: Vec2, s: Num)
    requires
        -scale_bound() <= v.x.bits <= scale_bound(),
        -scale_bound() <= v.y.bits <= scale_bound(),
        -scale_bound() <= s.bits <= scale_bound(),
    ensures
        abs(v.scale_spec(s).length_sq_spec().bits - v.length_sq_spec().mul_spec(s).mul_spec(
            s,
        ).bits) * (ONE_BITS * ONE_BITS) <= 2 * (abs(v.x.bits as int) + abs(v.y.bits as int))
            * abs(s.bits as int) + 2 * (s.bits * s.bits) + ONE_BITS * abs(s.bits as int) + 4 * (
        ONE_BITS * ONE_BITS),
{
    let q = ONE_BITS as int;
    let bd = scale_bound();
    let (x, y, sb) = (v.x.bits as int, v.y.bits as int, s.bits as int);
    let t = x * x * (sb * sb) + y * y * (sb * sb);
    // the scaled components
    assert(-bd * bd <= x * sb <= bd * bd && -bd * bd <= y * sb <= bd * bd && 0 <= x * x <= bd
        * bd && 0 <= y * y <= bd * bd) by (nonlinear_arith)
        requires
            -bd <= x <= bd,
            -bd <= y <= bd,
            -bd <= sb <= bd,
    ;
    lemma_mul_floor(v.x, s);
    lemma_mul_floor(v.y, s);
    let w = v.scale_spec(s);
    let (cx, cy) = (w.x.bits as int, w.y.bits as int);
    assert(-0x4000_0000_0001 <= cx <= 0x4000_0000_0000 && -0x4000_0000_0001 <= cy
        <= 0x4000_0000_0000) by (nonlinear_arith)
        requires
            cx * q <= x * sb < cx * q + q,
            cy * q <= y * sb < cy * q + q,
            -bd * bd <= x * sb <= bd * bd,
            -bd * bd <= y * sb <= bd * bd,
            q == 0x1_0000_0000,
            bd == 0x80_0000_0000,
    ;
    assert(0 <= cx * cx <= 0x1000_0000_0000_8000_0000_0001 && 0 <= cy * cy
        <= 0x1000_0000_0000_8000_0000_0001) by (nonlinear_arith)
        requires
            -0x4000_0000_0001 <= cx <= 0x4000_0000_0000,
            -0x4000_0000_0001 <= cy <= 0x4000_0000_0000,
    ;
    lemma_mul_floor(w.x, w.x);
    lemma_mul_floor(w.y, w.y);
    let (a1, a2) = (w.x.mul_spec(w.x).bits as int, w.y.mul_spec(w.y).bits as int);
    assert(0 <= a1 <= 0x1000_0000_0000_8000 && 0 <= a2 <= 0x1000_0000_0000_8000)
        by (nonlinear_arith)
        requires
            a1 * q <= cx * cx < a1 * q + q,
            a2 * q <= cy * cy < a2 * q + q,
            0 <= cx * cx <= 0x1000_0000_0000_8000_0000_0001,
            0 <= cy * cy <= 0x1000_0000_0000_8000_0000_0001,
            q == 0x1_0000_0000,
    ;
    let a = w.length_sq_spec().bits as int;
    assert(a == a1 + a2);
    // the squared length, then scaled twice
    lemma_mul_floor(v.x, v.x);
    lemma_mul_floor(v.y, v.y);
    let (l1, l2) = (v.x.mul_spec(v.x).bits as int, v.y.mul_spec(v.y).bits as int);
    assert(0 <= l1 <= 0x4000_0000_0000 && 0 <= l2 <= 0x4000_0000_0000)
        by (nonlinear_arith)
        requires
            l1 * q <= x * x < l1 * q + q,
            l2 * q <= y * y < l2 * q + q,
            0 <= x * x <= bd * bd,
            0 <= y * y <= bd * bd,
            q == 0x1_0000_0000,
            bd == 0x80_0000_0000,
    ;
    let lv = v.length_sq_spec();
    let l = lv.bits as int;
    assert(l == l1 + l2);
    assert(-0x40_0000_0000_0000_0000_0000 <= l * sb <= 0x40_0000_0000_0000_0000_0000)
        by (nonlinear_arith)
        requires
            0 <= l <= 0x8000_0000_0000,
            -bd <= sb <= bd,
            bd == 0x80_0000_0000,
    ;
    lemma_mul_floor(lv, s);
    let mv = lv.mul_spec(s);
    let m = mv.bits as int;
    assert(-0x40_0000_0000_0001 <= m <= 0x40_0000_0000_0000) by (nonlinear_arith)
        requires
            m * q <= l * sb < m * q + q,
            -0x40_0000_0000_0000_0000_0000 <= l * sb <= 0x40_0000_0000_0000_0000_0000,
            q == 0x1_0000_0000,
    ;
    assert(-0x2000_0000_0000_0080_0000_0000 <= m * sb <= 0x2000_0000_0000_0080_0000_0000)
        by (nonlinear_arith)
        requires
            -0x40_0000_0000_0001 <= m <= 0x40_0000_0000_0000,
            -bd <= sb <= bd,
            bd == 0x80_0000_0000,
    ;
    lemma_mul_floor(mv, s);
    let r = mv.mul_spec(s).bits as int;
    // left side against the exact value t
    lemma_square_err(x * sb, cx * q, q);
    lemma_square_err(y * sb, cy * q, q);
    let ex = q * (2 * abs(x * sb) + q);
    let ey = q * (2 * abs(y * sb) + q);
    assert(abs(q * q * q * a - t) <= ex + ey + 2 * (q * q * q)) by (nonlinear_arith)
        requires
            a == a1 + a2,
            a1 * q <= cx * cx < a1 * q + q,
            a2 * q <= cy * cy < a2 * q + q,
            abs((cx * q) * (cx * q) - (x * sb) * (x * sb)) <= ex,
            abs((cy * q) * (cy * q) - (y * sb) * (y * sb)) <= ey,
            t == x * x * (sb * sb) + y * y * (sb * sb),
            q > 0,
    {
        assert(q * q * (a1 * q) <= q * q * (cx * cx) < q * q * (a1 * q) + q * q * q);
        assert(q * q * (a2 * q) <= q * q * (cy * cy) < q * q * (a2 * q) + q * q * q);
        assert((cx * q) * (cx * q) == q * q * (cx * cx));
        assert((cy * q) * (cy * q) == q * q * (cy * cy));
        assert((x * sb) * (x * sb) == x * x * (sb * sb));
        assert((y * sb) * (y * sb) == y * y * (sb * sb));
    }
    // right side against the exact value t
    let u = x * x + y * y;
    let ss = sb * sb;
    assert(t == ss * u) by (nonlinear_arith)
        requires
            t == x * x * (sb * sb) + y * y * (sb * sb),
            u == x * x + y * y,
            ss == sb * sb,
    ;
    assert(u - 2 * q < l * q <= u) by (nonlinear_arith)
        requires
            l == l1 + l2,
            l1 * q <= x * x < l1 * q + q,
            l2 * q <= y * y < l2 * q + q,
            u == x * x + y * y,
    ;
    let z1 = q * q * q * r;
    let z2 = q * q * (m * sb);
    let z3 = q * sb * (l * sb);
    assert(z1 <= z2 < z1 + q * q * q) by (nonlinear_arith)
        requires
            r * q <= m * sb < r * q + q,
            z1 == q * q * q * r,
            z2 == q * q * (m * sb),
            q > 0,
    ;
    assert(abs(z2 - z3) <= q * q * abs(sb)) by (nonlinear_arith)
        requires
            m * q <= l * sb < m * q + q,
            z2 == q * q * (m * sb),
            z3 == q * sb * (l * sb),
            q > 0,
    {
        assert(z2 == q * sb * (m * q));
        if sb >= 0 {
            assert(q * sb * (l * sb - q) <= q * sb * (m * q) <= q * sb * (l * sb));
        } else {
            assert(q * sb * (l * sb) <= q * sb * (m * q) <= q * sb * (l * sb - q));
        }
    }
    assert(ss * (u - 2 * q) <= z3 <= ss * u) by (nonlinear_arith)
        requires
            u - 2 * q < l * q <= u,
            z3 == q * sb * (l * sb),
            ss == sb * sb,
    {
        assert(z3 == ss * (l * q));
        assert(ss >= 0);
    }
    assert(ss * (u - 2 * q) == ss * u - 2 * q * ss) by (nonlinear_arith);
    assert(abs(z1 - t) <= q * q * q + q * q * abs(sb) + 2 * q * ss);
    // together, divided by one unit
    let e1 = ex + ey + 2 * (q * q * q);
    let e2 = q * q * q + q * q * abs(sb) + 2 * q * ss;
    let qa = q * q * q * a;
    let d = a - r;
    assert(q * (abs(d) * (q * q)) == abs(qa - z1)) by (nonlinear_arith)
        requires
            qa == q * q * q * a,
            z1 == q * q * q * r,
            d == a - r,
            q > 0,
    {
        assert(qa - z1 == q * q * q * d);
        if d < 0 {
            assert(abs(qa - z1) == q * q * q * (-d));
        }
    }
    assert(abs(qa - z1) <= e1 + e2);
    let rhs = 2 * (abs(x) + abs(y)) * abs(sb) + 2 * (sb * sb) + q * abs(sb) + 4 * (q * q);
    assert(e1 + e2 <= q * rhs) by (nonlinear_arith)
        requires
            e1 == ex + ey + 2 * (q * q * q),
            e2 == q * q * q + q * q * abs(sb) + 2 * q * ss,
            ex == q * (2 * abs(x * sb) + q),
            ey == q * (2 * abs(y * sb) + q),
            ss == sb * sb,
            rhs == 2 * (abs(x) + abs(y)) * abs(sb) + 2 * (sb * sb) + q * abs(sb) + 4 * (q * q),
            q == 0x1_0000_0000,
    {
        assert(abs(x * sb) == abs(x) * abs(sb));
        assert(abs(y * sb) == abs(y) * abs(sb));
    }
    assert(abs(d) * (q * q) <= rhs) by (nonlinear_arith)
        requires
            q * (abs(d) * (q * q)) <= q * rhs,
            q > 0,
    ;
}

} // verus!
