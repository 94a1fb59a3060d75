//! Fixed-point vector arithmetic for the simulation core.
//!
//! Coordinates, velocities and radii are integers counting thousandths of a
//! world unit. Division rounds toward zero, like the hardware it models, and
//! every executable operation carries bounds that rule out overflow.

use vstd::prelude::*;

verus! {

/// Fixed-point scale: one world unit is 1000 fixed-point steps.
pub const MILLI: i64 = 1000;

/// Mathematical 3-vector over unbounded integers; the model of [`Vec3Milli`].
pub struct V3 {
    pub x: int,
    pub y: int,
    pub z: int,
}

/// Absolute value over `int`.
pub open spec fn absi(a: int) -> int {
    if a >= 0 {
        a
    } else {
        -a
    }
}

/// Division rounding toward zero (the rounding of hardware integer division),
/// as opposed to the Euclidean rounding of `/` in specifications.
pub open spec fn div_trunc(p: int, den: int) -> int {
    if p >= 0 {
        p / den
    } else {
        -((-p) / den)
    }
}

/// `(a * num) / den`, rounded toward zero.
pub open spec fn muldiv_trunc(a: int, num: int, den: int) -> int {
    div_trunc(a * num, den)
}

impl V3 {
    pub open spec fn dot(self, o: V3) -> int {
        self.x * o.x + self.y * o.y + self.z * o.z
    }

    pub open spec fn norm_sq(self) -> int {
        self.dot(self)
    }

    pub open spec fn minus(self, o: V3) -> V3 {
        V3 { x: self.x - o.x, y: self.y - o.y, z: self.z - o.z }
    }

    pub open spec fn plus(self, o: V3) -> V3 {
        V3 { x: self.x + o.x, y: self.y + o.y, z: self.z + o.z }
    }

    pub open spec fn times(self, k: int) -> V3 {
        V3 { x: k * self.x, y: k * self.y, z: k * self.z }
    }

    /// Componentwise `(v * num) / den`, rounded toward zero.
    pub open spec fn scale_div(self, num: int, den: int) -> V3 {
        V3 {
            x: muldiv_trunc(self.x, num, den),
            y: muldiv_trunc(self.y, num, den),
            z: muldiv_trunc(self.z, num, den),
        }
    }

    pub open spec fn bounded(self, b: int) -> bool {
        &&& -b <= self.x <= b
        &&& -b <= self.y <= b
        &&& -b <= self.z <= b
    }
}

/// Fixed-point 3-vector in thousandths of a world unit.
#[derive(Clone, Copy, PartialEq, Eq, Structural, Debug)]
pub struct Vec3Milli {
    pub x: i64,
    pub y: i64,
    pub z: i64,
}

/// Fixed-point 2-vector (joystick output), thousandths of full deflection.
#[derive(Clone, Copy, PartialEq, Eq, Structural, Debug)]
pub struct Vec2Milli {
    pub x: i64,
    pub y: i64,
}

impl View for Vec3Milli {
    type V = V3;

    open spec fn view(&self) -> V3 {
        V3 { x: self.x as int, y: self.y as int, z: self.z as int }
    }
}

pub proof fn lemma_mul_abs_bound(x: int, y: int, bx: int, by: int)
    requires
        absi(x) <= bx,
        absi(y) <= by,
    ensures
        absi(x * y) <= bx * by,
        absi(x) * absi(y) <= bx * by,
    {
    assert(absi(x * y) <= bx * by && absi(x) * absi(y) <= bx * by) by (nonlinear_arith)
        requires
            absi(x) <= bx,
            absi(y) <= by,
    {
        assert(absi(x * y) == absi(x) * absi(y)) by {
            if x >= 0 && y >= 0 {
            } else if x >= 0 && y < 0 {
                assert(x * y == -(x * (-y)));
            } else if x < 0 && y >= 0 {
                assert(x * y == -((-x) * y));
            } else {
                assert(x * y == (-x) * (-y));
            }
        }
        assert(absi(x) * absi(y) <= bx * by);
    }
}

/// Squared distance is symmetric in its endpoints.
pub proof fn lemma_dist_sq_sym(a: V3, b: V3)
    ensures
        a.minus(b).norm_sq() == b.minus(a).norm_sq(),
{
    let u = a.minus(b);
    let w = b.minus(a);
    assert(u.x == -w.x && u.y == -w.y && u.z == -w.z);
    assert(u.x * u.x == w.x * w.x) by (nonlinear_arith)
        requires
            u.x == -w.x,
    ;
    assert(u.y * u.y == w.y * w.y) by (nonlinear_arith)
        requires
            u.y == -w.y,
    ;
    assert(u.z * u.z == w.z * w.z) by (nonlinear_arith)
        requires
            u.z == -w.z,
    ;
}

/// A square is never negative, so a sum of squares is not either.
pub proof fn lemma_norm_sq_nonneg(v: V3)
    ensures
        v.norm_sq() >= 0,
        v.norm_sq() == v.x * v.x + v.y * v.y + v.z * v.z,
{
    assert(v.x * v.x >= 0) by (nonlinear_arith);
    assert(v.y * v.y >= 0) by (nonlinear_arith);
    assert(v.z * v.z >= 0) by (nonlinear_arith);
}

/// Truncating division, with the quotient within the magnitude of `p`.
fn div_trunc_i64(p: i64, den: i64) -> (r: i64)
    requires
        0 < den,
        -0x7fff_ffff_ffff_ffff <= p,
    ensures
        r == div_trunc(p as int, den as int),
        absi(r as int) <= absi(p as int),
{
    if p >= 0 {
        let q: u64 = (p as u64) / (den as u64);
        proof {
            assert((p as u64) / (den as u64) <= (p as u64)) by (nonlinear_arith)
                requires
                    den as u64 >= 1,
            ;
        }
        q as i64
    } else {
        let np: u64 = (-p) as u64;
        let q: u64 = np / (den as u64);
        proof {
            assert(np / (den as u64) <= np) by (nonlinear_arith)
                requires
                    den as u64 >= 1,
            ;
        }
        -(q as i64)
    }
}

/// `(a * num) / den` rounded toward zero, guarded against overflow.
pub fn muldiv_trunc_i64(a: i64, num: i64, den: i64) -> (r: i64)
    requires
        0 < den,
        absi(a as int) * absi(num as int) <= 0x7fff_ffff_ffff_ffff,
    ensures
        r == muldiv_trunc(a as int, num as int, den as int),
        absi(r as int) <= absi(a as int) * absi(num as int),
{
    proof {
        lemma_mul_abs_bound(a as int, num as int, absi(a as int), absi(num as int));
    }
    let p: i64 = a * num;
    div_trunc_i64(p, den)
}

impl Vec3Milli {
    pub fn new(x: i64, y: i64, z: i64) -> (r: Vec3Milli)
        ensures
            r@ == (V3 { x: x as int, y: y as int, z: z as int }),
    {
        Vec3Milli { x, y, z }
    }

    pub fn zero() -> (r: Vec3Milli)
        ensures
            r@ == (V3 { x: 0, y: 0, z: 0 }),
    {
        Vec3Milli { x: 0, y: 0, z: 0 }
    }

    pub fn minus(&self, o: &Vec3Milli) -> (r: Vec3Milli)
        requires
            self@.bounded(0x2000_0000_0000_0000),
            o@.bounded(0x2000_0000_0000_0000),
        ensures
            r@ == self@.minus(o@),
    {
        Vec3Milli { x: self.x - o.x, y: self.y - o.y, z: self.z - o.z }
    }

    pub fn plus(&self, o: &Vec3Milli) -> (r: Vec3Milli)
        requires
            self@.bounded(0x2000_0000_0000_0000),
            o@.bounded(0x2000_0000_0000_0000),
        ensures
            r@ == self@.plus(o@),
    {
        Vec3Milli { x: self.x + o.x, y: self.y + o.y, z: self.z + o.z }
    }

    pub fn dot(&self, o: &Vec3Milli) -> (r: i64)
        requires
            self@.bounded(1_000_000_000),
            o@.bounded(1_000_000_000),
        ensures
            r == self@.dot(o@),
    {
        proof {
            lemma_mul_abs_bound(self.x as int, o.x as int, 1_000_000_000, 1_000_000_000);
            lemma_mul_abs_bound(self.y as int, o.y as int, 1_000_000_000, 1_000_000_000);
            lemma_mul_abs_bound(self.z as int, o.z as int, 1_000_000_000, 1_000_000_000);
        }
        self.x * o.x + self.y * o.y + self.z * o.z
    }

    pub fn norm_sq(&self) -> (r: i64)
        requires
            self@.bounded(1_000_000_000),
        ensures
            r == self@.norm_sq(),
            r >= 0,
    {
        proof {
            lemma_norm_sq_nonneg(self@);
        }
        self.dot(self)
    }

    /// Squared distance between two points, exact in fixed-point space.
    pub fn dist_sq(&self, o: &Vec3Milli) -> (r: i64)
        requires
            self@.bounded(500_000_000),
            o@.bounded(500_000_000),
        ensures
            r == self@.minus(o@).norm_sq(),
            r >= 0,
    {
        let d: Vec3Milli = self.minus(o);
        d.norm_sq()
    }

    /// Componentwise `(v * num) / den`, rounded toward zero.
    pub fn scale_div(&self, num: i64, den: i64) -> (r: Vec3Milli)
        requires
            0 < den,
            0 <= num,
            self@.bounded(1_000_000_000),
            num <= 9_000_000_000,
        ensures
            r@ == self@.scale_div(num as int, den as int),
            forall|b: int|
                self@.bounded(b) && b >= 0 ==> #[trigger] r@.bounded(b * num / (den as int)),
    {
        proof {
            lemma_mul_abs_bound(self.x as int, num as int, 1_000_000_000, 9_000_000_000);
            lemma_mul_abs_bound(self.y as int, num as int, 1_000_000_000, 9_000_000_000);
            lemma_mul_abs_bound(self.z as int, num as int, 1_000_000_000, 9_000_000_000);
        }
        let rx: i64 = muldiv_trunc_i64(self.x, num, den);
        let ry: i64 = muldiv_trunc_i64(self.y, num, den);
        let rz: i64 = muldiv_trunc_i64(self.z, num, den);
        proof {
            lemma_div_trunc_decomp(self@.x * num, den as int);
            lemma_div_trunc_decomp(self@.y * num, den as int);
            lemma_div_trunc_decomp(self@.z * num, den as int);
            assert forall|b: int| self@.bounded(b) && b >= 0 implies #[trigger] (V3 {
                x: rx as int,
                y: ry as int,
                z: rz as int,
            }).bounded(b * num / (den as int)) by {
                lemma_mul_abs_bound(self.x as int, num as int, b, num as int);
                lemma_mul_abs_bound(self.y as int, num as int, b, num as int);
                lemma_mul_abs_bound(self.z as int, num as int, b, num as int);
                vstd::arithmetic::div_mod::lemma_div_is_ordered(
                    absi(self@.x * num),
                    b * num,
                    den as int,
                );
                vstd::arithmetic::div_mod::lemma_div_is_ordered(
                    absi(self@.y * num),
                    b * num,
                    den as int,
                );
                vstd::arithmetic::div_mod::lemma_div_is_ordered(
                    absi(self@.z * num),
                    b * num,
                    den as int,
                );
            }
        }
        Vec3Milli { x: rx, y: ry, z: rz }
    }
}

/// Decomposes a truncating division into quotient and remainder: the
/// remainder carries the dividend's sign and stays below the divisor.
pub proof fn lemma_div_trunc_decomp(p: int, den: int)
    requires
        0 < den,
    ensures
        p == den * div_trunc(p, den) + (p - den * div_trunc(p, den)),
        absi(p - den * div_trunc(p, den)) < den,
        p >= 0 ==> p - den * div_trunc(p, den) >= 0 && div_trunc(p, den) >= 0,
        p <= 0 ==> p - den * div_trunc(p, den) <= 0 && div_trunc(p, den) <= 0,
        absi(div_trunc(p, den)) == absi(p) / den,
{
    if p >= 0 {
        vstd::arithmetic::div_mod::lemma_fundamental_div_mod(p, den);
        assert(0 <= p % den < den);
        assert(p / den >= 0) by (nonlinear_arith)
            requires
                p >= 0,
                den > 0,
                p == den * (p / den) + (p % den),
                0 <= p % den < den,
        ;
    } else {
        vstd::arithmetic::div_mod::lemma_fundamental_div_mod(-p, den);
        assert(0 <= (-p) % den < den);
        let m = (-p) / den;
        let rm = (-p) % den;
        assert(m >= 0) by (nonlinear_arith)
            requires
                -p >= 0,
                den > 0,
                -p == den * m + rm,
                0 <= rm < den,
        ;
        assert(div_trunc(p, den) == -m);
        assert(den * (-m) == -(den * m)) by (nonlinear_arith);
        assert(p - den * div_trunc(p, den) == -rm);
    }
}

/// One coordinate of a vector rescaled by `t / len`: the result stays within
/// `t`, and its square tracks the ideal value within one remainder step.
proof fn lemma_rescale_comp(x: int, t: int, len: int)
    requires
        1 <= len,
        0 <= t,
        absi(x) <= len,
    ensures
        absi(muldiv_trunc(x, t, len)) <= t,
        len * len * (muldiv_trunc(x, t, len) * muldiv_trunc(x, t, len)) >= t * t * (x * x) - 2
            * t * (len * len),
        len * len * (muldiv_trunc(x, t, len) * muldiv_trunc(x, t, len)) <= t * t * (x * x) + len
            * len,
{
    let p = x * t;
    lemma_div_trunc_decomp(p, len);
    let u = div_trunc(p, len);
    let e = p - len * u;
    lemma_mul_abs_bound(x, t, len, t);
    assert(absi(p) <= len * t);
    assert(absi(u) <= t) by (nonlinear_arith)
        requires
            1 <= len,
            0 <= t,
            len * u == p - e,
            absi(p) <= len * t,
            absi(e) < len,
    ;
    assert(p * e >= 0) by (nonlinear_arith)
        requires
            p >= 0 ==> e >= 0,
            p <= 0 ==> e <= 0,
    ;
    assert(len * len * (u * u) == p * p - 2 * (p * e) + e * e) by (nonlinear_arith)
        requires
            len * u == p - e,
    ;
    assert(p * p == t * t * (x * x)) by (nonlinear_arith)
        requires
            p == x * t,
    ;
    assert(e * e >= 0) by (nonlinear_arith);
    lemma_mul_abs_bound(e, e, len, len);
    assert(e * e <= len * len);
    lemma_mul_abs_bound(p, e, len * t, len);
    assert(p * e <= (len * t) * len);
    assert((len * t) * len == t * (len * len)) by (nonlinear_arith);
    assert(len * len * (u * u) >= t * t * (x * x) - 2 * t * (len * len)) by (nonlinear_arith)
        requires
            len * len * (u * u) == p * p - 2 * (p * e) + e * e,
            p * p == t * t * (x * x),
            p * e <= t * (len * len),
            e * e >= 0,
    ;
    assert(len * len * (u * u) <= t * t * (x * x) + len * len);
}

/// Predicate for the floor of a square root.
pub open spec fn is_sqrt_floor(q: int, r: int) -> bool {
    &&& 0 <= r
    &&& r * r <= q
    &&& q < (r + 1) * (r + 1)
}

/// Norm bounds for a vector rescaled toward length `t` by `t / len`,
/// where `len` is the floor square root of the vector's squared norm.
pub proof fn lemma_rescale_norm(v: V3, t: int, len: int)
    requires
        1 <= len,
        1 <= t,
        is_sqrt_floor(v.norm_sq(), len),
    ensures
        v.scale_div(t, len).bounded(t),
        v.scale_div(t, len).norm_sq() >= t * t - 6 * t,
        t * t <= v.norm_sq() ==> v.scale_div(t, len).norm_sq() <= t * t + 2 * t + 3,
{
    let q = v.norm_sq();
    assert(v.x * v.x >= 0) by (nonlinear_arith);
    assert(v.y * v.y >= 0) by (nonlinear_arith);
    assert(v.z * v.z >= 0) by (nonlinear_arith);
    assert(v.x * v.x <= q && v.y * v.y <= q && v.z * v.z <= q);
    assert(absi(v.x) <= len && absi(v.y) <= len && absi(v.z) <= len) by (nonlinear_arith)
        requires
            v.x * v.x <= q,
            v.y * v.y <= q,
            v.z * v.z <= q,
            q < (len + 1) * (len + 1),
            len >= 1,
    ;
    lemma_rescale_comp(v.x, t, len);
    lemma_rescale_comp(v.y, t, len);
    lemma_rescale_comp(v.z, t, len);
    let w = v.scale_div(t, len);
    let sw = w.x * w.x + w.y * w.y + w.z * w.z;
    assert(w.norm_sq() == sw);
    assert(sw >= t * t - 6 * t) by (nonlinear_arith)
        requires
            len >= 1,
            t >= 1,
            q == v.x * v.x + v.y * v.y + v.z * v.z,
            sw == w.x * w.x + w.y * w.y + w.z * w.z,
            len * len <= q,
            len * len * (w.x * w.x) >= t * t * (v.x * v.x) - 2 * t * (len * len),
            len * len * (w.y * w.y) >= t * t * (v.y * v.y) - 2 * t * (len * len),
            len * len * (w.z * w.z) >= t * t * (v.z * v.z) - 2 * t * (len * len),
    {
        assert(len * len * sw >= t * t * q - 6 * (t * (len * len)));
        assert(t * t * q >= t * t * (len * len));
        assert(len * len * sw >= (t * t - 6 * t) * (len * len));
    }
    if t * t <= q {
        assert(len >= t) by (nonlinear_arith)
            requires
                t * t <= q,
                q < (len + 1) * (len + 1),
                len >= 1,
                t >= 1,
        ;
        assert(sw <= t * t + 2 * t + 3) by (nonlinear_arith)
            requires
                len >= t,
                t >= 1,
                q == v.x * v.x + v.y * v.y + v.z * v.z,
                sw == w.x * w.x + w.y * w.y + w.z * w.z,
                q < (len + 1) * (len + 1),
                len * len * (w.x * w.x) <= t * t * (v.x * v.x) + len * len,
                len * len * (w.y * w.y) <= t * t * (v.y * v.y) + len * len,
                len * len * (w.z * w.z) <= t * t * (v.z * v.z) + len * len,
        {
            assert(len * len * sw <= t * t * q + 3 * (len * len));
            assert(q <= len * len + 2 * len);
            assert(t * t * q <= t * t * (len * len) + 2 * (t * t) * len);
            assert(2 * (t * t) * len <= 2 * (t * (len * len)));
            assert(len * len * sw <= (t * t + 2 * t + 3) * (len * len));
        }
    }
}

/// Integer square root: the greatest `r` with `r * r <= x`.
pub fn isqrt_u64(x: u64) -> (r: u64)
    ensures
        r * r <= x,
        x < (r + 1) * (r + 1),
{
    if x == 0 {
        return 0;
    }
    let mut lo: u64 = 0;
    let mut hi: u64 = if x < 0xffff_ffff {
        proof {
            assert((x + 1) * (x + 1) > x) by (nonlinear_arith)
                requires
                    x >= 1,
            ;
        }
        x + 1
    } else {
        proof {
            assert((0x1_0000_0000u64 as int) * (0x1_0000_0000u64 as int) > x as int)
                by (nonlinear_arith)
                requires
                    x <= 0xffff_ffff_ffff_ffffu64,
            ;
        }
        0x1_0000_0000
    };
    while lo + 1 < hi
        invariant
            lo < hi,
            hi <= 0x1_0000_0000,
            lo * lo <= x,
            x < hi * hi,
        decreases hi - lo,
    {
        let mid: u64 = lo + (hi - lo) / 2;
        proof {
            assert(mid * mid <= 0xffff_ffff * 0xffff_ffff) by (nonlinear_arith)
                requires
                    mid <= 0xffff_ffff,
            ;
        }
        if mid * mid <= x {
            lo = mid;
        } else {
            hi = mid;
        }
    }
    lo
}

/// Scales `v` toward length `target`: the fixed-point counterpart of
/// `v.normalize() * target`. The result's length is pinned within a few
/// fixed-point steps of `target`.
pub fn rescale_to(v: &Vec3Milli, target: i64) -> (r: Vec3Milli)
    requires
        1 <= target <= 1_000_000,
        v@.bounded(1_000_000_000),
        v@.norm_sq() > 0,
    ensures
        exists|len: int|
            #![auto]
            is_sqrt_floor(v@.norm_sq(), len) && r@ == v@.scale_div(target as int, len),
        r@.bounded(target as int),
        r@.norm_sq() >= target * target - 6 * target,
        target * target <= v@.norm_sq() ==> r@.norm_sq() <= target * target + 2 * target + 3,
{
    let q: i64 = v.norm_sq();
    let len: u64 = isqrt_u64(q as u64);
    proof {
        assert(len < 0x8000_0000_0000_0000u64) by (nonlinear_arith)
            requires
                len * len <= q as u64,
                q as u64 <= 0x7fff_ffff_ffff_ffffu64,
        ;
        assert(len >= 1) by (nonlinear_arith)
            requires
                (q as u64) < (len + 1) * (len + 1),
                q as u64 >= 1,
        ;
    }
    let li: i64 = len as i64;
    let r: Vec3Milli = v.scale_div(target, li);
    proof {
        lemma_rescale_norm(v@, target as int, li as int);
    }
    r
}

/// `v` with its radial component along `n` removed: the fixed-point
/// counterpart of `v - n * (v . n) / (n . n)`.
pub open spec fn tangent_spec(v: V3, n: V3) -> V3 {
    let d = v.dot(n);
    let q = n.norm_sq();
    V3 {
        x: v.x - muldiv_trunc(n.x, d, q),
        y: v.y - muldiv_trunc(n.y, d, q),
        z: v.z - muldiv_trunc(n.z, d, q),
    }
}

/// In exact arithmetic the projection is exactly tangent: scaling `v` by
/// `n . n` and removing `n * (v . n)` yields a vector orthogonal to `n`.
pub proof fn lemma_tangent_exact(v: V3, n: V3)
    ensures
        v.times(n.norm_sq()).minus(n.times(v.dot(n))).dot(n) == 0,
{
    let q = n.norm_sq();
    let d = v.dot(n);
    let w = v.times(q).minus(n.times(d));
    assert(w.dot(n) == (q * v.x - d * n.x) * n.x + (q * v.y - d * n.y) * n.y + (q * v.z - d * n.z)
        * n.z);
    assert((q * v.x - d * n.x) * n.x == q * (v.x * n.x) - d * (n.x * n.x)) by (nonlinear_arith);
    assert((q * v.y - d * n.y) * n.y == q * (v.y * n.y) - d * (n.y * n.y)) by (nonlinear_arith);
    assert((q * v.z - d * n.z) * n.z == q * (v.z * n.z) - d * (n.z * n.z)) by (nonlinear_arith);
    assert(q * (v.x * n.x) + q * (v.y * n.y) + q * (v.z * n.z) == q * d) by (nonlinear_arith)
        requires
            d == v.x * n.x + v.y * n.y + v.z * n.z,
    ;
    assert(d * (n.x * n.x) + d * (n.y * n.y) + d * (n.z * n.z) == d * q) by (nonlinear_arith)
        requires
            q == n.x * n.x + n.y * n.y + n.z * n.z,
    ;
    assert(q * d == d * q) by (nonlinear_arith);
}

/// The fixed-point projection is tangent up to one rounding step per axis:
/// its residual along `n` is at most `|n.x| + |n.y| + |n.z|`.
pub proof fn lemma_tangent_bound(v: V3, n: V3)
    requires
        n.norm_sq() > 0,
    ensures
        absi(tangent_spec(v, n).dot(n)) <= absi(n.x) + absi(n.y) + absi(n.z),
{
    let d = v.dot(n);
    let q = n.norm_sq();
    lemma_norm_sq_nonneg(n);
    lemma_div_trunc_decomp(n.x * d, q);
    lemma_div_trunc_decomp(n.y * d, q);
    lemma_div_trunc_decomp(n.z * d, q);
    let wx = div_trunc(n.x * d, q);
    let wy = div_trunc(n.y * d, q);
    let wz = div_trunc(n.z * d, q);
    let fx = n.x * d - q * wx;
    let fy = n.y * d - q * wy;
    let fz = n.z * d - q * wz;
    let s = tangent_spec(v, n).dot(n);
    assert(s == (v.x - wx) * n.x + (v.y - wy) * n.y + (v.z - wz) * n.z);
    assert(q * s == q * ((v.x - wx) * n.x) + q * ((v.y - wy) * n.y) + q * ((v.z - wz) * n.z))
        by (nonlinear_arith)
        requires
            s == (v.x - wx) * n.x + (v.y - wy) * n.y + (v.z - wz) * n.z,
    ;
    assert(q * ((v.x - wx) * n.x) == q * (v.x * n.x) - (q * wx) * n.x) by (nonlinear_arith);
    assert(q * ((v.y - wy) * n.y) == q * (v.y * n.y) - (q * wy) * n.y) by (nonlinear_arith);
    assert(q * ((v.z - wz) * n.z) == q * (v.z * n.z) - (q * wz) * n.z) by (nonlinear_arith);
    assert((q * wx) * n.x == d * (n.x * n.x) - fx * n.x) by (nonlinear_arith)
        requires
            q * wx == n.x * d - fx,
    ;
    assert((q * wy) * n.y == d * (n.y * n.y) - fy * n.y) by (nonlinear_arith)
        requires
            q * wy == n.y * d - fy,
    ;
    assert((q * wz) * n.z == d * (n.z * n.z) - fz * n.z) by (nonlinear_arith)
        requires
            q * wz == n.z * d - fz,
    ;
    assert(q * (v.x * n.x) + q * (v.y * n.y) + q * (v.z * n.z) == q * d) by (nonlinear_arith)
        requires
            d == v.x * n.x + v.y * n.y + v.z * n.z,
    ;
    assert(d * (n.x * n.x) + d * (n.y * n.y) + d * (n.z * n.z) == d * q) by (nonlinear_arith)
        requires
            q == n.x * n.x + n.y * n.y + n.z * n.z,
    ;
    assert(q * d == d * q) by (nonlinear_arith);
    assert(q * s == fx * n.x + fy * n.y + fz * n.z);
    lemma_mul_abs_bound(fx, n.x, q, absi(n.x));
    lemma_mul_abs_bound(fy, n.y, q, absi(n.y));
    lemma_mul_abs_bound(fz, n.z, q, absi(n.z));
    assert(absi(q * s) <= q * absi(n.x) + q * absi(n.y) + q * absi(n.z));
    assert(absi(s) <= absi(n.x) + absi(n.y) + absi(n.z)) by (nonlinear_arith)
        requires
            q > 0,
            absi(q * s) <= q * absi(n.x) + q * absi(n.y) + q * absi(n.z),
    {
        assert(absi(q * s) == q * absi(s));
        assert(q * absi(s) <= q * (absi(n.x) + absi(n.y) + absi(n.z)));
    }
}

/// Executable tangent projection. The normal must be a near-unit vector
/// (about 1000 fixed-point steps long), as produced by [`rescale_to`].
pub fn tangent_component(v: &Vec3Milli, n: &Vec3Milli) -> (r: Vec3Milli)
    requires
        v@.bounded(100_000_000),
        n@.bounded(1_100),
        n@.norm_sq() >= 900_000,
    ensures
        r@ == tangent_spec(v@, n@),
        r@.bounded(600_000_000),
        absi(r@.dot(n@)) <= absi(n@.x) + absi(n@.y) + absi(n@.z),
{
    let d: i64 = v.dot(n);
    let q: i64 = n.norm_sq();
    proof {
        lemma_mul_abs_bound(v@.x, n@.x, 100_000_000, 1_100);
        lemma_mul_abs_bound(v@.y, n@.y, 100_000_000, 1_100);
        lemma_mul_abs_bound(v@.z, n@.z, 100_000_000, 1_100);
        lemma_mul_abs_bound(n@.x, d as int, 1_100, 330_000_000_000);
        lemma_mul_abs_bound(n@.y, d as int, 1_100, 330_000_000_000);
        lemma_mul_abs_bound(n@.z, d as int, 1_100, 330_000_000_000);
    }
    let wx: i64 = muldiv_trunc_i64(n.x, d, q);
    let wy: i64 = muldiv_trunc_i64(n.y, d, q);
    let wz: i64 = muldiv_trunc_i64(n.z, d, q);
    proof {
        lemma_div_trunc_decomp(n@.x * d, q as int);
        lemma_div_trunc_decomp(n@.y * d, q as int);
        lemma_div_trunc_decomp(n@.z * d, q as int);
        assert(absi(wx as int) <= 500_000_000 && absi(wy as int) <= 500_000_000 && absi(
            wz as int,
        ) <= 500_000_000) by (nonlinear_arith)
            requires
                q >= 900_000,
                absi(wx as int) == absi(n@.x * d) / (q as int),
                absi(wy as int) == absi(n@.y * d) / (q as int),
                absi(wz as int) == absi(n@.z * d) / (q as int),
                absi(n@.x * d) <= 363_000_000_000_000,
                absi(n@.y * d) <= 363_000_000_000_000,
                absi(n@.z * d) <= 363_000_000_000_000,
        {
            assert(900_000 * (absi(n@.x * d) / 900_000) <= absi(n@.x * d));
            assert(absi(n@.x * d) / (q as int) <= absi(n@.x * d) / 900_000);
            assert(absi(n@.y * d) / (q as int) <= absi(n@.y * d) / 900_000);
            assert(absi(n@.z * d) / (q as int) <= absi(n@.z * d) / 900_000);
        }
        lemma_tangent_bound(v@, n@);
    }
    Vec3Milli { x: v.x - wx, y: v.y - wy, z: v.z - wz }
}

/// Friction decay of one velocity component: never reverses the sign, never
/// grows the magnitude, and strictly shrinks a nonzero component whenever the
/// retention factor is below one.
pub proof fn lemma_decay_contract(x: int, ret: int)
    requires
        0 <= ret <= 1000,
    ensures
        absi(muldiv_trunc(x, ret, 1000)) <= absi(x),
        x >= 0 ==> 0 <= muldiv_trunc(x, ret, 1000) <= x,
        x <= 0 ==> x <= muldiv_trunc(x, ret, 1000) <= 0,
        ret < 1000 && x != 0 ==> absi(muldiv_trunc(x, ret, 1000)) < absi(x),
{
    let p = x * ret;
    lemma_div_trunc_decomp(p, 1000);
    let u = div_trunc(p, 1000);
    assert((absi(u) <= absi(x)) && (x >= 0 ==> 0 <= u) && (x <= 0 ==> u <= 0) && (ret < 1000 && x
        != 0 ==> absi(u) < absi(x))) by (nonlinear_arith)
        requires
            0 <= ret <= 1000,
            p == x * ret,
            p == 1000 * u + (p - 1000 * u),
            absi(p - 1000 * u) < 1000,
            p >= 0 ==> (p - 1000 * u) >= 0 && u >= 0,
            p <= 0 ==> (p - 1000 * u) <= 0 && u <= 0,
    {
        assert(absi(p) == absi(x) * ret);
        assert(absi(p) <= absi(x) * 1000);
        assert(1000 * absi(u) <= absi(p));
        if ret < 1000 && x != 0 {
            assert(absi(p) <= absi(x) * 999);
            assert(1000 * absi(u) <= 999 * absi(x));
        }
    }
}

} // verus!
