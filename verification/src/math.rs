//! Fixed-point scalars and 2D vectors.
//!
//! All lengths are `i64` values in milli-units: `UNIT` of them make one world
//! unit. Unit-length directions (surface normals) are stored at the same
//! scale, so a normal `n` satisfies `n.x * n.x + n.y * n.y == UNIT * UNIT`.

use vstd::prelude::*;

verus! {

use vstd::arithmetic::div_mod::lemma_fundamental_div_mod;
use vstd::arithmetic::div_mod::lemma_mod_division_less_than_divisor;
use vstd::arithmetic::div_mod::lemma_div_pos_is_pos;

/// Milli-units in one world unit: the fixed-point scale.
pub const UNIT: i64 = 1000;

/// Buffer kept between the collider and any surface, in milli-units
/// (0.015 world units).
pub const SKIN_WIDTH: i64 = 15;

/// Iteration budget of the collide-and-slide resolver.
pub const MAX_BOUNCES: u32 = 5;

/// Largest magnitude of a coordinate of a position or a surface offset.
pub const POS_LIMIT: i64 = 1_000_000_000;

/// Largest magnitude of a component of a per-tick desired displacement.
pub const DISP_LIMIT: i64 = 1_000_000;

/// Largest magnitude of a velocity component, in milli-units per second.
pub const VEL_LIMIT: i64 = 1_000_000;

/// Largest collider radius, in milli-units.
pub const RADIUS_LIMIT: i64 = 1_000_000;

/// Largest timestep, in milli-seconds (one second).
pub const DT_LIMIT: i64 = 1000;

/// Largest magnitude of a component of a resolved displacement.
pub const RESULT_LIMIT: i64 = 126_000_000;

/// A 2D vector of fixed-point coordinates.
#[derive(Clone, Copy, Debug, PartialEq, Eq, Structural)]
pub struct Vec2 {
    pub x: i64,
    pub y: i64,
}

impl Vec2 {
    pub fn new(x: i64, y: i64) -> (v: Vec2)
        ensures
            v == (Vec2 { x, y }),
    {
        Vec2 { x, y }
    }

    /// The zero vector.
    pub open spec fn spec_zero() -> Vec2 {
        Vec2 { x: 0, y: 0 }
    }

    pub fn zero() -> (v: Vec2)
        ensures
            v == Vec2::spec_zero(),
    {
        Vec2 { x: 0, y: 0 }
    }

    pub open spec fn is_zero(self) -> bool {
        self.x == 0 && self.y == 0
    }
}

/// Magnitude of an integer.
pub open spec fn iabs(a: int) -> int {
    if a < 0 {
        -a
    } else {
        a
    }
}

/// Dot product, as a mathematical integer.
pub open spec fn dot2(a: Vec2, b: Vec2) -> int {
    a.x * b.x + a.y * b.y
}

/// `n` is a unit vector at the fixed-point scale.
pub open spec fn is_unit(n: Vec2) -> bool {
    n.x * n.x + n.y * n.y == UNIT * UNIT
}

/// A product of bounded factors is bounded.
pub proof fn lemma_mul_bound(a: int, b: int, ca: int, cb: int)
    by (nonlinear_arith)
    requires
        iabs(a) <= ca,
        iabs(b) <= cb,
    ensures
        iabs(a * b) <= ca * cb,
        -(ca * cb) <= a * b <= ca * cb,
{
}

/// A unit vector's components stay within the fixed-point scale.
pub proof fn lemma_unit_bounds(n: Vec2)
    by (nonlinear_arith)
    requires
        is_unit(n),
    ensures
        -UNIT <= n.x <= UNIT,
        -UNIT <= n.y <= UNIT,
{
}

/// Division that truncates toward zero (the result of `a / b` on machine
/// integers), defined for a positive divisor.
pub open spec fn tdiv(a: int, b: int) -> int
    recommends
        b > 0,
{
    if a >= 0 {
        a / b
    } else {
        -((-a) / b)
    }
}

/// The quotient `tdiv(a, b)` keeps the sign of `a`, never grows past `a`,
/// and leaves a remainder smaller than `b`.
pub proof fn lemma_tdiv(a: int, b: int)
    requires
        b > 0,
    ensures
        a >= 0 ==> 0 <= tdiv(a, b) && b * tdiv(a, b) <= a < b * tdiv(a, b) + b,
        a < 0 ==> tdiv(a, b) <= 0 && b * tdiv(a, b) >= a > b * tdiv(a, b) - b,
        iabs(b * tdiv(a, b)) <= iabs(a),
        iabs(a - b * tdiv(a, b)) < b,
{
    if a >= 0 {
        lemma_fundamental_div_mod(a, b);
        lemma_mod_division_less_than_divisor(a, b);
        let q = a / b;
        assert(q >= 0) by (nonlinear_arith)
            requires
                b > 0,
                a >= 0,
                a == b * q + a % b,
                0 <= a % b < b,
        ;
        assert(b * q >= 0) by (nonlinear_arith)
            requires
                b > 0,
                q >= 0,
        ;
    } else {
        let m = -a;
        lemma_fundamental_div_mod(m, b);
        lemma_mod_division_less_than_divisor(m, b);
        let q = m / b;
        assert(q >= 0) by (nonlinear_arith)
            requires
                b > 0,
                m >= 0,
                m == b * q + m % b,
                0 <= m % b < b,
        ;
        assert(b * q >= 0) by (nonlinear_arith)
            requires
                b > 0,
                q >= 0,
        ;
        assert(b * (-q) == -(b * q)) by (nonlinear_arith);
        assert(tdiv(a, b) == -q);
        assert(b * tdiv(a, b) == -(b * q));
    }
}

/// Exec form of `tdiv` on `i64`.
pub fn tdiv_i64(a: i64, b: i64) -> (q: i64)
    requires
        0 < b,
        a > i64::MIN,
    ensures
        q == tdiv(a as int, b as int),
{
    if a >= 0 {
        proof {
            lemma_tdiv(a as int, b as int);
        }
        ((a as u64) / (b as u64)) as i64
    } else {
        proof {
            lemma_tdiv(a as int, b as int);
            lemma_tdiv(-(a as int), b as int);
        }
        -((((-a) as u64) / (b as u64)) as i64)
    }
}

/// A `Vec2` made of mathematical integers known to be in range.
pub open spec fn v2(x: int, y: int) -> Vec2 {
    Vec2 { x: x as i64, y: y as i64 }
}

/// Powers of two, for the growth bound of the resolver loop.
pub open spec fn two_pow(k: nat) -> nat
    decreases k,
{
    if k == 0 {
        1
    } else {
        2 * two_pow((k - 1) as nat)
    }
}

pub proof fn lemma_two_pow_small(k: nat)
    requires
        k <= 6,
    ensures
        1 <= two_pow(k) <= 64,
        k <= 5 ==> two_pow(k) <= 32,
        k <= 4 ==> two_pow(k) <= 16,
{
    reveal_with_fuel(two_pow, 8);
    if k == 0 {
    } else if k == 1 {
    } else if k == 2 {
    } else if k == 3 {
    } else if k == 4 {
    } else if k == 5 {
    } else {
        assert(k == 6);
    }
}

/// Scaling an integer by a fraction `a / l` with `a <= l` does not grow it,
/// and keeps its sign.
pub proof fn lemma_tdiv_shrink(p: int, a: int, l: int)
    requires
        1 <= l,
        0 <= a <= l,
    ensures
        iabs(tdiv(p * a, l)) <= iabs(p),
        p >= 0 ==> 0 <= tdiv(p * a, l) <= p,
        p <= 0 ==> p <= tdiv(p * a, l) <= 0,
{
    let t = tdiv(p * a, l);
    lemma_tdiv(p * a, l);
    assert(iabs(p * a) <= iabs(p) * l) by (nonlinear_arith)
        requires
            0 <= a <= l,
    ;
    assert(iabs(t) <= iabs(p)) by (nonlinear_arith)
        requires
            l >= 1,
            iabs(l * t) <= iabs(p * a),
            iabs(p * a) <= iabs(p) * l,
    ;
    if p >= 0 {
        assert(p * a >= 0) by (nonlinear_arith)
            requires
                p >= 0,
                a >= 0,
        ;
    } else {
        assert(p * a <= 0) by (nonlinear_arith)
            requires
                p <= 0,
                a >= 0,
        ;
    }
}

/// Dividing an exact multiple gives the factor back, whatever its sign.
pub proof fn lemma_tdiv_multiple(k: int, m: int)
    requires
        m > 0,
    ensures
        tdiv(m * k, m) == k,
{
    if k >= 0 {
        assert(m * k >= 0) by (nonlinear_arith)
            requires
                m > 0,
                k >= 0,
        ;
        vstd::arithmetic::div_mod::lemma_div_multiples_vanish(k, m);
    } else {
        assert(m * k < 0) by (nonlinear_arith)
            requires
                m > 0,
                k < 0,
        ;
        assert(-(m * k) == m * (-k)) by (nonlinear_arith);
        vstd::arithmetic::div_mod::lemma_div_multiples_vanish(-k, m);
    }
}

/// The square-root of `n`, rounded down.
pub open spec fn sqrt_floor(n: nat) -> nat
    decreases n,
{
    if n == 0 {
        0
    } else {
        let p = sqrt_floor((n - 1) as nat);
        if (p + 1) * (p + 1) <= n {
            p + 1
        } else {
            p
        }
    }
}

pub proof fn lemma_sqrt_floor_bounds(n: nat)
    ensures
        sqrt_floor(n) * sqrt_floor(n) <= n,
        n < (sqrt_floor(n) + 1) * (sqrt_floor(n) + 1),
    decreases n,
{
    reveal_with_fuel(sqrt_floor, 2);
    if n > 0 {
        lemma_sqrt_floor_bounds((n - 1) as nat);
        let p = sqrt_floor((n - 1) as nat);
        assert(p * p <= n - 1);
        if (p + 1) * (p + 1) <= n {
            assert(sqrt_floor(n) == p + 1);
            assert(n < (p + 2) * (p + 2)) by (nonlinear_arith)
                requires
                    ((n - 1) as nat) < (p + 1) * (p + 1),
            ;
            assert(sqrt_floor(n) * sqrt_floor(n) <= n);
            assert(n < (sqrt_floor(n) + 1) * (sqrt_floor(n) + 1));
        } else {
            assert(sqrt_floor(n) == p);
            assert(sqrt_floor(n) * sqrt_floor(n) <= n);
            assert(n < (sqrt_floor(n) + 1) * (sqrt_floor(n) + 1));
        }
    } else {
        assert(sqrt_floor(0nat) == 0);
        assert((sqrt_floor(n) + 1) * (sqrt_floor(n) + 1) == 1) by (nonlinear_arith)
            requires
                sqrt_floor(n) == 0,
        ;
    }
}

/// Two integers bracketing `n` the same way are the same square root.
pub proof fn lemma_sqrt_floor_unique(r: nat, n: nat)
    requires
        r * r <= n,
        n < (r + 1) * (r + 1),
    ensures
        r == sqrt_floor(n),
{
    lemma_sqrt_floor_bounds(n);
    let s = sqrt_floor(n);
    if r < s {
        assert(false) by (nonlinear_arith)
            requires
                r < s,
                s * s <= n,
                n < (r + 1) * (r + 1),
        ;
    }
    if s < r {
        assert(false) by (nonlinear_arith)
            requires
                s < r,
                r * r <= n,
                n < (s + 1) * (s + 1),
        ;
    }
}

/// Integer square root by bisection.
pub fn isqrt(n: u64) -> (r: u64)
    ensures
        r == sqrt_floor(n as nat),
{
    let mut lo: u64 = 0;
    let mut hi: u64 = if n < 4294967295 {
        n
    } else {
        4294967295
    };
    proof {
        if n < 4294967295 {
            assert(n < (n + 1) * (n + 1)) by (nonlinear_arith);
        } else {
            assert(n < (4294967295u64 + 1) * (4294967295u64 + 1)) by (nonlinear_arith)
                requires
                    n <= u64::MAX,
            ;
        }
    }
    while lo < hi
        invariant
            lo <= hi <= 4294967295,
            lo * lo <= n,
            n < (hi + 1) * (hi + 1),
        decreases hi - lo,
    {
        let mid: u64 = lo + (hi - lo + 1) / 2;
        proof {
            assert(mid * mid <= 18446744065119617025u64) by (nonlinear_arith)
                requires
                    mid <= 4294967295,
            ;
        }
        if mid * mid <= n {
            lo = mid;
        } else {
            hi = mid - 1;
        }
    }
    proof {
        lemma_sqrt_floor_unique(lo as nat, n as nat);
    }
    lo
}

/// The floor square root of the squared length of `v`, in milli-units.
pub open spec fn spec_len(v: Vec2) -> int {
    sqrt_floor((v.x * v.x + v.y * v.y) as nat) as int
}

/// A nonzero vector has a positive length, and no component of a vector
/// outruns its length.
pub proof fn lemma_len_bounds(v: Vec2)
    ensures
        spec_len(v) >= 0,
        !v.is_zero() ==> spec_len(v) >= 1,
        iabs(v.x as int) <= spec_len(v),
        iabs(v.y as int) <= spec_len(v),
{
    let n = (v.x * v.x + v.y * v.y) as nat;
    assert(v.x * v.x >= 0) by (nonlinear_arith);
    assert(v.y * v.y >= 0) by (nonlinear_arith);
    lemma_sqrt_floor_bounds(n);
    let l = sqrt_floor(n);
    if !v.is_zero() {
        assert(v.x * v.x + v.y * v.y >= 1) by (nonlinear_arith)
            requires
                v.x != 0 || v.y != 0,
        ;
        if l == 0 {
            assert(false);
        }
    }
    assert(iabs(v.x as int) <= l) by (nonlinear_arith)
        requires
            v.x * v.x <= n,
            n < (l + 1) * (l + 1),
            l >= 0,
    ;
    assert(iabs(v.y as int) <= l) by (nonlinear_arith)
        requires
            v.y * v.y <= n,
            n < (l + 1) * (l + 1),
            l >= 0,
    ;
}

/// Exec length of a vector whose components stay below `2_000_000_000`
/// in magnitude, so that the squared length fits an `i64`.
pub fn vec_len(v: Vec2) -> (l: i64)
    requires
        iabs(v.x as int) <= 2_000_000_000,
        iabs(v.y as int) <= 2_000_000_000,
    ensures
        l == spec_len(v),
        0 <= l <= 3_000_000_000,
{
    proof {
        assert(v.x * v.x <= 4_000_000_000_000_000_000) by (nonlinear_arith)
            requires
                iabs(v.x as int) <= 2_000_000_000,
        ;
        assert(v.y * v.y <= 4_000_000_000_000_000_000) by (nonlinear_arith)
            requires
                iabs(v.y as int) <= 2_000_000_000,
        ;
        assert(v.x * v.x >= 0) by (nonlinear_arith);
        assert(v.y * v.y >= 0) by (nonlinear_arith);
        lemma_len_bounds(v);
        let n = (v.x * v.x + v.y * v.y) as nat;
        lemma_sqrt_floor_bounds(n);
        assert(sqrt_floor(n) <= 3_000_000_000) by {
            if sqrt_floor(n) > 3_000_000_000 {
                assert(sqrt_floor(n) * sqrt_floor(n) > 8_000_000_000_000_000_000) by (nonlinear_arith)
                    requires
                        sqrt_floor(n) > 3_000_000_000,
                ;
            }
        }
    }
    let sq: u64 = (v.x * v.x) as u64 + (v.y * v.y) as u64;
    isqrt(sq) as i64
}

} // verus!
