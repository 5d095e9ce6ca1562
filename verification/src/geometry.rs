//! Fixed-point 3D geometry: vectors, quaternions and affine transforms.
//!
//! Every scalar is an integer count of thousandths, so `FX_ONE` stands for
//! the real value 1.0.  Keeping the representation integral lets the
//! transform logic state exact contracts: the upright snap, the anchor
//! placement and the line poses are all defined over plain `i64` values.

use vstd::arithmetic::div_mod::{
    lemma_div_nonincreasing, lemma_div_pos_is_pos, lemma_multiply_divide_le,
};
use vstd::prelude::*;

verus! {

/// Number of fixed-point units in 1.0.
pub const FX_ONE: i64 = 1000;

/// Largest coordinate magnitude accepted by the geometry functions; wide
/// enough for any plausible scene while keeping every intermediate product
/// inside `i64`.
pub const FX_COORD_LIMIT: i64 = 0x4000_0000;

/// A 3-component vector in fixed-point units.
#[derive(Clone, Copy, Debug, PartialEq, Eq, Structural)]
pub struct Vec3Fx {
    pub x: i64,
    pub y: i64,
    pub z: i64,
}

/// A rotation quaternion in fixed-point units; a unit rotation has
/// components whose squares sum to `FX_ONE * FX_ONE`.
#[derive(Clone, Copy, Debug, PartialEq, Eq, Structural)]
pub struct QuatFx {
    pub x: i64,
    pub y: i64,
    pub z: i64,
    pub w: i64,
}

/// A column-major affine transform: three basis axes and a translation.
#[derive(Clone, Copy, Debug, PartialEq, Eq, Structural)]
pub struct AffineFx {
    pub x_axis: Vec3Fx,
    pub y_axis: Vec3Fx,
    pub z_axis: Vec3Fx,
    pub translation: Vec3Fx,
}

pub open spec fn vec_in_bounds(v: Vec3Fx, b: int) -> bool {
    &&& -b <= v.x <= b
    &&& -b <= v.y <= b
    &&& -b <= v.z <= b
}

pub open spec fn affine_in_bounds(t: AffineFx, b: int) -> bool {
    &&& vec_in_bounds(t.x_axis, b)
    &&& vec_in_bounds(t.y_axis, b)
    &&& vec_in_bounds(t.z_axis, b)
    &&& vec_in_bounds(t.translation, b)
}

/// Mathematical dot product of two fixed-point vectors, in squared units.
pub open spec fn dot_full(a: Vec3Fx, b: Vec3Fx) -> int {
    a.x * b.x + a.y * b.y + a.z * b.z
}

pub open spec fn cross_x(a: Vec3Fx, b: Vec3Fx) -> int {
    a.y * b.z - a.z * b.y
}

pub open spec fn cross_y(a: Vec3Fx, b: Vec3Fx) -> int {
    a.z * b.x - a.x * b.z
}

pub open spec fn cross_z(a: Vec3Fx, b: Vec3Fx) -> int {
    a.x * b.y - a.y * b.x
}

/// Truncating division as the machine performs it on signed operands.
pub open spec fn trunc_div(a: int, b: int) -> int
    recommends
        b > 0,
{
    if a >= 0 {
        a / b
    } else {
        -((-a) / b)
    }
}

/// Product bound: multiplying values bounded by `b1` and `b2` stays within
/// `b1 * b2`.
pub proof fn lemma_mul_bounds(x: int, y: int, b1: int, b2: int)
    requires
        -b1 <= x <= b1,
        -b2 <= y <= b2,
        0 <= b1,
        0 <= b2,
    ensures
        -(b1 * b2) <= x * y <= b1 * b2,
{
    assert(-(b1 * b2) <= x * y <= b1 * b2) by (nonlinear_arith)
        requires
            -b1 <= x <= b1,
            -b2 <= y <= b2,
            0 <= b1,
            0 <= b2,
    ;
}

/// Exact dot product; the result carries squared fixed-point units.
pub fn dot_raw(a: Vec3Fx, b: Vec3Fx) -> (r: i64)
    requires
        vec_in_bounds(a, FX_COORD_LIMIT as int),
        vec_in_bounds(b, FX_COORD_LIMIT as int),
    ensures
        r == dot_full(a, b),
        -0x3000_0000_0000_0000 <= r <= 0x3000_0000_0000_0000,
{
    proof {
        lemma_mul_bounds(a.x as int, b.x as int, FX_COORD_LIMIT as int, FX_COORD_LIMIT as int);
        lemma_mul_bounds(a.y as int, b.y as int, FX_COORD_LIMIT as int, FX_COORD_LIMIT as int);
        lemma_mul_bounds(a.z as int, b.z as int, FX_COORD_LIMIT as int, FX_COORD_LIMIT as int);
    }
    a.x * b.x + a.y * b.y + a.z * b.z
}

/// Exact cross product; the components carry squared fixed-point units.
pub fn cross(a: Vec3Fx, b: Vec3Fx) -> (r: Vec3Fx)
    requires
        vec_in_bounds(a, FX_COORD_LIMIT as int),
        vec_in_bounds(b, FX_COORD_LIMIT as int),
    ensures
        r.x == cross_x(a, b),
        r.y == cross_y(a, b),
        r.z == cross_z(a, b),
{
    proof {
        lemma_mul_bounds(a.y as int, b.z as int, FX_COORD_LIMIT as int, FX_COORD_LIMIT as int);
        lemma_mul_bounds(a.z as int, b.y as int, FX_COORD_LIMIT as int, FX_COORD_LIMIT as int);
        lemma_mul_bounds(a.z as int, b.x as int, FX_COORD_LIMIT as int, FX_COORD_LIMIT as int);
        lemma_mul_bounds(a.x as int, b.z as int, FX_COORD_LIMIT as int, FX_COORD_LIMIT as int);
        lemma_mul_bounds(a.x as int, b.y as int, FX_COORD_LIMIT as int, FX_COORD_LIMIT as int);
        lemma_mul_bounds(a.y as int, b.x as int, FX_COORD_LIMIT as int, FX_COORD_LIMIT as int);
    }
    Vec3Fx { x: a.y * b.z - a.z * b.y, y: a.z * b.x - a.x * b.z, z: a.x * b.y - a.y * b.x }
}

/// Integer square root, defined by descent.
pub open spec fn sqrt_nat(n: nat) -> nat
    decreases n,
{
    if n == 0 {
        0
    } else {
        let r = sqrt_nat((n - 1) as nat);
        if (r + 1) * (r + 1) <= n {
            r + 1
        } else {
            r
        }
    }
}

pub proof fn lemma_sqrt_nat_bounds(n: nat)
    ensures
        sqrt_nat(n) * sqrt_nat(n) <= n,
        n < (sqrt_nat(n) + 1) * (sqrt_nat(n) + 1),
    decreases n,
{
    if n == 0 {
        assert(sqrt_nat(n) == 0);
        assert(n < (sqrt_nat(n) + 1) * (sqrt_nat(n) + 1)) by (nonlinear_arith)
            requires
                n == 0,
                sqrt_nat(n) == 0,
        ;
    } else {
        lemma_sqrt_nat_bounds((n - 1) as nat);
        let p = sqrt_nat((n - 1) as nat);
        assert(p * p <= n - 1);
        assert(n - 1 < (p + 1) * (p + 1));
        if (p + 1) * (p + 1) <= n {
            assert(sqrt_nat(n) == p + 1);
            assert(sqrt_nat(n) * sqrt_nat(n) <= n && n < (sqrt_nat(n) + 1) * (sqrt_nat(n)
                + 1)) by (nonlinear_arith)
                requires
                    0 <= p,
                    sqrt_nat(n) == p + 1,
                    (p + 1) * (p + 1) <= n,
                    n <= (p + 1) * (p + 1),
            ;
        } else {
            assert(sqrt_nat(n) == p);
            assert(sqrt_nat(n) * sqrt_nat(n) <= n && n < (sqrt_nat(n) + 1) * (sqrt_nat(n)
                + 1)) by (nonlinear_arith)
                requires
                    0 <= p,
                    n >= 1,
                    sqrt_nat(n) == p,
                    p * p <= n - 1,
                    !((p + 1) * (p + 1) <= n),
            ;
        }
    }
}

/// Any value bracketed by consecutive squares is the integer square root.
pub proof fn lemma_sqrt_nat_unique(n: nat, r: nat)
    requires
        r * r <= n,
        n < (r + 1) * (r + 1),
    ensures
        r == sqrt_nat(n),
{
    lemma_sqrt_nat_bounds(n);
    let s = sqrt_nat(n);
    if r < s {
        assert((r + 1) * (r + 1) <= s * s) by (nonlinear_arith)
            requires
                r + 1 <= s,
        ;
    }
    if s < r {
        assert((s + 1) * (s + 1) <= r * r) by (nonlinear_arith)
            requires
                s + 1 <= r,
        ;
    }
}

/// Executable integer square root over the full `u64` range.
pub fn isqrt_u64(n: u64) -> (r: u64)
    ensures
        r == sqrt_nat(n as nat),
        r * r <= n,
{
    let mut lo: u64 = 0;
    let mut hi: u64 = 0x1_0000_0000;
    while lo + 1 < hi
        invariant
            lo < hi <= 0x1_0000_0000,
            (lo as int) * (lo as int) <= n as int,
            (n as int) < (hi as int) * (hi as int),
        decreases hi - lo,
    {
        let mid: u64 = lo + (hi - lo) / 2;
        proof {
            lemma_mul_bounds(mid as int, mid as int, 0x1_0000_0000, 0x1_0000_0000);
        }
        if (mid as u128) * (mid as u128) <= n as u128 {
            lo = mid;
        } else {
            hi = mid;
        }
    }
    proof {
        lemma_sqrt_nat_unique(n as nat, lo as nat);
        lemma_mul_bounds(lo as int, lo as int, 0x1_0000_0000, 0x1_0000_0000);
    }
    lo
}

pub open spec fn abs_int(x: int) -> int {
    if x >= 0 {
        x
    } else {
        -x
    }
}

/// Components of a vector as a mathematical triple.
pub open spec fn vec_ints(v: Vec3Fx) -> (int, int, int) {
    (v.x as int, v.y as int, v.z as int)
}

pub open spec fn dot_t(a: (int, int, int), b: (int, int, int)) -> int {
    a.0 * b.0 + a.1 * b.1 + a.2 * b.2
}

pub open spec fn cross_t(a: (int, int, int), b: (int, int, int)) -> (int, int, int) {
    (a.1 * b.2 - a.2 * b.1, a.2 * b.0 - a.0 * b.2, a.0 * b.1 - a.1 * b.0)
}

pub open spec fn norm_sq_t(a: (int, int, int)) -> int {
    dot_t(a, a)
}

/// Integer length of a vector: the integer square root of its squared norm.
pub open spec fn len_t(a: (int, int, int)) -> int {
    sqrt_nat(norm_sq_t(a) as nat) as int
}

/// A vector rescaled so that its length becomes `target`, coordinate by
/// coordinate with truncating division; the zero vector stays zero.
pub open spec fn rescale_t(a: (int, int, int), target: int) -> (int, int, int) {
    let len = len_t(a);
    if len == 0 {
        (0, 0, 0)
    } else {
        (trunc_div(a.0 * target, len), trunc_div(a.1 * target, len), trunc_div(a.2 * target, len))
    }
}

/// The triple cross product is orthogonal to both of its factors.
pub proof fn lemma_cross_t_orthogonal(a: (int, int, int), b: (int, int, int))
    ensures
        dot_t(cross_t(a, b), a) == 0,
        dot_t(cross_t(a, b), b) == 0,
{
    assert((a.1 * b.2 - a.2 * b.1) * a.0 + (a.2 * b.0 - a.0 * b.2) * a.1 + (a.0 * b.1 - a.1
        * b.0) * a.2 == 0) by (nonlinear_arith);
    assert((a.1 * b.2 - a.2 * b.1) * b.0 + (a.2 * b.0 - a.0 * b.2) * b.1 + (a.0 * b.1 - a.1
        * b.0) * b.2 == 0) by (nonlinear_arith);
}

pub proof fn lemma_sq_nonneg(x: int)
    ensures
        x * x >= 0,
        x * x == abs_int(x) * abs_int(x),
{
    assert(x * x >= 0 && x * x == abs_int(x) * abs_int(x)) by (nonlinear_arith);
}

/// Each coordinate of a vector is bounded by the vector's integer length.
proof fn lemma_coord_le_len(c: int, norm: int, len: int)
    requires
        c * c <= norm,
        len >= 0,
        norm < (len + 1) * (len + 1),
    ensures
        -len <= c <= len,
{
    assert(-len <= c <= len) by (nonlinear_arith)
        requires
            c * c <= norm,
            len >= 0,
            norm < (len + 1) * (len + 1),
    ;
}

/// Truncating division keeps a quotient bound given a product bound.
proof fn lemma_trunc_div_bound(num: int, den: int, bound: int)
    requires
        den >= 1,
        bound >= 0,
        -(bound * den) <= num <= bound * den,
    ensures
        -bound <= trunc_div(num, den) <= bound,
{
    assert(bound * den == den * bound) by (nonlinear_arith);
    if num >= 0 {
        lemma_div_pos_is_pos(num, den);
        lemma_multiply_divide_le(num, den, bound);
    } else {
        lemma_div_pos_is_pos(-num, den);
        lemma_multiply_divide_le(-num, den, bound);
    }
}

/// Absolute value of a scalar.
fn abs_i64(x: i64) -> (r: i64)
    requires
        x > i64::MIN,
    ensures
        r == abs_int(x as int),
{
    if x < 0 {
        -x
    } else {
        x
    }
}

/// Truncating signed division by a positive divisor.
pub fn scale_div(num: i64, den: i64) -> (r: i64)
    requires
        num > i64::MIN,
        den > 0,
    ensures
        r == trunc_div(num as int, den as int),
        abs_int(r as int) <= abs_int(num as int),
{
    proof {
        if num >= 0 {
            lemma_div_pos_is_pos(num as int, den as int);
            lemma_div_nonincreasing(num as int, den as int);
        } else {
            lemma_div_pos_is_pos(-(num as int), den as int);
            lemma_div_nonincreasing(-(num as int), den as int);
        }
    }
    if num < 0 {
        -((((-num) as u64) / (den as u64)) as i64)
    } else {
        (((num) as u64) / (den as u64)) as i64
    }
}

/// Squared norm of a vector whose coordinates fit in 32 bits.
fn norm_sq_u64(v: Vec3Fx) -> (r: u64)
    requires
        vec_in_bounds(v, 0x8000_0000),
    ensures
        r as int == norm_sq_t(vec_ints(v)),
{
    proof {
        lemma_sq_nonneg(v.x as int);
        lemma_sq_nonneg(v.y as int);
        lemma_sq_nonneg(v.z as int);
        lemma_mul_bounds(v.x as int, v.x as int, 0x8000_0000, 0x8000_0000);
        lemma_mul_bounds(v.y as int, v.y as int, 0x8000_0000, 0x8000_0000);
        lemma_mul_bounds(v.z as int, v.z as int, 0x8000_0000, 0x8000_0000);
    }
    let ax = abs_i64(v.x) as u64;
    let ay = abs_i64(v.y) as u64;
    let az = abs_i64(v.z) as u64;
    ax * ax + ay * ay + az * az
}

/// Integer length of a vector.
pub fn vec_len(v: Vec3Fx) -> (r: i64)
    requires
        vec_in_bounds(v, 0x8000_0000),
    ensures
        r == len_t(vec_ints(v)),
        0 <= r < 0x1_0000_0000,
{
    let n = norm_sq_u64(v);
    let r = isqrt_u64(n);
    proof {
        lemma_sqrt_nat_bounds(n as nat);
        assert(sqrt_nat(n as nat) < 0x1_0000_0000) by (nonlinear_arith)
            requires
                sqrt_nat(n as nat) * sqrt_nat(n as nat) <= n as nat,
                n as nat <= 0xFFFF_FFFF_FFFF_FFFF,
        ;
    }
    r as i64
}

/// Rescales a vector to the given nonnegative length, coordinate by
/// coordinate; the zero vector is returned unchanged.
pub fn rescale(v: Vec3Fx, target: i64) -> (r: Vec3Fx)
    requires
        vec_in_bounds(v, 0x8000_0000),
        0 <= target <= 0x8000_0000,
    ensures
        vec_ints(r) == rescale_t(vec_ints(v), target as int),
        vec_in_bounds(r, target as int),
{
    let len = vec_len(v);
    if len == 0 {
        Vec3Fx { x: 0, y: 0, z: 0 }
    } else {
        proof {
            let norm = norm_sq_t(vec_ints(v));
            lemma_sq_nonneg(v.x as int);
            lemma_sq_nonneg(v.y as int);
            lemma_sq_nonneg(v.z as int);
            lemma_sqrt_nat_bounds(norm as nat);
            lemma_coord_le_len(v.x as int, norm, len as int);
            lemma_coord_le_len(v.y as int, norm, len as int);
            lemma_coord_le_len(v.z as int, norm, len as int);
            lemma_mul_bounds(v.x as int, target as int, len as int, target as int);
            lemma_mul_bounds(v.y as int, target as int, len as int, target as int);
            lemma_mul_bounds(v.z as int, target as int, len as int, target as int);
            lemma_mul_bounds(v.x as int, target as int, 0x8000_0000, 0x8000_0000);
            lemma_mul_bounds(v.y as int, target as int, 0x8000_0000, 0x8000_0000);
            lemma_mul_bounds(v.z as int, target as int, 0x8000_0000, 0x8000_0000);
            lemma_trunc_div_bound(v.x as int * target as int, len as int, target as int);
            lemma_trunc_div_bound(v.y as int * target as int, len as int, target as int);
            lemma_trunc_div_bound(v.z as int * target as int, len as int, target as int);
        }
        Vec3Fx {
            x: scale_div(v.x * target, len),
            y: scale_div(v.y * target, len),
            z: scale_div(v.z * target, len),
        }
    }
}

/// The world up direction, one unit along the Y axis.
pub open spec fn world_up_spec() -> Vec3Fx {
    Vec3Fx { x: 0, y: FX_ONE, z: 0 }
}

pub fn world_up() -> (v: Vec3Fx)
    ensures
        v == world_up_spec(),
{
    Vec3Fx { x: 0, y: FX_ONE, z: 0 }
}

pub open spec fn vec_zero_spec() -> Vec3Fx {
    Vec3Fx { x: 0, y: 0, z: 0 }
}

pub open spec fn quat_identity_spec() -> QuatFx {
    QuatFx { x: 0, y: 0, z: 0, w: FX_ONE }
}

pub fn quat_identity() -> (q: QuatFx)
    ensures
        q == quat_identity_spec(),
{
    QuatFx { x: 0, y: 0, z: 0, w: FX_ONE }
}

pub open spec fn affine_identity_spec() -> AffineFx {
    AffineFx {
        x_axis: Vec3Fx { x: FX_ONE, y: 0, z: 0 },
        y_axis: Vec3Fx { x: 0, y: FX_ONE, z: 0 },
        z_axis: Vec3Fx { x: 0, y: 0, z: FX_ONE },
        translation: Vec3Fx { x: 0, y: 0, z: 0 },
    }
}

pub fn affine_identity() -> (t: AffineFx)
    ensures
        t == affine_identity_spec(),
{
    AffineFx {
        x_axis: Vec3Fx { x: FX_ONE, y: 0, z: 0 },
        y_axis: Vec3Fx { x: 0, y: FX_ONE, z: 0 },
        z_axis: Vec3Fx { x: 0, y: 0, z: FX_ONE },
        translation: Vec3Fx { x: 0, y: 0, z: 0 },
    }
}

pub open spec fn affine_from_translation_spec(v: Vec3Fx) -> AffineFx {
    AffineFx {
        x_axis: Vec3Fx { x: FX_ONE, y: 0, z: 0 },
        y_axis: Vec3Fx { x: 0, y: FX_ONE, z: 0 },
        z_axis: Vec3Fx { x: 0, y: 0, z: FX_ONE },
        translation: v,
    }
}

pub fn affine_from_translation(v: Vec3Fx) -> (t: AffineFx)
    ensures
        t == affine_from_translation_spec(v),
{
    AffineFx {
        x_axis: Vec3Fx { x: FX_ONE, y: 0, z: 0 },
        y_axis: Vec3Fx { x: 0, y: FX_ONE, z: 0 },
        z_axis: Vec3Fx { x: 0, y: 0, z: FX_ONE },
        translation: v,
    }
}

/// Composition of a half turn about the local X axis with a half turn about
/// the local Z axis, applied to the right of `q`; both factor rotations are
/// exact in fixed point, so the result is a plain component shuffle.
pub open spec fn half_turn_xz_spec(q: QuatFx) -> QuatFx {
    QuatFx { x: q.z, y: -q.w as int as i64, z: -q.x as int as i64, w: q.y }
}

pub fn rotate_half_turn_xz(q: QuatFx) -> (r: QuatFx)
    requires
        q.x > i64::MIN,
        q.w > i64::MIN,
    ensures
        r.x == q.z,
        r.y == -(q.w as int),
        r.z == -(q.x as int),
        r.w == q.y,
{
    QuatFx { x: q.z, y: -q.w, z: -q.x, w: q.y }
}

/// A linear map given by its three basis columns, applied to a vector:
/// each output coordinate is the matching row of the columns times the
/// vector, scaled back to fixed point.
pub open spec fn mat_vec_cols(
    cx: (int, int, int),
    cy: (int, int, int),
    cz: (int, int, int),
    v: (int, int, int),
) -> (int, int, int) {
    (
        trunc_div(cx.0 * v.0 + cy.0 * v.1 + cz.0 * v.2, FX_ONE as int),
        trunc_div(cx.1 * v.0 + cy.1 * v.1 + cz.1 * v.2, FX_ONE as int),
        trunc_div(cx.2 * v.0 + cy.2 * v.1 + cz.2 * v.2, FX_ONE as int),
    )
}

/// The linear part of a transform applied to a vector.
pub open spec fn mat_vec_t(t: AffineFx, v: (int, int, int)) -> (int, int, int) {
    mat_vec_cols(vec_ints(t.x_axis), vec_ints(t.y_axis), vec_ints(t.z_axis), v)
}

pub open spec fn add_t(a: (int, int, int), b: (int, int, int)) -> (int, int, int) {
    (a.0 + b.0, a.1 + b.1, a.2 + b.2)
}

/// Affine composition: the left transform applied after the right one.
pub open spec fn affine_mul_t(a: AffineFx, b: AffineFx) -> (
    (int, int, int),
    (int, int, int),
    (int, int, int),
    (int, int, int),
) {
    (
        mat_vec_t(a, vec_ints(b.x_axis)),
        mat_vec_t(a, vec_ints(b.y_axis)),
        mat_vec_t(a, vec_ints(b.z_axis)),
        add_t(mat_vec_t(a, vec_ints(b.translation)), vec_ints(a.translation)),
    )
}

/// Bound on the coordinates of a linear map application.
pub proof fn lemma_mat_vec_t_bound(t: AffineFx, v: (int, int, int), ba: int, bv: int, cap: int)
    requires
        affine_in_bounds(t, ba),
        -bv <= v.0 <= bv,
        -bv <= v.1 <= bv,
        -bv <= v.2 <= bv,
        0 <= ba,
        0 <= bv,
        0 <= cap,
        3 * (ba * bv) <= cap * (FX_ONE as int),
    ensures
        -cap <= mat_vec_t(t, v).0 <= cap,
        -cap <= mat_vec_t(t, v).1 <= cap,
        -cap <= mat_vec_t(t, v).2 <= cap,
{
    lemma_mul_bounds(t.x_axis.x as int, v.0, ba, bv);
    lemma_mul_bounds(t.y_axis.x as int, v.1, ba, bv);
    lemma_mul_bounds(t.z_axis.x as int, v.2, ba, bv);
    lemma_mul_bounds(t.x_axis.y as int, v.0, ba, bv);
    lemma_mul_bounds(t.y_axis.y as int, v.1, ba, bv);
    lemma_mul_bounds(t.z_axis.y as int, v.2, ba, bv);
    lemma_mul_bounds(t.x_axis.z as int, v.0, ba, bv);
    lemma_mul_bounds(t.y_axis.z as int, v.1, ba, bv);
    lemma_mul_bounds(t.z_axis.z as int, v.2, ba, bv);
    lemma_trunc_div_bound(
        t.x_axis.x as int * v.0 + t.y_axis.x as int * v.1 + t.z_axis.x as int * v.2,
        FX_ONE as int,
        cap,
    );
    lemma_trunc_div_bound(
        t.x_axis.y as int * v.0 + t.y_axis.y as int * v.1 + t.z_axis.y as int * v.2,
        FX_ONE as int,
        cap,
    );
    lemma_trunc_div_bound(
        t.x_axis.z as int * v.0 + t.y_axis.z as int * v.1 + t.z_axis.z as int * v.2,
        FX_ONE as int,
        cap,
    );
}

/// Applies the linear part of a transform to a vector.
pub fn mat_vec(t: AffineFx, v: Vec3Fx) -> (r: Vec3Fx)
    requires
        affine_in_bounds(t, FX_COORD_LIMIT as int),
        vec_in_bounds(v, FX_COORD_LIMIT as int),
    ensures
        vec_ints(r) == mat_vec_t(t, vec_ints(v)),
        vec_in_bounds(r, 0x10_0000_0000_0000),
{
    proof {
        lemma_mat_vec_t_bound(
            t,
            vec_ints(v),
            FX_COORD_LIMIT as int,
            FX_COORD_LIMIT as int,
            0x10_0000_0000_0000,
        );
        lemma_mul_bounds(t.x_axis.x as int, v.x as int, FX_COORD_LIMIT as int, FX_COORD_LIMIT as int);
        lemma_mul_bounds(t.y_axis.x as int, v.y as int, FX_COORD_LIMIT as int, FX_COORD_LIMIT as int);
        lemma_mul_bounds(t.z_axis.x as int, v.z as int, FX_COORD_LIMIT as int, FX_COORD_LIMIT as int);
        lemma_mul_bounds(t.x_axis.y as int, v.x as int, FX_COORD_LIMIT as int, FX_COORD_LIMIT as int);
        lemma_mul_bounds(t.y_axis.y as int, v.y as int, FX_COORD_LIMIT as int, FX_COORD_LIMIT as int);
        lemma_mul_bounds(t.z_axis.y as int, v.z as int, FX_COORD_LIMIT as int, FX_COORD_LIMIT as int);
        lemma_mul_bounds(t.x_axis.z as int, v.x as int, FX_COORD_LIMIT as int, FX_COORD_LIMIT as int);
        lemma_mul_bounds(t.y_axis.z as int, v.y as int, FX_COORD_LIMIT as int, FX_COORD_LIMIT as int);
        lemma_mul_bounds(t.z_axis.z as int, v.z as int, FX_COORD_LIMIT as int, FX_COORD_LIMIT as int);
    }
    Vec3Fx {
        x: scale_div(t.x_axis.x * v.x + t.y_axis.x * v.y + t.z_axis.x * v.z, FX_ONE),
        y: scale_div(t.x_axis.y * v.x + t.y_axis.y * v.y + t.z_axis.y * v.z, FX_ONE),
        z: scale_div(t.x_axis.z * v.x + t.y_axis.z * v.y + t.z_axis.z * v.z, FX_ONE),
    }
}

/// Composes two affine transforms, the left applied after the right.
pub fn affine_mul(a: AffineFx, b: AffineFx) -> (r: AffineFx)
    requires
        affine_in_bounds(a, FX_COORD_LIMIT as int),
        affine_in_bounds(b, FX_COORD_LIMIT as int),
    ensures
        vec_ints(r.x_axis) == affine_mul_t(a, b).0,
        vec_ints(r.y_axis) == affine_mul_t(a, b).1,
        vec_ints(r.z_axis) == affine_mul_t(a, b).2,
        vec_ints(r.translation) == affine_mul_t(a, b).3,
{
    let xa = mat_vec(a, b.x_axis);
    let ya = mat_vec(a, b.y_axis);
    let za = mat_vec(a, b.z_axis);
    let tr = mat_vec(a, b.translation);
    AffineFx {
        x_axis: xa,
        y_axis: ya,
        z_axis: za,
        translation: Vec3Fx {
            x: tr.x + a.translation.x,
            y: tr.y + a.translation.y,
            z: tr.z + a.translation.z,
        },
    }
}

/// One quaternion basis term: twice a sum of two products, scaled back to
/// fixed point.
pub open spec fn qd_t(a: int, b: int, c: int, d: int) -> int {
    trunc_div(2 * (a * b + c * d), FX_ONE as int)
}

fn qd(a: i64, b: i64, c: i64, d: i64) -> (r: i64)
    requires
        -4 * FX_ONE as int <= a <= 4 * FX_ONE as int,
        -4 * FX_ONE as int <= b <= 4 * FX_ONE as int,
        -4 * FX_ONE as int <= c <= 4 * FX_ONE as int,
        -4 * FX_ONE as int <= d <= 4 * FX_ONE as int,
    ensures
        r == qd_t(a as int, b as int, c as int, d as int),
        -64_000 <= r <= 64_000,
{
    proof {
        assert(4 * FX_ONE as int == 4000);
        lemma_mul_bounds(a as int, b as int, 4000, 4000);
        lemma_mul_bounds(c as int, d as int, 4000, 4000);
        assert(2 * (a as int * b as int + c as int * d as int) <= 64_000 * 1000
            && -(64_000 * 1000) <= 2 * (a as int * b as int + c as int * d as int)) by (nonlinear_arith)
            requires
                -(4000 * 4000) <= a as int * b as int <= 4000 * 4000,
                -(4000 * 4000) <= c as int * d as int <= 4000 * 4000,
        ;
        lemma_trunc_div_bound(2 * (a as int * b as int + c as int * d as int), FX_ONE as int, 64_000);
    }
    scale_div(2 * (a * b + c * d), FX_ONE)
}

/// The rotation basis of a quaternion, column by column, in fixed point.
pub open spec fn quat_basis_t(q: QuatFx) -> ((int, int, int), (int, int, int), (int, int, int)) {
    let x = q.x as int;
    let y = q.y as int;
    let z = q.z as int;
    let w = q.w as int;
    (
        (FX_ONE as int - qd_t(y, y, z, z), qd_t(x, y, w, z), qd_t(x, z, -w, y)),
        (qd_t(x, y, -w, z), FX_ONE as int - qd_t(x, x, z, z), qd_t(y, z, w, x)),
        (qd_t(x, z, w, y), qd_t(y, z, -w, x), FX_ONE as int - qd_t(x, x, y, y)),
    )
}

/// One basis coordinate scaled by the overlay's spawn scale.
pub open spec fn scaled_entry_t(e: int, scale: int) -> int {
    trunc_div(e * scale, FX_ONE as int)
}

fn scaled_entry(e: i64, scale: i64) -> (r: i64)
    requires
        -65_000 <= e <= 65_000,
        0 <= scale <= 0x10_0000,
    ensures
        r == scaled_entry_t(e as int, scale as int),
        -0x1000_0000 <= r <= 0x1000_0000,
{
    proof {
        lemma_mul_bounds(e as int, scale as int, 65_000, 0x10_0000);
        lemma_trunc_div_bound(e as int * scale as int, FX_ONE as int, 0x1000_0000);
    }
    scale_div(e * scale, FX_ONE)
}

/// A pose built from a spawn rotation, uniform spawn scale and spawn point:
/// the rotation basis scaled by the spawn scale, translated to the point.
pub open spec fn pose_t(q: QuatFx, scale: int, point: Vec3Fx) -> (
    (int, int, int),
    (int, int, int),
    (int, int, int),
    (int, int, int),
) {
    let b = quat_basis_t(q);
    (
        (
            scaled_entry_t(b.0.0, scale),
            scaled_entry_t(b.0.1, scale),
            scaled_entry_t(b.0.2, scale),
        ),
        (
            scaled_entry_t(b.1.0, scale),
            scaled_entry_t(b.1.1, scale),
            scaled_entry_t(b.1.2, scale),
        ),
        (
            scaled_entry_t(b.2.0, scale),
            scaled_entry_t(b.2.1, scale),
            scaled_entry_t(b.2.2, scale),
        ),
        vec_ints(point),
    )
}

/// Builds the spawn pose of an overlay from its rotation, scale and point.
pub fn pose_from_parts(rotation: QuatFx, scale: i64, point: Vec3Fx) -> (t: AffineFx)
    requires
        -4 * FX_ONE as int <= rotation.x <= 4 * FX_ONE as int,
        -4 * FX_ONE as int <= rotation.y <= 4 * FX_ONE as int,
        -4 * FX_ONE as int <= rotation.z <= 4 * FX_ONE as int,
        -4 * FX_ONE as int <= rotation.w <= 4 * FX_ONE as int,
        0 <= scale <= 0x10_0000,
        vec_in_bounds(point, FX_COORD_LIMIT as int),
    ensures
        vec_ints(t.x_axis) == pose_t(rotation, scale as int, point).0,
        vec_ints(t.y_axis) == pose_t(rotation, scale as int, point).1,
        vec_ints(t.z_axis) == pose_t(rotation, scale as int, point).2,
        t.translation == point,
        affine_in_bounds(t, FX_COORD_LIMIT as int),
{
    let x = rotation.x;
    let y = rotation.y;
    let z = rotation.z;
    let w = rotation.w;
    let m00 = FX_ONE - qd(y, y, z, z);
    let m10 = qd(x, y, w, z);
    let m20 = qd(x, z, -w, y);
    let m01 = qd(x, y, -w, z);
    let m11 = FX_ONE - qd(x, x, z, z);
    let m21 = qd(y, z, w, x);
    let m02 = qd(x, z, w, y);
    let m12 = qd(y, z, -w, x);
    let m22 = FX_ONE - qd(x, x, y, y);
    AffineFx {
        x_axis: Vec3Fx {
            x: scaled_entry(m00, scale),
            y: scaled_entry(m10, scale),
            z: scaled_entry(m20, scale),
        },
        y_axis: Vec3Fx {
            x: scaled_entry(m01, scale),
            y: scaled_entry(m11, scale),
            z: scaled_entry(m21, scale),
        },
        z_axis: Vec3Fx {
            x: scaled_entry(m02, scale),
            y: scaled_entry(m12, scale),
            z: scaled_entry(m22, scale),
        },
        translation: point,
    }
}

/// Raw dot limit below which the upright snap reconstructs the frame: the
/// head's lateral axis is then nearly orthogonal to world up.  The value
/// stands for a dot product of 0.2 between a unit up vector and the axis.
pub const UPRIGHT_SNAP_LIMIT: i64 = 200 * FX_ONE;

/// Whether the upright snap fires for a head transform and up direction.
pub open spec fn snap_triggered(t: AffineFx, up: Vec3Fx) -> bool {
    abs_int(dot_full(t.x_axis, up)) < UPRIGHT_SNAP_LIMIT as int
}

/// The reconstructed orthogonal frame of the upright snap: the up direction
/// crossed with the normalized forward axis gives the lateral axis, and both
/// are completed into a right-handed frame whose columns are rescaled to the
/// original lateral scale.
pub open spec fn upright_frame(t: AffineFx, up: Vec3Fx) -> (
    (int, int, int),
    (int, int, int),
    (int, int, int),
) {
    let scale = len_t(vec_ints(t.x_axis));
    let zu = rescale_t(vec_ints(t.z_axis), FX_ONE as int);
    let xu = rescale_t(cross_t(vec_ints(up), zu), FX_ONE as int);
    let y0 = cross_t(zu, xu);
    (rescale_t(xu, scale), rescale_t(y0, scale), rescale_t(zu, scale))
}

/// The full result of the upright snap over mathematical triples: the
/// reconstructed frame when triggered, the transform itself when not; the
/// translation is preserved either way.
pub open spec fn snap_upright_t(t: AffineFx, up: Vec3Fx) -> (
    (int, int, int),
    (int, int, int),
    (int, int, int),
    (int, int, int),
) {
    if snap_triggered(t, up) {
        let f = upright_frame(t, up);
        (f.0, f.1, f.2, vec_ints(t.translation))
    } else {
        (vec_ints(t.x_axis), vec_ints(t.y_axis), vec_ints(t.z_axis), vec_ints(t.translation))
    }
}

/// Rescaling a vector to its own integer length returns it unchanged: the
/// rounding in `rescale_t` vanishes exactly when the requested scale is
/// the length the vector already has.  This is the sense in which the
/// upright snap preserves scale: its columns are unit directions rescaled
/// to the original lateral length, and the rescaling is exact whenever
/// that length is representable.
pub proof fn lemma_rescale_at_own_length(a: (int, int, int))
    requires
        len_t(a) > 0,
    ensures
        rescale_t(a, len_t(a)) == a,
{
    let len = len_t(a);
    lemma_trunc_div_exact(a.0, len);
    lemma_trunc_div_exact(a.1, len);
    lemma_trunc_div_exact(a.2, len);
}

/// In the triggered case, the directions the upright frame is rebuilt
/// from are pairwise orthogonal before they are rounded to fixed point:
/// the lateral direction is orthogonal to world up and to the normalized
/// forward axis, and the rebuilt up direction is orthogonal to both the
/// forward axis and the rounded lateral axis.
pub proof fn lemma_upright_frame_orthogonal(t: AffineFx, up: Vec3Fx)
    ensures
        ({
            let zu = rescale_t(vec_ints(t.z_axis), FX_ONE as int);
            let x0 = cross_t(vec_ints(up), zu);
            let xu = rescale_t(x0, FX_ONE as int);
            let y0 = cross_t(zu, xu);
            &&& dot_t(x0, vec_ints(up)) == 0
            &&& dot_t(x0, zu) == 0
            &&& dot_t(y0, zu) == 0
            &&& dot_t(y0, xu) == 0
        }),
{
    let zu = rescale_t(vec_ints(t.z_axis), FX_ONE as int);
    let x0 = cross_t(vec_ints(up), zu);
    let xu = rescale_t(x0, FX_ONE as int);
    lemma_cross_t_orthogonal(vec_ints(up), zu);
    lemma_cross_t_orthogonal(zu, xu);
}

/// Exact truncating division of a multiple.
pub proof fn lemma_trunc_div_exact(a: int, d: int)
    requires
        d > 0,
    ensures
        trunc_div(a * d, d) == a,
{
    if a >= 0 {
        assert(a * d >= 0) by (nonlinear_arith)
            requires
                a >= 0,
                d > 0,
        ;
        assert((a * d) / d == a) by (nonlinear_arith)
            requires
                d > 0,
        ;
    } else {
        assert(a * d < 0) by (nonlinear_arith)
            requires
                a < 0,
                d > 0,
        ;
        assert(-(a * d) == (-a) * d) by (nonlinear_arith);
        assert(((-a) * d) / d == -a) by (nonlinear_arith)
            requires
                d > 0,
        ;
    }
}

/// Re-aligns a nearly-vertical head transform so that its up axis matches
/// world up; transforms outside the trigger range pass through unchanged,
/// and the translation is always preserved.
pub fn snap_upright(transform: AffineFx, up_dir: Vec3Fx) -> (r: AffineFx)
    requires
        affine_in_bounds(transform, FX_COORD_LIMIT as int),
        vec_in_bounds(up_dir, 2 * FX_ONE as int),
    ensures
        !snap_triggered(transform, up_dir) ==> r == transform,
        snap_triggered(transform, up_dir) ==> {
            &&& vec_ints(r.x_axis) == upright_frame(transform, up_dir).0
            &&& vec_ints(r.y_axis) == upright_frame(transform, up_dir).1
            &&& vec_ints(r.z_axis) == upright_frame(transform, up_dir).2
            &&& r.translation == transform.translation
            &&& vec_in_bounds(r.x_axis, len_t(vec_ints(transform.x_axis)))
            &&& vec_in_bounds(r.y_axis, len_t(vec_ints(transform.x_axis)))
            &&& vec_in_bounds(r.z_axis, len_t(vec_ints(transform.x_axis)))
        },
        vec_ints(r.x_axis) == snap_upright_t(transform, up_dir).0,
        vec_ints(r.y_axis) == snap_upright_t(transform, up_dir).1,
        vec_ints(r.z_axis) == snap_upright_t(transform, up_dir).2,
        vec_ints(r.translation) == snap_upright_t(transform, up_dir).3,
{
    let d = dot_raw(transform.x_axis, up_dir);
    let mag = abs_i64(d);
    if mag >= UPRIGHT_SNAP_LIMIT {
        transform
    } else {
        let scale = vec_len(transform.x_axis);
        proof {
            let norm = norm_sq_t(vec_ints(transform.x_axis));
            lemma_sq_nonneg(transform.x_axis.x as int);
            lemma_sq_nonneg(transform.x_axis.y as int);
            lemma_sq_nonneg(transform.x_axis.z as int);
            assert(norm >= 0);
            lemma_sqrt_nat_bounds(norm as nat);
            assert(scale as int == sqrt_nat(norm as nat) as int);
            lemma_mul_bounds(
                transform.x_axis.x as int,
                transform.x_axis.x as int,
                FX_COORD_LIMIT as int,
                FX_COORD_LIMIT as int,
            );
            lemma_mul_bounds(
                transform.x_axis.y as int,
                transform.x_axis.y as int,
                FX_COORD_LIMIT as int,
                FX_COORD_LIMIT as int,
            );
            lemma_mul_bounds(
                transform.x_axis.z as int,
                transform.x_axis.z as int,
                FX_COORD_LIMIT as int,
                FX_COORD_LIMIT as int,
            );
            assert(scale <= 0x8000_0000) by (nonlinear_arith)
                requires
                    scale as int * scale as int <= norm,
                    norm <= 3 * ((FX_COORD_LIMIT as int) * (FX_COORD_LIMIT as int)),
                    scale >= 0,
            ;
        }
        let zu = rescale(transform.z_axis, FX_ONE);
        let x0 = cross(up_dir, zu);
        proof {
            lemma_mul_bounds(up_dir.y as int, zu.z as int, 2 * FX_ONE as int, FX_ONE as int);
            lemma_mul_bounds(up_dir.z as int, zu.y as int, 2 * FX_ONE as int, FX_ONE as int);
            lemma_mul_bounds(up_dir.z as int, zu.x as int, 2 * FX_ONE as int, FX_ONE as int);
            lemma_mul_bounds(up_dir.x as int, zu.z as int, 2 * FX_ONE as int, FX_ONE as int);
            lemma_mul_bounds(up_dir.x as int, zu.y as int, 2 * FX_ONE as int, FX_ONE as int);
            lemma_mul_bounds(up_dir.y as int, zu.x as int, 2 * FX_ONE as int, FX_ONE as int);
        }
        let xu = rescale(x0, FX_ONE);
        let y0 = cross(zu, xu);
        proof {
            lemma_mul_bounds(zu.y as int, xu.z as int, FX_ONE as int, FX_ONE as int);
            lemma_mul_bounds(zu.z as int, xu.y as int, FX_ONE as int, FX_ONE as int);
            lemma_mul_bounds(zu.z as int, xu.x as int, FX_ONE as int, FX_ONE as int);
            lemma_mul_bounds(zu.x as int, xu.z as int, FX_ONE as int, FX_ONE as int);
            lemma_mul_bounds(zu.x as int, xu.y as int, FX_ONE as int, FX_ONE as int);
            lemma_mul_bounds(zu.y as int, xu.x as int, FX_ONE as int, FX_ONE as int);
        }
        AffineFx {
            x_axis: rescale(xu, scale),
            y_axis: rescale(y0, scale),
            z_axis: rescale(zu, scale),
            translation: transform.translation,
        }
    }
}

} // verus!
