//! Vector and matrix algebra over fixed-point scalars, plus the small
//! integer point used by the pixel-level rasterizers.

use vstd::prelude::*;
use crate::fixed::{
    fxm, sdiv, FX_ONE, MAX_COMP, isqrt, sqrt_floor, lemma_sqrt_floor_bounds,
};
use crate::RenderError;

verus! {

/// A three-component integer point.
#[derive(Debug, Clone, Copy, PartialEq, Eq, Structural)]
pub struct Point {
    pub x: i32,
    pub y: i32,
    pub z: i32,
}

impl Point {
    pub fn new(x: i32, y: i32, z: i32) -> (r: Point)
        ensures
            r.x == x && r.y == y && r.z == z,
    {
        Point { x: x, y: y, z: z }
    }

    pub fn get_x(self) -> (r: i32)
        ensures
            r == self.x,
    {
        self.x
    }

    pub fn get_y(self) -> (r: i32)
        ensures
            r == self.y,
    {
        self.y
    }

    pub fn get_z(self) -> (r: i32)
        ensures
            r == self.z,
    {
        self.z
    }

    /// Componentwise sum.
    pub fn add(self, other: Point) -> (r: Point)
        requires
            i32::MIN <= self.x + other.x <= i32::MAX,
            i32::MIN <= self.y + other.y <= i32::MAX,
            i32::MIN <= self.z + other.z <= i32::MAX,
        ensures
            r.x == self.x + other.x && r.y == self.y + other.y && r.z == self.z + other.z,
    {
        Point { x: self.x + other.x, y: self.y + other.y, z: self.z + other.z }
    }

    /// Componentwise difference.
    pub fn sub(self, other: Point) -> (r: Point)
        requires
            i32::MIN <= self.x - other.x <= i32::MAX,
            i32::MIN <= self.y - other.y <= i32::MAX,
            i32::MIN <= self.z - other.z <= i32::MAX,
        ensures
            r.x == self.x - other.x && r.y == self.y - other.y && r.z == self.z - other.z,
    {
        Point { x: self.x - other.x, y: self.y - other.y, z: self.z - other.z }
    }

    /// The inner product.
    pub fn dot(self, other: Point) -> (r: i32)
        requires
            i32::MIN <= self.x * other.x + self.y * other.y + self.z * other.z <= i32::MAX,
        ensures
            r == self.x * other.x + self.y * other.y + self.z * other.z,
    {
        proof {
            assert(i64::MIN <= (self.x as int) * (other.x as int) <= i64::MAX
                && i64::MIN <= (self.y as int) * (other.y as int) <= i64::MAX
                && i64::MIN <= (self.z as int) * (other.z as int) <= i64::MAX)
                by (nonlinear_arith)
                requires
                    i32::MIN <= self.x <= i32::MAX,
                    i32::MIN <= self.y <= i32::MAX,
                    i32::MIN <= self.z <= i32::MAX,
                    i32::MIN <= other.x <= i32::MAX,
                    i32::MIN <= other.y <= i32::MAX,
                    i32::MIN <= other.z <= i32::MAX,
            ;
        }
        let s: i128 = (self.x as i128) * (other.x as i128) + (self.y as i128) * (other.y as i128)
            + (self.z as i128) * (other.z as i128);
        s as i32
    }

    /// Each component multiplied by a scalar.
    pub fn scale(self, scalar: i32) -> (r: Point)
        requires
            i32::MIN <= scalar * self.x <= i32::MAX,
            i32::MIN <= scalar * self.y <= i32::MAX,
            i32::MIN <= scalar * self.z <= i32::MAX,
        ensures
            r.x == scalar * self.x && r.y == scalar * self.y && r.z == scalar * self.z,
    {
        proof {
            assert(i64::MIN <= (scalar as int) * (self.x as int) <= i64::MAX
                && i64::MIN <= (scalar as int) * (self.y as int) <= i64::MAX
                && i64::MIN <= (scalar as int) * (self.z as int) <= i64::MAX)
                by (nonlinear_arith)
                requires
                    i32::MIN <= scalar <= i32::MAX,
                    i32::MIN <= self.x <= i32::MAX,
                    i32::MIN <= self.y <= i32::MAX,
                    i32::MIN <= self.z <= i32::MAX,
            ;
        }
        Point {
            x: ((scalar as i64) * (self.x as i64)) as i32,
            y: ((scalar as i64) * (self.y as i64)) as i32,
            z: ((scalar as i64) * (self.z as i64)) as i32,
        }
    }
}

/// A three-component fixed-point vector.
#[derive(Debug, Clone, Copy, PartialEq, Eq, Structural)]
pub struct Vector3 {
    pub x: i64,
    pub y: i64,
    pub z: i64,
}

/// A four-component fixed-point vector, a homogeneous coordinate.
#[derive(Debug, Clone, Copy, PartialEq, Eq, Structural)]
pub struct Vector4 {
    pub x: i64,
    pub y: i64,
    pub z: i64,
    pub w: i64,
}

/// All components within the range products accept.
pub open spec fn v3_ok(v: Vector3) -> bool {
    -MAX_COMP <= v.x <= MAX_COMP && -MAX_COMP <= v.y <= MAX_COMP && -MAX_COMP <= v.z <= MAX_COMP
}

/// The squared length of a vector, in raw counts squared.
pub open spec fn len_sq(v: Vector3) -> int {
    v.x * v.x + v.y * v.y + v.z * v.z
}

/// The length of a vector, in raw counts.
pub open spec fn norm_len(v: Vector3) -> int {
    sqrt_floor(len_sq(v) as nat) as int
}

/// Computes `sdiv` of an `i128` numerator by a nonzero denominator.
pub(crate) fn sdiv_i128(n: i128, d: i128) -> (r: i64)
    requires
        d != 0,
        n > i128::MIN,
        d > i128::MIN,
        -0x7FFF_FFFF_FFFF_FFFF <= sdiv(n as int, d as int) <= 0x7FFF_FFFF_FFFF_FFFF,
    ensures
        r == sdiv(n as int, d as int),
{
    let nm: u128 = (if n >= 0 { n } else { -n }) as u128;
    let dm: u128 = (if d >= 0 { d } else { -d }) as u128;
    let q: u128 = nm / dm;
    proof {
        let ni = n as int;
        let di = d as int;
        if di > 0 {
            if ni >= 0 {
                assert(sdiv(ni, di) == ni / di);
            } else {
                assert(sdiv(ni, di) == -((-ni) / di));
            }
        } else {
            if ni <= 0 {
                assert(sdiv(ni, di) == (-ni) / (-di));
            } else {
                assert(sdiv(ni, di) == -(ni / (-di)));
            }
        }
        vstd::arithmetic::div_mod::lemma_div_pos_is_pos(nm as int, dm as int);
    }
    if (n < 0) != (d < 0) {
        -(q as i64)
    } else {
        q as i64
    }
}

/// The product of two `i64` values, exactly.
pub(crate) fn mul64(a: i64, b: i64) -> (r: i128)
    ensures
        r == a as int * b as int,
{
    proof {
        assert(i128::MIN <= (a as int) * (b as int) <= i128::MAX) by (nonlinear_arith)
            requires
                i64::MIN <= a <= i64::MAX,
                i64::MIN <= b <= i64::MAX,
        ;
    }
    (a as i128) * (b as i128)
}

impl Vector3 {
    pub fn new(x: i64, y: i64, z: i64) -> (r: Vector3)
        ensures
            r == (Vector3 { x, y, z }),
    {
        Vector3 { x, y, z }
    }

    /// Componentwise sum.
    pub fn add(self, other: Vector3) -> (r: Vector3)
        requires
            v3_ok(self),
            v3_ok(other),
        ensures
            r.x == self.x + other.x && r.y == self.y + other.y && r.z == self.z + other.z,
    {
        Vector3 { x: self.x + other.x, y: self.y + other.y, z: self.z + other.z }
    }

    /// Componentwise difference.
    pub fn sub(self, other: Vector3) -> (r: Vector3)
        requires
            v3_ok(self),
            v3_ok(other),
        ensures
            r.x == self.x - other.x && r.y == self.y - other.y && r.z == self.z - other.z,
    {
        Vector3 { x: self.x - other.x, y: self.y - other.y, z: self.z - other.z }
    }

    /// The fixed-point inner product.
    pub fn dot(self, other: Vector3) -> (r: i64)
        requires
            v3_ok(self),
            v3_ok(other),
        ensures
            r == fxm(self.x as int, other.x as int) + fxm(self.y as int, other.y as int) + fxm(
                self.z as int,
                other.z as int,
            ),
            -0xC000_0000_0000 <= r <= 0xC000_0000_0000,
    {
        crate::fixed::fx_mul(self.x, other.x) + crate::fixed::fx_mul(self.y, other.y)
            + crate::fixed::fx_mul(self.z, other.z)
    }

    /// The fixed-point cross product.
    pub fn cross(self, other: Vector3) -> (r: Vector3)
        requires
            v3_ok(self),
            v3_ok(other),
        ensures
            r.x == fxm(self.y as int, other.z as int) - fxm(self.z as int, other.y as int),
            r.y == fxm(self.z as int, other.x as int) - fxm(self.x as int, other.z as int),
            r.z == fxm(self.x as int, other.y as int) - fxm(self.y as int, other.x as int),
            -0x8000_0000_0000 <= r.x <= 0x8000_0000_0000,
            -0x8000_0000_0000 <= r.y <= 0x8000_0000_0000,
            -0x8000_0000_0000 <= r.z <= 0x8000_0000_0000,
    {
        Vector3 {
            x: crate::fixed::fx_mul(self.y, other.z) - crate::fixed::fx_mul(self.z, other.y),
            y: crate::fixed::fx_mul(self.z, other.x) - crate::fixed::fx_mul(self.x, other.z),
            z: crate::fixed::fx_mul(self.x, other.y) - crate::fixed::fx_mul(self.y, other.x),
        }
    }

    /// Each component multiplied by a fixed-point scalar.
    pub fn scale(self, s: i64) -> (r: Vector3)
        requires
            v3_ok(self),
            -MAX_COMP <= s <= MAX_COMP,
        ensures
            r.x == fxm(s as int, self.x as int),
            r.y == fxm(s as int, self.y as int),
            r.z == fxm(s as int, self.z as int),
    {
        Vector3 {
            x: crate::fixed::fx_mul(s, self.x),
            y: crate::fixed::fx_mul(s, self.y),
            z: crate::fixed::fx_mul(s, self.z),
        }
    }

    /// The vector's length, in raw counts.
    pub fn length(self) -> (r: i64)
        requires
            -0x4000_0000_0000_0000 <= self.x <= 0x4000_0000_0000_0000,
            -0x4000_0000_0000_0000 <= self.y <= 0x4000_0000_0000_0000,
            -0x4000_0000_0000_0000 <= self.z <= 0x4000_0000_0000_0000,
        ensures
            r == norm_len(self),
            r >= 0,
    {
        let xx: i128 = mul64(self.x, self.x);
        let yy: i128 = mul64(self.y, self.y);
        let zz: i128 = mul64(self.z, self.z);
        proof {
            lemma_square_nonneg(self.x as int);
            lemma_square_nonneg(self.y as int);
            lemma_square_nonneg(self.z as int);
            lemma_square_upper(self.x as int);
            lemma_square_upper(self.y as int);
            lemma_square_upper(self.z as int);
        }
        let d: u128 = (xx + yy + zz) as u128;
        let len: u64 = isqrt(d);
        proof {
            lemma_sqrt_floor_bounds(d as nat);
            assert(len < 0x8000_0000_0000_0000) by (nonlinear_arith)
                requires
                    (len as int) * (len as int) <= d as int,
                    d as int <= 0x3000_0000_0000_0000_0000_0000_0000_0000,
            ;
        }
        len as i64
    }

    /// Scales the vector to unit length; fails on the zero vector.
    pub fn normalize(self) -> (r: Result<Vector3, RenderError>)
        requires
            -0x4000_0000_0000_0000 <= self.x <= 0x4000_0000_0000_0000,
            -0x4000_0000_0000_0000 <= self.y <= 0x4000_0000_0000_0000,
            -0x4000_0000_0000_0000 <= self.z <= 0x4000_0000_0000_0000,
        ensures
            r is Err <==> self == (Vector3 { x: 0, y: 0, z: 0 }),
            r is Err ==> r == Err::<Vector3, RenderError>(RenderError::DivisionSingularity),
            r matches Ok(u) ==> ({
                let l = norm_len(self);
                &&& u.x == sdiv(self.x * FX_ONE, l)
                &&& u.y == sdiv(self.y * FX_ONE, l)
                &&& u.z == sdiv(self.z * FX_ONE, l)
                &&& -FX_ONE <= u.x <= FX_ONE
                &&& -FX_ONE <= u.y <= FX_ONE
                &&& -FX_ONE <= u.z <= FX_ONE
            }),
    {
        let xx: i128 = mul64(self.x, self.x);
        let yy: i128 = mul64(self.y, self.y);
        let zz: i128 = mul64(self.z, self.z);
        proof {
            lemma_square_nonneg(self.x as int);
            lemma_square_nonneg(self.y as int);
            lemma_square_nonneg(self.z as int);
            lemma_square_upper(self.x as int);
            lemma_square_upper(self.y as int);
            lemma_square_upper(self.z as int);
        }
        let d: u128 = (xx + yy + zz) as u128;
        let len: u64 = isqrt(d);
        proof {
            lemma_sqrt_floor_bounds(d as nat);
            if self.x == 0 && self.y == 0 && self.z == 0 {
                assert(self.x as int * self.x as int == 0
                    && self.y as int * self.y as int == 0
                    && self.z as int * self.z as int == 0) by (nonlinear_arith)
                    requires
                        self.x == 0,
                        self.y == 0,
                        self.z == 0,
                ;
                assert(d == 0);
                assert(sqrt_floor(0nat) == 0);
            }
        }
        if len == 0 {
            proof {
                if self.x != 0 || self.y != 0 || self.z != 0 {
                    lemma_square_pos_when_nonzero(self.x as int, self.y as int, self.z as int);
                    assert((len as int + 1) * (len as int + 1) == 1) by (nonlinear_arith)
                        requires
                            len == 0,
                    ;
                }
            }
            Err(RenderError::DivisionSingularity)
        } else {
            proof {
                lemma_component_within_length(self.x as int, len_sq(self), norm_len(self));
                lemma_component_within_length(self.y as int, len_sq(self), norm_len(self));
                lemma_component_within_length(self.z as int, len_sq(self), norm_len(self));
                lemma_norm_component_bounded(self.x as int, norm_len(self));
                lemma_norm_component_bounded(self.y as int, norm_len(self));
                lemma_norm_component_bounded(self.z as int, norm_len(self));
            }
            let nx: i64 = sdiv_i128(mul64(self.x, FX_ONE), len as i128);
            let ny: i64 = sdiv_i128(mul64(self.y, FX_ONE), len as i128);
            let nz: i64 = sdiv_i128(mul64(self.z, FX_ONE), len as i128);
            Ok(Vector3 { x: nx, y: ny, z: nz })
        }
    }
}

/// A 4x4 fixed-point matrix, held as four column vectors.
#[derive(Debug, Clone, Copy, PartialEq, Eq, Structural)]
pub struct Matrix4 {
    pub c0: Vector4,
    pub c1: Vector4,
    pub c2: Vector4,
    pub c3: Vector4,
}

/// All components within the range products accept.
pub open spec fn v4_ok(v: Vector4) -> bool {
    -MAX_COMP <= v.x <= MAX_COMP && -MAX_COMP <= v.y <= MAX_COMP && -MAX_COMP <= v.z <= MAX_COMP
        && -MAX_COMP <= v.w <= MAX_COMP
}

/// All entries within the range products accept.
pub open spec fn mat_ok(m: Matrix4) -> bool {
    v4_ok(m.c0) && v4_ok(m.c1) && v4_ok(m.c2) && v4_ok(m.c3)
}

/// The first component of a matrix-vector product.
pub open spec fn mv_x(m: Matrix4, v: Vector4) -> int {
    fxm(m.c0.x as int, v.x as int) + fxm(m.c1.x as int, v.y as int) + fxm(m.c2.x as int, v.z as int)
        + fxm(m.c3.x as int, v.w as int)
}

/// The second component of a matrix-vector product.
pub open spec fn mv_y(m: Matrix4, v: Vector4) -> int {
    fxm(m.c0.y as int, v.x as int) + fxm(m.c1.y as int, v.y as int) + fxm(m.c2.y as int, v.z as int)
        + fxm(m.c3.y as int, v.w as int)
}

/// The third component of a matrix-vector product.
pub open spec fn mv_z(m: Matrix4, v: Vector4) -> int {
    fxm(m.c0.z as int, v.x as int) + fxm(m.c1.z as int, v.y as int) + fxm(m.c2.z as int, v.z as int)
        + fxm(m.c3.z as int, v.w as int)
}

/// The fourth component of a matrix-vector product.
pub open spec fn mv_w(m: Matrix4, v: Vector4) -> int {
    fxm(m.c0.w as int, v.x as int) + fxm(m.c1.w as int, v.y as int) + fxm(m.c2.w as int, v.z as int)
        + fxm(m.c3.w as int, v.w as int)
}

/// One column of a matrix-matrix product fits the component range.
pub open spec fn col_in_range(m: Matrix4, v: Vector4) -> bool {
    -MAX_COMP <= mv_x(m, v) <= MAX_COMP && -MAX_COMP <= mv_y(m, v) <= MAX_COMP && -MAX_COMP <= mv_z(
        m,
        v,
    ) <= MAX_COMP && -MAX_COMP <= mv_w(m, v) <= MAX_COMP
}

/// The composition of two matrices: each column of `b` pushed
/// through `a`.
pub open spec fn mat_mul_spec(a: Matrix4, b: Matrix4) -> Matrix4 {
    Matrix4 {
        c0: Vector4 {
            x: mv_x(a, b.c0) as i64,
            y: mv_y(a, b.c0) as i64,
            z: mv_z(a, b.c0) as i64,
            w: mv_w(a, b.c0) as i64,
        },
        c1: Vector4 {
            x: mv_x(a, b.c1) as i64,
            y: mv_y(a, b.c1) as i64,
            z: mv_z(a, b.c1) as i64,
            w: mv_w(a, b.c1) as i64,
        },
        c2: Vector4 {
            x: mv_x(a, b.c2) as i64,
            y: mv_y(a, b.c2) as i64,
            z: mv_z(a, b.c2) as i64,
            w: mv_w(a, b.c2) as i64,
        },
        c3: Vector4 {
            x: mv_x(a, b.c3) as i64,
            y: mv_y(a, b.c3) as i64,
            z: mv_z(a, b.c3) as i64,
            w: mv_w(a, b.c3) as i64,
        },
    }
}

/// Every column of a matrix-matrix product fits the component range.
pub open spec fn mat_mul_in_range(a: Matrix4, b: Matrix4) -> bool {
    col_in_range(a, b.c0) && col_in_range(a, b.c1) && col_in_range(a, b.c2) && col_in_range(a, b.c3)
}

impl Matrix4 {
    /// A matrix from its four column vectors.
    pub fn from_cols(c0: Vector4, c1: Vector4, c2: Vector4, c3: Vector4) -> (r: Matrix4)
        ensures
            r == (Matrix4 { c0, c1, c2, c3 }),
    {
        Matrix4 { c0, c1, c2, c3 }
    }

    /// Applies the matrix to a homogeneous vector.
    pub fn mul_vec(&self, v: Vector4) -> (r: Vector4)
        requires
            mat_ok(*self),
            v4_ok(v),
        ensures
            r.x == mv_x(*self, v),
            r.y == mv_y(*self, v),
            r.z == mv_z(*self, v),
            r.w == mv_w(*self, v),
            -0x1_0000_0000_0000 <= r.x <= 0x1_0000_0000_0000,
            -0x1_0000_0000_0000 <= r.y <= 0x1_0000_0000_0000,
            -0x1_0000_0000_0000 <= r.z <= 0x1_0000_0000_0000,
            -0x1_0000_0000_0000 <= r.w <= 0x1_0000_0000_0000,
    {
        let x = crate::fixed::fx_mul(self.c0.x, v.x) + crate::fixed::fx_mul(self.c1.x, v.y)
            + crate::fixed::fx_mul(self.c2.x, v.z) + crate::fixed::fx_mul(self.c3.x, v.w);
        let y = crate::fixed::fx_mul(self.c0.y, v.x) + crate::fixed::fx_mul(self.c1.y, v.y)
            + crate::fixed::fx_mul(self.c2.y, v.z) + crate::fixed::fx_mul(self.c3.y, v.w);
        let z = crate::fixed::fx_mul(self.c0.z, v.x) + crate::fixed::fx_mul(self.c1.z, v.y)
            + crate::fixed::fx_mul(self.c2.z, v.z) + crate::fixed::fx_mul(self.c3.z, v.w);
        let w = crate::fixed::fx_mul(self.c0.w, v.x) + crate::fixed::fx_mul(self.c1.w, v.y)
            + crate::fixed::fx_mul(self.c2.w, v.z) + crate::fixed::fx_mul(self.c3.w, v.w);
        Vector4 { x, y, z, w }
    }

    /// Composes two matrices; `None` when an entry leaves the
    /// component range.
    pub fn mul_mat(&self, other: &Matrix4) -> (r: Option<Matrix4>)
        requires
            mat_ok(*self),
            mat_ok(*other),
        ensures
            r is Some <==> mat_mul_in_range(*self, *other),
            r matches Some(p) ==> ({
                &&& p.c0.x == mv_x(*self, other.c0) && p.c0.y == mv_y(*self, other.c0) && p.c0.z
                    == mv_z(*self, other.c0) && p.c0.w == mv_w(*self, other.c0)
                &&& p.c1.x == mv_x(*self, other.c1) && p.c1.y == mv_y(*self, other.c1) && p.c1.z
                    == mv_z(*self, other.c1) && p.c1.w == mv_w(*self, other.c1)
                &&& p.c2.x == mv_x(*self, other.c2) && p.c2.y == mv_y(*self, other.c2) && p.c2.z
                    == mv_z(*self, other.c2) && p.c2.w == mv_w(*self, other.c2)
                &&& p.c3.x == mv_x(*self, other.c3) && p.c3.y == mv_y(*self, other.c3) && p.c3.z
                    == mv_z(*self, other.c3) && p.c3.w == mv_w(*self, other.c3)
                &&& mat_ok(p)
                &&& p == mat_mul_spec(*self, *other)
            }),
    {
        let c0 = self.mul_vec(other.c0);
        let c1 = self.mul_vec(other.c1);
        let c2 = self.mul_vec(other.c2);
        let c3 = self.mul_vec(other.c3);
        if col_fits(c0) && col_fits(c1) && col_fits(c2) && col_fits(c3) {
            Some(Matrix4 { c0, c1, c2, c3 })
        } else {
            None
        }
    }
}

/// Tests whether a computed column stays within the component range.
fn col_fits(v: Vector4) -> (r: bool)
    ensures
        r == v4_ok(v),
{
    -MAX_COMP <= v.x && v.x <= MAX_COMP && -MAX_COMP <= v.y && v.y <= MAX_COMP && -MAX_COMP <= v.z
        && v.z <= MAX_COMP && -MAX_COMP <= v.w && v.w <= MAX_COMP
}

/// A square is never negative.
proof fn lemma_square_nonneg(x: int)
    ensures
        x * x >= 0,
{
    assert(x * x >= 0) by (nonlinear_arith);
}

/// A bounded component has a bounded square.
proof fn lemma_square_upper(x: int)
    requires
        -0x4000_0000_0000_0000 <= x <= 0x4000_0000_0000_0000,
    ensures
        x * x <= 0x1000_0000_0000_0000_0000_0000_0000_0000,
{
    assert(x * x <= 0x1000_0000_0000_0000_0000_0000_0000_0000) by (nonlinear_arith)
        requires
            -0x4000_0000_0000_0000 <= x <= 0x4000_0000_0000_0000,
    ;
}

/// A sum of squares with a nonzero term is positive.
proof fn lemma_square_pos_when_nonzero(x: int, y: int, z: int)
    requires
        x != 0 || y != 0 || z != 0,
    ensures
        x * x + y * y + z * z > 0,
{
    assert(x * x + y * y + z * z > 0) by (nonlinear_arith)
        requires
            x != 0 || y != 0 || z != 0,
    ;
}

/// A component's magnitude never exceeds the vector's length.
proof fn lemma_component_within_length(x: int, d: int, l: int)
    requires
        x * x <= d,
        l >= 0,
        d < (l + 1) * (l + 1),
    ensures
        -l <= x <= l,
{
    assert(-l <= x <= l) by (nonlinear_arith)
        requires
            x * x <= d,
            l >= 0,
            d < (l + 1) * (l + 1),
    ;
}

/// Dividing a component by a length at least as large keeps the
/// quotient within one unit.
proof fn lemma_norm_component_bounded(x: int, l: int)
    requires
        l > 0,
        -l <= x <= l,
    ensures
        -FX_ONE <= sdiv(x * FX_ONE, l) <= FX_ONE,
{
    if x >= 0 {
        assert(x * FX_ONE <= l * FX_ONE) by (nonlinear_arith)
            requires
                x <= l,
                l > 0,
        ;
        vstd::arithmetic::div_mod::lemma_div_is_ordered(x * FX_ONE, l * FX_ONE, l);
        vstd::arithmetic::div_mod::lemma_div_by_multiple(FX_ONE as int, l);
        vstd::arithmetic::div_mod::lemma_div_pos_is_pos(x * FX_ONE, l);
        assert(l * FX_ONE == FX_ONE * l) by (nonlinear_arith);
    } else {
        assert((-x) * FX_ONE <= l * FX_ONE) by (nonlinear_arith)
            requires
                -x <= l,
                l > 0,
        ;
        assert(-(x * FX_ONE) == (-x) * FX_ONE) by (nonlinear_arith);
        vstd::arithmetic::div_mod::lemma_div_is_ordered((-x) * FX_ONE, l * FX_ONE, l);
        vstd::arithmetic::div_mod::lemma_div_by_multiple(FX_ONE as int, l);
        vstd::arithmetic::div_mod::lemma_div_pos_is_pos((-x) * FX_ONE, l);
        assert(l * FX_ONE == FX_ONE * l) by (nonlinear_arith);
    }
}

} // verus!
