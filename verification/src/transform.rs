//! The transform chain: the view (lookat) matrix, the pinhole
//! projection, the viewport map, and the per-vertex transform with its
//! perspective divide.

use vstd::prelude::*;
use crate::fixed::{fxm, fxd, sdiv, FX_ONE, MAX_COMP, SCREEN_MAX};
use crate::fixed::{lemma_fxm_bound, lemma_fxm_one, lemma_fxm_zero, lemma_tz_bound};
use crate::geometry::{Vector3, Vector4, Matrix4, v3_ok, v4_ok, mat_ok};
use crate::geometry::{mv_x, mv_y, mv_z, mv_w, norm_len};
use crate::RenderError;

verus! {

/// The matrix that maps the normalized cube onto a screen box at
/// `(x, y)` of size `(w, h)` with the given depth range.
pub open spec fn viewport_mat(x: i64, y: i64, w: i64, h: i64, depth: i64) -> Matrix4 {
    Matrix4 {
        c0: Vector4 { x: (w / 2) as i64, y: 0, z: 0, w: 0 },
        c1: Vector4 { x: 0, y: (h / 2) as i64, z: 0, w: 0 },
        c2: Vector4 { x: 0, y: 0, z: (depth / 2) as i64, w: 0 },
        c3: Vector4 {
            x: (x + w / 2) as i64,
            y: (y + h / 2) as i64,
            z: (depth / 2) as i64,
            w: FX_ONE,
        },
    }
}

/// Builds the viewport matrix.
pub fn viewport(x: i64, y: i64, w: i64, h: i64, depth: i64) -> (m: Matrix4)
    requires
        0 <= x <= SCREEN_MAX,
        0 <= y <= SCREEN_MAX,
        0 <= w <= SCREEN_MAX,
        0 <= h <= SCREEN_MAX,
        0 <= depth <= SCREEN_MAX,
    ensures
        m == viewport_mat(x, y, w, h, depth),
        mat_ok(m),
{
    let w2: i64 = ((w as u64) / 2) as i64;
    let h2: i64 = ((h as u64) / 2) as i64;
    let d2: i64 = ((depth as u64) / 2) as i64;
    Matrix4 {
        c0: Vector4 { x: w2, y: 0, z: 0, w: 0 },
        c1: Vector4 { x: 0, y: h2, z: 0, w: 0 },
        c2: Vector4 { x: 0, y: 0, z: d2, w: 0 },
        c3: Vector4 { x: x + w2, y: y + h2, z: d2, w: FX_ONE },
    }
}

/// The pinhole projection matrix for a camera at the given distance:
/// the identity with `-1/distance` where the output `w` reads `z`.
pub open spec fn perspective_mat(distance: i64) -> Matrix4
    recommends
        distance > 0,
{
    Matrix4 {
        c0: Vector4 { x: FX_ONE, y: 0, z: 0, w: 0 },
        c1: Vector4 { x: 0, y: FX_ONE, z: 0, w: 0 },
        c2: Vector4 { x: 0, y: 0, z: FX_ONE, w: (-fxd(FX_ONE as int, distance as int)) as i64 },
        c3: Vector4 { x: 0, y: 0, z: 0, w: FX_ONE },
    }
}

/// Builds the pinhole projection for a camera at the given distance.
pub fn perspective(distance: i64) -> (r: Result<Matrix4, RenderError>)
    requires
        0 <= distance <= MAX_COMP,
    ensures
        r is Err <==> (distance == 0 || !(-MAX_COMP <= fxd(FX_ONE as int, distance as int)
            <= MAX_COMP)),
        r is Err ==> r == Err::<Matrix4, RenderError>(RenderError::DivisionSingularity),
        r matches Ok(m) ==> m == perspective_mat(distance) && mat_ok(m),
{
    if distance == 0 {
        return Err(RenderError::DivisionSingularity);
    }
    match crate::fixed::fx_div(FX_ONE, distance) {
        None => Err(RenderError::DivisionSingularity),
        Some(q) => Ok(
            Matrix4 {
                c0: Vector4 { x: FX_ONE, y: 0, z: 0, w: 0 },
                c1: Vector4 { x: 0, y: FX_ONE, z: 0, w: 0 },
                c2: Vector4 { x: 0, y: 0, z: FX_ONE, w: -q },
                c3: Vector4 { x: 0, y: 0, z: 0, w: FX_ONE },
            },
        ),
    }
}

/// The view matrix of a camera at `eye` looking at `center` with the
/// given up direction: the rotated basis as rows, and the translation
/// by `-center`.
pub open spec fn lookat_mat(eye: Vector3, center: Vector3, up: Vector3) -> Matrix4 {
    let d = (Vector3 {
        x: (eye.x - center.x) as i64,
        y: (eye.y - center.y) as i64,
        z: (eye.z - center.z) as i64,
    });
    let za = (Vector3 {
        x: sdiv(d.x * FX_ONE, norm_len(d)) as i64,
        y: sdiv(d.y * FX_ONE, norm_len(d)) as i64,
        z: sdiv(d.z * FX_ONE, norm_len(d)) as i64,
    });
    let cu = (Vector3 {
        x: (fxm(up.y as int, za.z as int) - fxm(up.z as int, za.y as int)) as i64,
        y: (fxm(up.z as int, za.x as int) - fxm(up.x as int, za.z as int)) as i64,
        z: (fxm(up.x as int, za.y as int) - fxm(up.y as int, za.x as int)) as i64,
    });
    let xa = (Vector3 {
        x: sdiv(cu.x * FX_ONE, norm_len(cu)) as i64,
        y: sdiv(cu.y * FX_ONE, norm_len(cu)) as i64,
        z: sdiv(cu.z * FX_ONE, norm_len(cu)) as i64,
    });
    let ya = (Vector3 {
        x: (fxm(za.y as int, xa.z as int) - fxm(za.z as int, xa.y as int)) as i64,
        y: (fxm(za.z as int, xa.x as int) - fxm(za.x as int, xa.z as int)) as i64,
        z: (fxm(za.x as int, xa.y as int) - fxm(za.y as int, xa.x as int)) as i64,
    });
    Matrix4 {
        c0: Vector4 { x: xa.x, y: ya.x, z: za.x, w: 0 },
        c1: Vector4 { x: xa.y, y: ya.y, z: za.y, w: 0 },
        c2: Vector4 { x: xa.z, y: ya.z, z: za.z, w: 0 },
        c3: Vector4 {
            x: (-center.x) as i64,
            y: (-center.y) as i64,
            z: (-center.z) as i64,
            w: FX_ONE,
        },
    }
}

/// Whether the view matrix cannot be built: the up direction is
/// parallel to the view axis. Parallelism is decided on the raw
/// vectors, by an exact integer cross product of `up` and
/// `eye - center` with no fixed-point truncation, so an up direction
/// exactly along the view axis always counts (an eye on the center,
/// or a zero up direction, makes that cross zero too); a truncated
/// cross of zero, an up direction parallel at rounding level, counts
/// as well, since the vector to normalize has ~zero length.
pub open spec fn lookat_fails(eye: Vector3, center: Vector3, up: Vector3) -> bool {
    let d = (Vector3 {
        x: (eye.x - center.x) as i64,
        y: (eye.y - center.y) as i64,
        z: (eye.z - center.z) as i64,
    });
    let za = (Vector3 {
        x: sdiv(d.x * FX_ONE, norm_len(d)) as i64,
        y: sdiv(d.y * FX_ONE, norm_len(d)) as i64,
        z: sdiv(d.z * FX_ONE, norm_len(d)) as i64,
    });
    let cu = (Vector3 {
        x: (fxm(up.y as int, za.z as int) - fxm(up.z as int, za.y as int)) as i64,
        y: (fxm(up.z as int, za.x as int) - fxm(up.x as int, za.z as int)) as i64,
        z: (fxm(up.x as int, za.y as int) - fxm(up.y as int, za.x as int)) as i64,
    });
    (up.y * d.z - up.z * d.y == 0 && up.z * d.x - up.x * d.z == 0 && up.x * d.y - up.y * d.x == 0)
        || cu == (Vector3 { x: 0, y: 0, z: 0 })
}

/// Builds the view matrix for a camera at `eye` looking at `center`
/// with the given up direction. Fails when the up direction is
/// parallel to the view axis, the eye sits on the center, or the up
/// direction is zero: in each case a vector of ~zero length would be
/// normalized.
pub fn lookat(eye: Vector3, center: Vector3, up: Vector3) -> (r: Result<Matrix4, RenderError>)
    requires
        v3_ok(eye),
        v3_ok(center),
        v3_ok(up),
    ensures
        r is Err ==> r == Err::<Matrix4, RenderError>(RenderError::DivisionSingularity),
        r is Err <==> lookat_fails(eye, center, up),
        r matches Ok(m) ==> m == lookat_mat(eye, center, up) && mat_ok(m),
{
    let d = eye.sub(center);
    proof {
        crate::fixed::lemma_mul_bound(up.y as int, d.z as int, MAX_COMP as int, 0x1_0000_0000);
        crate::fixed::lemma_mul_bound(up.z as int, d.y as int, MAX_COMP as int, 0x1_0000_0000);
        crate::fixed::lemma_mul_bound(up.z as int, d.x as int, MAX_COMP as int, 0x1_0000_0000);
        crate::fixed::lemma_mul_bound(up.x as int, d.z as int, MAX_COMP as int, 0x1_0000_0000);
        crate::fixed::lemma_mul_bound(up.x as int, d.y as int, MAX_COMP as int, 0x1_0000_0000);
        crate::fixed::lemma_mul_bound(up.y as int, d.x as int, MAX_COMP as int, 0x1_0000_0000);
    }
    let rcx: i128 = crate::geometry::mul64(up.y, d.z) - crate::geometry::mul64(up.z, d.y);
    let rcy: i128 = crate::geometry::mul64(up.z, d.x) - crate::geometry::mul64(up.x, d.z);
    let rcz: i128 = crate::geometry::mul64(up.x, d.y) - crate::geometry::mul64(up.y, d.x);
    if rcx == 0 && rcy == 0 && rcz == 0 {
        return Err(RenderError::DivisionSingularity);
    }
    let za = match d.normalize() {
        Ok(v) => v,
        Err(e) => {
            proof {
                lemma_cross_of_zero_view(up.x as int, up.y as int, up.z as int);
            }
            return Err(e);
        },
    };
    let cu = up.cross(za);
    let xa = match cu.normalize() {
        Ok(v) => v,
        Err(e) => {
            return Err(e);
        },
    };
    let ya = za.cross(xa);
    proof {
        lemma_fxm_bound(za.y as int, xa.z as int, FX_ONE as int, FX_ONE as int, FX_ONE as int);
        lemma_fxm_bound(za.z as int, xa.y as int, FX_ONE as int, FX_ONE as int, FX_ONE as int);
        lemma_fxm_bound(za.z as int, xa.x as int, FX_ONE as int, FX_ONE as int, FX_ONE as int);
        lemma_fxm_bound(za.x as int, xa.z as int, FX_ONE as int, FX_ONE as int, FX_ONE as int);
        lemma_fxm_bound(za.x as int, xa.y as int, FX_ONE as int, FX_ONE as int, FX_ONE as int);
        lemma_fxm_bound(za.y as int, xa.x as int, FX_ONE as int, FX_ONE as int, FX_ONE as int);
    }
    Ok(
        Matrix4 {
            c0: Vector4 { x: xa.x, y: ya.x, z: za.x, w: 0 },
            c1: Vector4 { x: xa.y, y: ya.y, z: za.y, w: 0 },
            c2: Vector4 { x: xa.z, y: ya.z, z: za.z, w: 0 },
            c3: Vector4 { x: -center.x, y: -center.y, z: -center.z, w: FX_ONE },
        },
    )
}

/// A cross product against the zero vector is zero.
proof fn lemma_cross_of_zero_view(ux: int, uy: int, uz: int)
    ensures
        uy * 0 - uz * 0 == 0,
        uz * 0 - ux * 0 == 0,
        ux * 0 - uy * 0 == 0,
{
    assert(uy * 0 == 0 && uz * 0 == 0 && ux * 0 == 0) by (nonlinear_arith);
}

/// The homogeneous clip coordinate of a vertex.
pub open spec fn clip_of(pl: Matrix4, v: Vector3) -> Vector4 {
    let hv = Vector4 { x: v.x, y: v.y, z: v.z, w: FX_ONE };
    Vector4 {
        x: mv_x(pl, hv) as i64,
        y: mv_y(pl, hv) as i64,
        z: mv_z(pl, hv) as i64,
        w: mv_w(pl, hv) as i64,
    }
}

/// The normalized device coordinate of a vertex, after the
/// perspective divide.
pub open spec fn ndc_of(pl: Matrix4, v: Vector3) -> Vector3
    recommends
        clip_of(pl, v).w != 0,
{
    let c = clip_of(pl, v);
    Vector3 {
        x: fxd(c.x as int, c.w as int) as i64,
        y: fxd(c.y as int, c.w as int) as i64,
        z: fxd(c.z as int, c.w as int) as i64,
    }
}

/// The screen coordinate of a vertex: its normalized device
/// coordinate pushed through the viewport matrix.
pub open spec fn screen_of(pl: Matrix4, vp: Matrix4, v: Vector3) -> Vector3 {
    let n = ndc_of(pl, v);
    let hn = Vector4 { x: n.x, y: n.y, z: n.z, w: FX_ONE };
    Vector3 { x: mv_x(vp, hn) as i64, y: mv_y(vp, hn) as i64, z: mv_z(vp, hn) as i64 }
}

/// Whether the whole transform of a vertex stays representable.
pub open spec fn vertex_maps(pl: Matrix4, vp: Matrix4, v: Vector3) -> bool {
    let c = clip_of(pl, v);
    let n = ndc_of(pl, v);
    let s = screen_of(pl, vp, v);
    &&& c.w != 0
    &&& -MAX_COMP <= fxd(c.x as int, c.w as int) <= MAX_COMP
    &&& -MAX_COMP <= fxd(c.y as int, c.w as int) <= MAX_COMP
    &&& -MAX_COMP <= fxd(c.z as int, c.w as int) <= MAX_COMP
    &&& -SCREEN_MAX <= s.x <= SCREEN_MAX
    &&& -SCREEN_MAX <= s.y <= SCREEN_MAX
    &&& -SCREEN_MAX <= s.z <= SCREEN_MAX
}

/// Maps a world-space vertex to screen space through the combined
/// projection-view matrix and the viewport matrix.
pub fn transform_vertex(pl: &Matrix4, vp: &Matrix4, v: Vector3) -> (r: Result<
    Vector3,
    RenderError,
>)
    requires
        mat_ok(*pl),
        mat_ok(*vp),
        v3_ok(v),
    ensures
        r is Ok <==> vertex_maps(*pl, *vp, v),
        r matches Ok(s) ==> s == screen_of(*pl, *vp, v),
        r is Err ==> r == Err::<Vector3, RenderError>(
            if clip_of(*pl, v).w == 0 {
                RenderError::DivisionSingularity
            } else {
                RenderError::OutOfRange
            },
        ),
{
    let hv = Vector4 { x: v.x, y: v.y, z: v.z, w: FX_ONE };
    let c = pl.mul_vec(hv);
    if c.w == 0 {
        return Err(RenderError::DivisionSingularity);
    }
    let nx = match crate::fixed::fx_div(c.x, c.w) {
        Some(q) => q,
        None => {
            return Err(RenderError::OutOfRange);
        },
    };
    let ny = match crate::fixed::fx_div(c.y, c.w) {
        Some(q) => q,
        None => {
            return Err(RenderError::OutOfRange);
        },
    };
    let nz = match crate::fixed::fx_div(c.z, c.w) {
        Some(q) => q,
        None => {
            return Err(RenderError::OutOfRange);
        },
    };
    let hn = Vector4 { x: nx, y: ny, z: nz, w: FX_ONE };
    let s = vp.mul_vec(hn);
    if s.x < -SCREEN_MAX || s.x > SCREEN_MAX || s.y < -SCREEN_MAX || s.y > SCREEN_MAX || s.z
        < -SCREEN_MAX || s.z > SCREEN_MAX {
        return Err(RenderError::OutOfRange);
    }
    Ok(Vector3 { x: s.x, y: s.y, z: s.z })
}

/// A normalized device coordinate inside the unit cube lands inside
/// the viewport's screen box: the x and y of the mapped point stay
/// within `[x, x + w]` and `[y, y + h]`, and its depth within
/// `[0, depth]`. With a viewport whose box lies inside the image,
/// every frustum vertex therefore lands inside the image bounds.
pub proof fn lemma_viewport_contains_frustum(
    x: i64,
    y: i64,
    w: i64,
    h: i64,
    depth: i64,
    n: Vector4,
)
    requires
        0 <= x <= SCREEN_MAX,
        0 <= y <= SCREEN_MAX,
        0 <= w <= SCREEN_MAX,
        0 <= h <= SCREEN_MAX,
        0 <= depth <= SCREEN_MAX,
        -FX_ONE <= n.x <= FX_ONE,
        -FX_ONE <= n.y <= FX_ONE,
        -FX_ONE <= n.z <= FX_ONE,
        n.w == FX_ONE,
    ensures
        x <= mv_x(viewport_mat(x, y, w, h, depth), n) <= x + w,
        y <= mv_y(viewport_mat(x, y, w, h, depth), n) <= y + h,
        0 <= mv_z(viewport_mat(x, y, w, h, depth), n) <= depth,
{
    let m = viewport_mat(x, y, w, h, depth);
    let w2 = w as int / 2;
    let h2 = h as int / 2;
    let d2 = depth as int / 2;
    vstd::arithmetic::div_mod::lemma_fundamental_div_mod(w as int, 2);
    vstd::arithmetic::div_mod::lemma_div_pos_is_pos(w as int, 2);
    vstd::arithmetic::div_mod::lemma_fundamental_div_mod(h as int, 2);
    vstd::arithmetic::div_mod::lemma_div_pos_is_pos(h as int, 2);
    vstd::arithmetic::div_mod::lemma_fundamental_div_mod(depth as int, 2);
    vstd::arithmetic::div_mod::lemma_div_pos_is_pos(depth as int, 2);
    lemma_fxm_bound(w2, n.x as int, w2, FX_ONE as int, w2);
    lemma_fxm_bound(h2, n.y as int, h2, FX_ONE as int, h2);
    lemma_fxm_bound(d2, n.z as int, d2, FX_ONE as int, d2);
    lemma_fxm_zero(n.x as int);
    lemma_fxm_zero(n.y as int);
    lemma_fxm_zero(n.z as int);
    lemma_fxm_one((x + w2) as int);
    lemma_fxm_one((y + h2) as int);
    lemma_fxm_one(d2);
    assert(w2 * FX_ONE == FX_ONE * w2) by (nonlinear_arith);
    assert(h2 * FX_ONE == FX_ONE * h2) by (nonlinear_arith);
    assert(d2 * FX_ONE == FX_ONE * d2) by (nonlinear_arith);
}

} // verus!
