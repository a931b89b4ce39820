//! The triangle rasterizer: barycentric coverage over a clamped
//! bounding box, a z-buffer visibility test, and per-pixel shading
//! from a flat color, a diffuse map, or diffuse and normal maps.

use vstd::prelude::*;
use crate::fixed::{fxm, tz, sdiv, FX_ONE, SCREEN_MAX, lemma_mul_bound, lemma_tz_bound};
use crate::geometry::Vector3;
use crate::image::{Color, Image, pixel_at, lemma_row_major_index, lemma_row_major_distinct};

verus! {

/// A screen-space vertex stays within the raster coordinate range.
pub open spec fn screen_pt_ok(v: Vector3) -> bool {
    -SCREEN_MAX <= v.x <= SCREEN_MAX && -SCREEN_MAX <= v.y <= SCREEN_MAX && -SCREEN_MAX <= v.z
        <= SCREEN_MAX
}

/// Twice the signed area of the triangle: the cross product that the
/// barycentric weights divide by. Zero exactly when the three points
/// are colinear.
pub open spec fn tri_den(a: Vector3, b: Vector3, c: Vector3) -> int {
    (c.x - a.x) * (b.y - a.y) - (b.x - a.x) * (c.y - a.y)
}

/// The raw barycentric numerator of the third vertex at a pixel.
pub open spec fn bary_ux(a: Vector3, b: Vector3, c: Vector3, px: int, py: int) -> int {
    (b.x - a.x) * (a.y - py * FX_ONE) - (a.x - px * FX_ONE) * (b.y - a.y)
}

/// The raw barycentric numerator of the second vertex at a pixel.
pub open spec fn bary_uy(a: Vector3, b: Vector3, c: Vector3, px: int, py: int) -> int {
    (a.x - px * FX_ONE) * (c.y - a.y) - (c.x - a.x) * (a.y - py * FX_ONE)
}

/// The barycentric numerators and denominator at a pixel, with the
/// denominator's sign normalized to be nonnegative. The weights of
/// the three vertices are `(den-ux-uy)/den`, `uy/den` and `ux/den`.
pub open spec fn bary_n(a: Vector3, b: Vector3, c: Vector3, px: int, py: int) -> (int, int, int) {
    let d0 = tri_den(a, b, c);
    let ux0 = bary_ux(a, b, c, px, py);
    let uy0 = bary_uy(a, b, c, px, py);
    if d0 >= 0 {
        (ux0, uy0, d0)
    } else {
        (-ux0, -uy0, -d0)
    }
}

/// Whether a pixel lies inside the triangle: the triangle has area,
/// and all three barycentric weights are nonnegative.
pub open spec fn inside_tri(a: Vector3, b: Vector3, c: Vector3, px: int, py: int) -> bool {
    let t = bary_n(a, b, c, px, py);
    t.2 != 0 && t.0 >= 0 && t.1 >= 0 && t.0 + t.1 <= t.2
}

/// The smallest of three values.
pub open spec fn min3(p: int, q: int, r: int) -> int {
    if p <= q && p <= r {
        p
    } else if q <= r {
        q
    } else {
        r
    }
}

/// The largest of three values.
pub open spec fn max3(p: int, q: int, r: int) -> int {
    if p >= q && p >= r {
        p
    } else if q >= r {
        q
    } else {
        r
    }
}

/// The first pixel column the bounding box covers.
pub open spec fn bb_lo(m: int) -> int {
    if m <= 0 {
        0
    } else {
        m / (FX_ONE as int)
    }
}

/// The last pixel column the bounding box covers, clamped to the
/// raster; one less than the low bound when the box is empty.
pub open spec fn bb_hi(m: int, limit: int) -> int {
    if m < 0 {
        -1
    } else if m / (FX_ONE as int) > limit - 1 {
        limit - 1
    } else {
        m / (FX_ONE as int)
    }
}

/// Whether the rasterizer examines and accepts a pixel: it lies in
/// the clamped bounding box and inside the triangle.
pub open spec fn covered(
    a: Vector3,
    b: Vector3,
    c: Vector3,
    w: int,
    h: int,
    px: int,
    py: int,
) -> bool {
    &&& bb_lo(min3(a.x as int, b.x as int, c.x as int)) <= px <= bb_hi(
        max3(a.x as int, b.x as int, c.x as int),
        w,
    )
    &&& bb_lo(min3(a.y as int, b.y as int, c.y as int)) <= py <= bb_hi(
        max3(a.y as int, b.y as int, c.y as int),
        h,
    )
    &&& inside_tri(a, b, c, px, py)
}

/// The interpolated depth at a pixel: the barycentric combination of
/// the three vertices' depths.
pub open spec fn tri_depth(a: Vector3, b: Vector3, c: Vector3, px: int, py: int) -> int {
    let t = bary_n(a, b, c, px, py);
    sdiv((t.2 - t.0 - t.1) * a.z + t.1 * b.z + t.0 * c.z, t.2)
}

/// Whether a pixel of the triangle passes the depth test against a
/// stored depth.
pub open spec fn hits(
    a: Vector3,
    b: Vector3,
    c: Vector3,
    w: int,
    h: int,
    px: int,
    py: int,
    zold: int,
) -> bool {
    covered(a, b, c, w, h, px, py) && tri_depth(a, b, c, px, py) > zold
}

/// The depth a z-buffer cell holds after the triangle is drawn over
/// it.
pub open spec fn raster_z(
    a: Vector3,
    b: Vector3,
    c: Vector3,
    w: int,
    h: int,
    px: int,
    py: int,
    zold: int,
) -> int {
    if hits(a, b, c, w, h, px, py, zold) {
        tri_depth(a, b, c, px, py)
    } else {
        zold
    }
}

/// How covered pixels take their color.
pub enum Shader {
    /// One color for the whole triangle.
    Flat { color: Color },
    /// A diffuse map sampled at interpolated texture coordinates.
    Texture { diffuse: Image },
    /// A diffuse map lit per texel by a normal map and a light
    /// direction.
    TextureNormal { diffuse: Image, normal: Image, light: Vector3 },
}

/// The shader's rasters are well formed and its light is unit-scaled.
pub open spec fn shader_wf(s: Shader) -> bool {
    match s {
        Shader::Flat { color } => true,
        Shader::Texture { diffuse } => diffuse.wf(),
        Shader::TextureNormal { diffuse, normal, light } => diffuse.wf() && normal.wf() && -FX_ONE
            <= light.x <= FX_ONE && -FX_ONE <= light.y <= FX_ONE && -FX_ONE <= light.z <= FX_ONE,
    }
}

/// The color a raster yields at a texel, or opaque black outside it.
pub open spec fn sample(img: Image, xi: int, yi: int) -> Color {
    if 0 <= xi < img.width && 0 <= yi < img.height {
        img.data@[yi * img.width + xi]
    } else {
        Color { r: 0, g: 0, b: 0, a: 255 }
    }
}

/// A channel scaled by a fixed-point intensity.
pub open spec fn scale_channel_spec(ch: u8, it: int) -> u8 {
    tz(ch * it, FX_ONE as int) as u8
}

/// A color's three color channels scaled by a fixed-point intensity,
/// with the given alpha.
pub open spec fn shade_color(col: Color, it: int, alpha: u8) -> Color {
    Color {
        r: scale_channel_spec(col.r, it),
        g: scale_channel_spec(col.g, it),
        b: scale_channel_spec(col.b, it),
        a: alpha,
    }
}

/// A map channel read as a fixed-point coordinate in [-1, 1].
pub open spec fn chan_to_fx(ch: u8) -> int {
    tz(ch * 2 * (FX_ONE as int), 255) - FX_ONE
}

/// The barycentric interpolation of three values at a pixel, given
/// the normalized numerators and denominator.
pub open spec fn interp(q0: int, q1: int, q2: int, t: (int, int, int)) -> int {
    sdiv((t.2 - t.0 - t.1) * q0 + t.1 * q1 + t.0 * q2, t.2)
}

/// The intensity a normal map yields at a texel against a light
/// direction: the dot product, clamped to [0, 1].
pub open spec fn normal_intensity(nc: Color, light: Vector3) -> int {
    let d = fxm(chan_to_fx(nc.r), light.x as int) + fxm(chan_to_fx(nc.g), light.y as int) + fxm(
        chan_to_fx(nc.b),
        light.z as int,
    );
    if d < 0 {
        0
    } else if d > FX_ONE {
        FX_ONE as int
    } else {
        d
    }
}

/// The color the rasterizer writes at an accepted pixel.
pub open spec fn shade_at(
    sh: Shader,
    uv: Option<(Vector3, Vector3, Vector3)>,
    intensity: i64,
    a: Vector3,
    b: Vector3,
    c: Vector3,
    px: int,
    py: int,
) -> Color {
    let t = bary_n(a, b, c, px, py);
    match uv {
        None => match sh {
            Shader::Flat { color } => shade_color(color, intensity as int, color.a),
            Shader::Texture { diffuse } => shade_color(
                Color { r: 0, g: 0, b: 0, a: 255 },
                intensity as int,
                255,
            ),
            Shader::TextureNormal { diffuse, normal, light } => shade_color(
                Color { r: 0, g: 0, b: 0, a: 255 },
                intensity as int,
                255,
            ),
        },
        Some(uvt) => {
            let sx = tz(interp(uvt.0.x as int, uvt.1.x as int, uvt.2.x as int, t), FX_ONE as int);
            let sy = tz(interp(uvt.0.y as int, uvt.1.y as int, uvt.2.y as int, t), FX_ONE as int);
            match sh {
                Shader::Flat { color } => shade_color(color, intensity as int, color.a),
                Shader::Texture { diffuse } => shade_color(
                    sample(diffuse, sx, sy),
                    intensity as int,
                    255,
                ),
                Shader::TextureNormal { diffuse, normal, light } => shade_color(
                    sample(diffuse, sx, sy),
                    normal_intensity(sample(normal, sx, sy), light),
                    255,
                ),
            }
        },
    }
}

/// The color a pixel holds after the triangle is drawn over it.
pub open spec fn raster_color(
    a: Vector3,
    b: Vector3,
    c: Vector3,
    sh: Shader,
    uv: Option<(Vector3, Vector3, Vector3)>,
    intensity: i64,
    w: int,
    h: int,
    px: int,
    py: int,
    zold: int,
    cold: Color,
) -> Color {
    if hits(a, b, c, w, h, px, py, zold) {
        shade_at(sh, uv, intensity, a, b, c, px, py)
    } else {
        cold
    }
}

/// The depth a z-buffer holds at a pixel.
pub open spec fn depth_at(z: Seq<i64>, w: int, x: int, y: int) -> int {
    z[y * w + x] as int
}

/// Whether the raster walk, standing at column `px` and row `py`, has
/// already processed the bounding-box pixel `(qx, qy)`.
pub open spec fn pix_done(
    xlo: int,
    xhi: int,
    ylo: int,
    yhi: int,
    px: int,
    py: int,
    qx: int,
    qy: int,
) -> bool {
    xlo <= qx <= xhi && ylo <= qy <= yhi && (qx < px || (qx == px && qy < py))
}

/// The signed determinant `p * s - q * r`, exactly.
fn det2(p: i64, q: i64, r: i64, s: i64) -> (v: i128)
    requires
        -0x1_0000_0000 <= p <= 0x1_0000_0000,
        -0x1_0000_0000 <= q <= 0x1_0000_0000,
        -0x1_0000_0000 <= r <= 0x1_0000_0000,
        -0x1_0000_0000 <= s <= 0x1_0000_0000,
    ensures
        v == p * s - q * r,
        -0x2_0000_0000_0000_0000 <= v <= 0x2_0000_0000_0000_0000,
{
    proof {
        lemma_mul_bound(p as int, s as int, 0x1_0000_0000, 0x1_0000_0000);
        lemma_mul_bound(q as int, r as int, 0x1_0000_0000, 0x1_0000_0000);
    }
    (p as i128) * (s as i128) - (q as i128) * (r as i128)
}

/// The product of a barycentric numerator and a coordinate, exactly.
fn mulz(w: i128, z: i64) -> (r: i128)
    requires
        0 <= w <= 0x2_0000_0000_0000_0000,
        -SCREEN_MAX <= z <= SCREEN_MAX,
    ensures
        r == w * z,
        -0x8000_0000_0000_0000_0000_0000 <= r <= 0x8000_0000_0000_0000_0000_0000,
{
    proof {
        lemma_mul_bound(w as int, z as int, 0x2_0000_0000_0000_0000, SCREEN_MAX as int);
    }
    w * (z as i128)
}

/// A barycentric combination of bounded values is bounded by the
/// denominator times the bound.
proof fn lemma_convex_bound(
    w0: int,
    w1: int,
    w2: int,
    d: int,
    z0: int,
    z1: int,
    z2: int,
    zb: int,
)
    requires
        w0 >= 0,
        w1 >= 0,
        w2 >= 0,
        w0 + w1 + w2 == d,
        zb >= 0,
        -zb <= z0 <= zb,
        -zb <= z1 <= zb,
        -zb <= z2 <= zb,
    ensures
        -(zb * d) <= w0 * z0 + w1 * z1 + w2 * z2 <= zb * d,
{
    assert(-(zb * d) <= w0 * z0 + w1 * z1 + w2 * z2 <= zb * d) by (nonlinear_arith)
        requires
            w0 >= 0,
            w1 >= 0,
            w2 >= 0,
            w0 + w1 + w2 == d,
            zb >= 0,
            -zb <= z0 <= zb,
            -zb <= z1 <= zb,
            -zb <= z2 <= zb,
    ;
}

/// Interpolates three bounded coordinates at a pixel known to lie
/// inside the triangle.
fn interp_exec(q0: i64, q1: i64, q2: i64, uxn: i128, uyn: i128, dn: i128) -> (r: i64)
    requires
        -SCREEN_MAX <= q0 <= SCREEN_MAX,
        -SCREEN_MAX <= q1 <= SCREEN_MAX,
        -SCREEN_MAX <= q2 <= SCREEN_MAX,
        0 < dn <= 0x2_0000_0000_0000_0000,
        0 <= uxn,
        0 <= uyn,
        uxn + uyn <= dn,
    ensures
        r == interp(q0 as int, q1 as int, q2 as int, (uxn as int, uyn as int, dn as int)),
        -SCREEN_MAX <= r <= SCREEN_MAX,
{
    let w0n: i128 = dn - uxn - uyn;
    let num: i128 = mulz(w0n, q0) + mulz(uyn, q1) + mulz(uxn, q2);
    proof {
        lemma_convex_bound(
            w0n as int,
            uyn as int,
            uxn as int,
            dn as int,
            q0 as int,
            q1 as int,
            q2 as int,
            SCREEN_MAX as int,
        );
        lemma_tz_bound(num as int, dn as int, SCREEN_MAX as int);
        assert(SCREEN_MAX * (dn as int) == (SCREEN_MAX as int) * (dn as int));
    }
    crate::geometry::sdiv_i128(num, dn)
}

/// The truncating quotient by one fixed-point unit.
fn tz_fx(v: i64) -> (r: i64)
    requires
        -0x4000_0000_0000_0000 <= v <= 0x4000_0000_0000_0000,
    ensures
        r == tz(v as int, FX_ONE as int),
        v >= 0 ==> 0 <= r <= v,
        v < 0 ==> v <= r <= 0,
{
    if v >= 0 {
        proof {
            vstd::arithmetic::div_mod::lemma_div_nonincreasing(v as int, FX_ONE as int);
            vstd::arithmetic::div_mod::lemma_div_pos_is_pos(v as int, FX_ONE as int);
        }
        ((v as u64) / 65536) as i64
    } else {
        proof {
            vstd::arithmetic::div_mod::lemma_div_nonincreasing(-v as int, FX_ONE as int);
            vstd::arithmetic::div_mod::lemma_div_pos_is_pos(-v as int, FX_ONE as int);
        }
        let m: u64 = (-v) as u64;
        -((m / 65536) as i64)
    }
}

/// Scales a channel by a fixed-point intensity.
fn scale_channel(ch: u8, it: i64) -> (r: u8)
    requires
        0 <= it <= FX_ONE,
    ensures
        r == scale_channel_spec(ch, it as int),
        r as int == tz(ch as int * it as int, FX_ONE as int),
{
    proof {
        lemma_mul_bound(ch as int, it as int, 255, FX_ONE as int);
        lemma_tz_bound(ch as int * it as int, FX_ONE as int, 255);
        assert(255 * FX_ONE == FX_ONE * 255) by (nonlinear_arith);
        vstd::arithmetic::div_mod::lemma_div_pos_is_pos(ch as int * it as int, FX_ONE as int);
        assert(ch as int * it as int >= 0) by (nonlinear_arith)
            requires
                ch >= 0,
                it >= 0,
        ;
    }
    let p: u64 = (ch as u64) * (it as u64);
    ((p / 65536) as u8)
}

/// Reads a map channel as a fixed-point coordinate in [-1, 1].
fn chan_fx(ch: u8) -> (r: i64)
    ensures
        r == chan_to_fx(ch),
        -FX_ONE <= r <= FX_ONE,
{
    proof {
        lemma_tz_bound(ch as int * 2 * (FX_ONE as int), 255, 2 * FX_ONE as int);
        vstd::arithmetic::div_mod::lemma_div_pos_is_pos(ch as int * 2 * (FX_ONE as int), 255);
    }
    let p: u64 = (ch as u64) * 2 * 65536;
    ((p / 255) as i64) - 65536
}

/// Samples a raster at a texel, yielding opaque black outside it.
fn sample_px(img: &Image, xi: i64, yi: i64) -> (col: Color)
    requires
        img.wf(),
        -SCREEN_MAX <= xi <= SCREEN_MAX,
        -SCREEN_MAX <= yi <= SCREEN_MAX,
    ensures
        col == sample(*img, xi as int, yi as int),
{
    if xi >= 0 && yi >= 0 && (xi as usize) < img.width && (yi as usize) < img.height {
        img.get(xi as usize, yi as usize)
    } else {
        Color { r: 0, g: 0, b: 0, a: 255 }
    }
}

/// Computes the color of one accepted pixel.
fn shade_exec(
    sh: &Shader,
    uv: &Option<(Vector3, Vector3, Vector3)>,
    intensity: i64,
    a: Vector3,
    b: Vector3,
    c: Vector3,
    px: i64,
    py: i64,
    uxn: i128,
    uyn: i128,
    dn: i128,
) -> (col: Color)
    requires
        shader_wf(*sh),
        0 <= intensity <= FX_ONE,
        (uxn as int, uyn as int, dn as int) == bary_n(a, b, c, px as int, py as int),
        0 < dn <= 0x2_0000_0000_0000_0000,
        0 <= uxn,
        0 <= uyn,
        uxn + uyn <= dn,
        uv matches Some(t) ==> screen_pt_ok(t.0) && screen_pt_ok(t.1) && screen_pt_ok(t.2),
    ensures
        col == shade_at(*sh, *uv, intensity, a, b, c, px as int, py as int),
{
    match uv {
        None => {
            match sh {
                Shader::Flat { color } => Color {
                    r: scale_channel(color.r, intensity),
                    g: scale_channel(color.g, intensity),
                    b: scale_channel(color.b, intensity),
                    a: color.a,
                },
                Shader::Texture { diffuse } => Color {
                    r: scale_channel(0, intensity),
                    g: scale_channel(0, intensity),
                    b: scale_channel(0, intensity),
                    a: 255,
                },
                Shader::TextureNormal { diffuse, normal, light } => Color {
                    r: scale_channel(0, intensity),
                    g: scale_channel(0, intensity),
                    b: scale_channel(0, intensity),
                    a: 255,
                },
            }
        },
        Some(uvt) => {
            let tx: i64 = interp_exec(uvt.0.x, uvt.1.x, uvt.2.x, uxn, uyn, dn);
            let ty: i64 = interp_exec(uvt.0.y, uvt.1.y, uvt.2.y, uxn, uyn, dn);
            let sx: i64 = tz_fx(tx);
            let sy: i64 = tz_fx(ty);
            match sh {
                Shader::Flat { color } => Color {
                    r: scale_channel(color.r, intensity),
                    g: scale_channel(color.g, intensity),
                    b: scale_channel(color.b, intensity),
                    a: color.a,
                },
                Shader::Texture { diffuse } => {
                    let t = sample_px(diffuse, sx, sy);
                    Color {
                        r: scale_channel(t.r, intensity),
                        g: scale_channel(t.g, intensity),
                        b: scale_channel(t.b, intensity),
                        a: 255,
                    }
                },
                Shader::TextureNormal { diffuse, normal, light } => {
                    let nc = sample_px(normal, sx, sy);
                    let nx = chan_fx(nc.r);
                    let ny = chan_fx(nc.g);
                    let nz = chan_fx(nc.b);
                    let d: i64 = crate::fixed::fx_mul(nx, light.x) + crate::fixed::fx_mul(
                        ny,
                        light.y,
                    ) + crate::fixed::fx_mul(nz, light.z);
                    let it: i64 = if d < 0 {
                        0
                    } else if d > FX_ONE {
                        FX_ONE
                    } else {
                        d
                    };
                    let t = sample_px(diffuse, sx, sy);
                    Color {
                        r: scale_channel(t.r, it),
                        g: scale_channel(t.g, it),
                        b: scale_channel(t.b, it),
                        a: 255,
                    }
                },
            }
        },
    }
}

/// The smallest of three coordinates.
fn min3_exec(p: i64, q: i64, r: i64) -> (m: i64)
    ensures
        m == min3(p as int, q as int, r as int),
{
    if p <= q && p <= r {
        p
    } else if q <= r {
        q
    } else {
        r
    }
}

/// The largest of three coordinates.
fn max3_exec(p: i64, q: i64, r: i64) -> (m: i64)
    ensures
        m == max3(p as int, q as int, r as int),
{
    if p >= q && p >= r {
        p
    } else if q >= r {
        q
    } else {
        r
    }
}

/// Fills the triangle with screen-space vertices `a`, `b`, `c` into
/// the image under the z-buffer: every pixel of the clamped bounding
/// box that lies inside the triangle and interpolates a depth greater
/// than the stored one takes that depth and the shader's color; every
/// other pixel, and every other z-buffer cell, keeps its value.
pub fn fill_triangle(
    img: &mut Image,
    zbuf: &mut Vec<i64>,
    a: Vector3,
    b: Vector3,
    c: Vector3,
    uv: Option<(Vector3, Vector3, Vector3)>,
    intensity: i64,
    shader: &Shader,
)
    requires
        old(img).wf(),
        old(zbuf)@.len() == old(img).width * old(img).height,
        screen_pt_ok(a),
        screen_pt_ok(b),
        screen_pt_ok(c),
        0 <= intensity <= FX_ONE,
        shader_wf(*shader),
        uv matches Some(t) ==> screen_pt_ok(t.0) && screen_pt_ok(t.1) && screen_pt_ok(t.2),
    ensures
        final(img).wf(),
        final(img).width == old(img).width,
        final(img).height == old(img).height,
        final(zbuf)@.len() == old(zbuf)@.len(),
        forall|qx: int, qy: int|
            0 <= qx < old(img).width && 0 <= qy < old(img).height ==> #[trigger] depth_at(
                final(zbuf)@,
                old(img).width as int,
                qx,
                qy,
            ) == raster_z(
                a,
                b,
                c,
                old(img).width as int,
                old(img).height as int,
                qx,
                qy,
                depth_at(old(zbuf)@, old(img).width as int, qx, qy),
            ),
        forall|qx: int, qy: int|
            0 <= qx < old(img).width && 0 <= qy < old(img).height ==> #[trigger] pixel_at(
                *final(img),
                qx,
                qy,
            ) == raster_color(
                a,
                b,
                c,
                *shader,
                uv,
                intensity,
                old(img).width as int,
                old(img).height as int,
                qx,
                qy,
                depth_at(old(zbuf)@, old(img).width as int, qx, qy),
                pixel_at(*old(img), qx, qy),
            ),
{
    let w: usize = img.width;
    let h: usize = img.height;
    let ghost wi = w as int;
    let ghost hi = h as int;
    let den: i128 = det2(c.x - a.x, b.x - a.x, c.y - a.y, b.y - a.y);
    if den == 0 {
        proof {
            assert forall|qx: int, qy: int|
                0 <= qx < wi && 0 <= qy < hi implies !covered(a, b, c, wi, hi, qx, qy)
                && #[trigger] depth_at(zbuf@, wi, qx, qy) == raster_z(
                a,
                b,
                c,
                wi,
                hi,
                qx,
                qy,
                depth_at(old(zbuf)@, wi, qx, qy),
            ) && #[trigger] pixel_at(*img, qx, qy) == raster_color(
                a,
                b,
                c,
                *shader,
                uv,
                intensity,
                wi,
                hi,
                qx,
                qy,
                depth_at(old(zbuf)@, wi, qx, qy),
                pixel_at(*old(img), qx, qy),
            ) by {
                assert(!inside_tri(a, b, c, qx, qy));
            }
        }
        return ;
    }
    let minx: i64 = min3_exec(a.x, b.x, c.x);
    let maxx: i64 = max3_exec(a.x, b.x, c.x);
    let miny: i64 = min3_exec(a.y, b.y, c.y);
    let maxy: i64 = max3_exec(a.y, b.y, c.y);
    let x_lo: i64 = if minx <= 0 {
        0
    } else {
        ((minx as u64) / 65536) as i64
    };
    let y_lo: i64 = if miny <= 0 {
        0
    } else {
        ((miny as u64) / 65536) as i64
    };
    let x_hi: i64 = if maxx < 0 {
        -1
    } else {
        let q: i64 = ((maxx as u64) / 65536) as i64;
        if q > (w as i64) - 1 {
            (w as i64) - 1
        } else {
            q
        }
    };
    let y_hi: i64 = if maxy < 0 {
        -1
    } else {
        let q: i64 = ((maxy as u64) / 65536) as i64;
        if q > (h as i64) - 1 {
            (h as i64) - 1
        } else {
            q
        }
    };
    proof {
        assert(x_lo == bb_lo(min3(a.x as int, b.x as int, c.x as int)));
        assert(y_lo == bb_lo(min3(a.y as int, b.y as int, c.y as int)));
        assert(x_hi == bb_hi(max3(a.x as int, b.x as int, c.x as int), wi));
        assert(y_hi == bb_hi(max3(a.y as int, b.y as int, c.y as int), hi));
        if minx > 0 {
            vstd::arithmetic::div_mod::lemma_div_pos_is_pos(minx as int, FX_ONE as int);
            vstd::arithmetic::div_mod::lemma_div_nonincreasing(minx as int, FX_ONE as int);
        }
        if miny > 0 {
            vstd::arithmetic::div_mod::lemma_div_pos_is_pos(miny as int, FX_ONE as int);
            vstd::arithmetic::div_mod::lemma_div_nonincreasing(miny as int, FX_ONE as int);
        }
    }
    if x_lo > x_hi || y_lo > y_hi {
        proof {
            assert forall|qx: int, qy: int|
                0 <= qx < wi && 0 <= qy < hi implies !covered(a, b, c, wi, hi, qx, qy)
                && #[trigger] depth_at(zbuf@, wi, qx, qy) == raster_z(
                a,
                b,
                c,
                wi,
                hi,
                qx,
                qy,
                depth_at(old(zbuf)@, wi, qx, qy),
            ) && #[trigger] pixel_at(*img, qx, qy) == raster_color(
                a,
                b,
                c,
                *shader,
                uv,
                intensity,
                wi,
                hi,
                qx,
                qy,
                depth_at(old(zbuf)@, wi, qx, qy),
                pixel_at(*old(img), qx, qy),
            ) by {}
        }
        return ;
    }
    proof {
        assert(wi * hi <= 0x1000_0000) by (nonlinear_arith)
            requires
                0 <= wi <= 16384,
                0 <= hi <= 16384,
        ;
    }
    let mut px: i64 = x_lo;
    while px <= x_hi
        invariant
            img.wf(),
            img.width == w,
            img.height == h,
            wi == w as int,
            hi == h as int,
            zbuf@.len() == old(zbuf)@.len(),
            old(zbuf)@.len() == wi * hi,
            den as int == tri_den(a, b, c),
            den != 0,
            -0x2_0000_0000_0000_0000 <= den <= 0x2_0000_0000_0000_0000,
            screen_pt_ok(a) && screen_pt_ok(b) && screen_pt_ok(c),
            0 <= intensity <= FX_ONE,
            shader_wf(*shader),
            uv matches Some(t) ==> screen_pt_ok(t.0) && screen_pt_ok(t.1) && screen_pt_ok(t.2),
            x_lo == bb_lo(min3(a.x as int, b.x as int, c.x as int)),
            y_lo == bb_lo(min3(a.y as int, b.y as int, c.y as int)),
            x_hi == bb_hi(max3(a.x as int, b.x as int, c.x as int), wi),
            y_hi == bb_hi(max3(a.y as int, b.y as int, c.y as int), hi),
            0 <= x_lo,
            x_lo <= x_hi,
            y_lo <= y_hi,
            wi * hi <= 0x1000_0000,
            x_hi <= wi - 1,
            0 <= y_lo,
            y_hi <= hi - 1,
            x_lo <= px <= x_hi + 1,
            forall|qx: int, qy: int|
                0 <= qx < wi && 0 <= qy < hi ==> #[trigger] depth_at(zbuf@, wi, qx, qy) == if
                    pix_done(
                    x_lo as int,
                    x_hi as int,
                    y_lo as int,
                    y_hi as int,
                    px as int,
                    y_lo as int,
                    qx,
                    qy,
                ) {
                    raster_z(a, b, c, wi, hi, qx, qy, depth_at(old(zbuf)@, wi, qx, qy))
                } else {
                    depth_at(old(zbuf)@, wi, qx, qy)
                },
            forall|qx: int, qy: int|
                0 <= qx < wi && 0 <= qy < hi ==> #[trigger] pixel_at(*img, qx, qy) == if pix_done(
                    x_lo as int,
                    x_hi as int,
                    y_lo as int,
                    y_hi as int,
                    px as int,
                    y_lo as int,
                    qx,
                    qy,
                ) {
                    raster_color(
                        a,
                        b,
                        c,
                        *shader,
                        uv,
                        intensity,
                        wi,
                        hi,
                        qx,
                        qy,
                        depth_at(old(zbuf)@, wi, qx, qy),
                        pixel_at(*old(img), qx, qy),
                    )
                } else {
                    pixel_at(*old(img), qx, qy)
                },
        decreases x_hi + 1 - px,
    {
        let mut py: i64 = y_lo;
        while py <= y_hi
            invariant
                img.wf(),
                img.width == w,
                img.height == h,
                wi == w as int,
                hi == h as int,
                zbuf@.len() == old(zbuf)@.len(),
                old(zbuf)@.len() == wi * hi,
                den as int == tri_den(a, b, c),
                den != 0,
                -0x2_0000_0000_0000_0000 <= den <= 0x2_0000_0000_0000_0000,
                screen_pt_ok(a) && screen_pt_ok(b) && screen_pt_ok(c),
                0 <= intensity <= FX_ONE,
                shader_wf(*shader),
                uv matches Some(t) ==> screen_pt_ok(t.0) && screen_pt_ok(t.1) && screen_pt_ok(
                    t.2,
                ),
                x_lo == bb_lo(min3(a.x as int, b.x as int, c.x as int)),
                y_lo == bb_lo(min3(a.y as int, b.y as int, c.y as int)),
                x_hi == bb_hi(max3(a.x as int, b.x as int, c.x as int), wi),
                y_hi == bb_hi(max3(a.y as int, b.y as int, c.y as int), hi),
                0 <= x_lo,
                x_lo <= x_hi,
                y_lo <= y_hi,
                wi * hi <= 0x1000_0000,
                x_hi <= wi - 1,
                0 <= y_lo,
                y_hi <= hi - 1,
                x_lo <= px <= x_hi,
                y_lo <= py <= y_hi + 1,
                forall|qx: int, qy: int|
                    0 <= qx < wi && 0 <= qy < hi ==> #[trigger] depth_at(zbuf@, wi, qx, qy) == if
                        pix_done(
                        x_lo as int,
                        x_hi as int,
                        y_lo as int,
                        y_hi as int,
                        px as int,
                        py as int,
                        qx,
                        qy,
                    ) {
                        raster_z(a, b, c, wi, hi, qx, qy, depth_at(old(zbuf)@, wi, qx, qy))
                    } else {
                        depth_at(old(zbuf)@, wi, qx, qy)
                    },
                forall|qx: int, qy: int|
                    0 <= qx < wi && 0 <= qy < hi ==> #[trigger] pixel_at(*img, qx, qy) == if
                        pix_done(
                        x_lo as int,
                        x_hi as int,
                        y_lo as int,
                        y_hi as int,
                        px as int,
                        py as int,
                        qx,
                        qy,
                    ) {
                        raster_color(
                            a,
                            b,
                            c,
                            *shader,
                            uv,
                            intensity,
                            wi,
                            hi,
                            qx,
                            qy,
                            depth_at(old(zbuf)@, wi, qx, qy),
                            pixel_at(*old(img), qx, qy),
                        )
                    } else {
                        pixel_at(*old(img), qx, qy)
                    },
            decreases y_hi + 1 - py,
        {
            let pxs: i64 = px * 65536;
            let pys: i64 = py * 65536;
            let ux0: i128 = det2(b.x - a.x, a.x - pxs, b.y - a.y, a.y - pys);
            let uy0: i128 = det2(a.x - pxs, c.x - a.x, a.y - pys, c.y - a.y);
            let (uxn, uyn, dn): (i128, i128, i128) = if den >= 0 {
                (ux0, uy0, den)
            } else {
                (-ux0, -uy0, -den)
            };
            proof {
                assert(ux0 as int == bary_ux(a, b, c, px as int, py as int));
                assert(uy0 as int == bary_uy(a, b, c, px as int, py as int));
                assert((uxn as int, uyn as int, dn as int) == bary_n(
                    a,
                    b,
                    c,
                    px as int,
                    py as int,
                ));
                lemma_row_major_index(wi, hi, px as int, py as int);
            }
            let ghost zpre = zbuf@;
            let ghost ipre = *img;
            let inside: bool = uxn >= 0 && uyn >= 0 && uxn + uyn <= dn;
            if inside {
                let idx: usize = (py as usize) * w + (px as usize);
                let zold: i64 = zbuf[idx];
                let w0n: i128 = dn - uxn - uyn;
                let zn: i128 = mulz(w0n, a.z) + mulz(uyn, b.z) + mulz(uxn, c.z);
                proof {
                    lemma_convex_bound(
                        w0n as int,
                        uyn as int,
                        uxn as int,
                        dn as int,
                        a.z as int,
                        b.z as int,
                        c.z as int,
                        SCREEN_MAX as int,
                    );
                    lemma_tz_bound(zn as int, dn as int, SCREEN_MAX as int);
                    assert(SCREEN_MAX * (dn as int) == (SCREEN_MAX as int) * (dn as int));
                }
                let depth: i64 = crate::geometry::sdiv_i128(zn, dn);
                proof {
                    assert(depth as int == tri_depth(a, b, c, px as int, py as int));
                }
                if depth > zold {
                    zbuf[idx] = depth;
                    let col: Color = shade_exec(
                        shader,
                        &uv,
                        intensity,
                        a,
                        b,
                        c,
                        px,
                        py,
                        uxn,
                        uyn,
                        dn,
                    );
                    img.set(px as usize, py as usize, col);
                }
            }
            proof {
                assert forall|qx: int, qy: int|
                    #![trigger depth_at(zbuf@, wi, qx, qy)]
                    #![trigger pixel_at(*img, qx, qy)]
                    0 <= qx < wi && 0 <= qy < hi && !(qx == px as int && qy == py as int) implies
                    depth_at(zbuf@, wi, qx, qy) == depth_at(zpre, wi, qx, qy) && pixel_at(
                    *img,
                    qx,
                    qy,
                ) == pixel_at(ipre, qx, qy) by {
                    lemma_row_major_index(wi, hi, qx, qy);
                    lemma_row_major_distinct(wi, qx, qy, px as int, py as int);
                }
                assert(!pix_done(
                    x_lo as int,
                    x_hi as int,
                    y_lo as int,
                    y_hi as int,
                    px as int,
                    py as int,
                    px as int,
                    py as int,
                ));
                assert(depth_at(zpre, wi, px as int, py as int) == depth_at(
                    old(zbuf)@,
                    wi,
                    px as int,
                    py as int,
                ));
                assert(pixel_at(ipre, px as int, py as int) == pixel_at(
                    *old(img),
                    px as int,
                    py as int,
                ));
                assert(depth_at(zbuf@, wi, px as int, py as int) == raster_z(
                    a,
                    b,
                    c,
                    wi,
                    hi,
                    px as int,
                    py as int,
                    depth_at(old(zbuf)@, wi, px as int, py as int),
                ));
                assert(pixel_at(*img, px as int, py as int) == raster_color(
                    a,
                    b,
                    c,
                    *shader,
                    uv,
                    intensity,
                    wi,
                    hi,
                    px as int,
                    py as int,
                    depth_at(old(zbuf)@, wi, px as int, py as int),
                    pixel_at(*old(img), px as int, py as int),
                ));
            }
            py = py + 1;
        }
        px = px + 1;
    }
    proof {
        assert forall|qx: int, qy: int| 0 <= qx < wi && 0 <= qy < hi implies #[trigger] depth_at(
            zbuf@,
            wi,
            qx,
            qy,
        ) == raster_z(a, b, c, wi, hi, qx, qy, depth_at(old(zbuf)@, wi, qx, qy)) && #[trigger] pixel_at(
            *img,
            qx,
            qy,
        ) == raster_color(
            a,
            b,
            c,
            *shader,
            uv,
            intensity,
            wi,
            hi,
            qx,
            qy,
            depth_at(old(zbuf)@, wi, qx, qy),
            pixel_at(*old(img), qx, qy),
        ) by {
            if !pix_done(
                x_lo as int,
                x_hi as int,
                y_lo as int,
                y_hi as int,
                px as int,
                y_lo as int,
                qx,
                qy,
            ) {
                assert(!covered(a, b, c, wi, hi, qx, qy));
            }
        }
    }
}

/// Every pixel accepted as inside a triangle has all three
/// barycentric weights nonnegative, a positive denominator, and
/// numerators that sum exactly to the denominator: the weights sum
/// exactly to one.
pub proof fn lemma_inside_weights(a: Vector3, b: Vector3, c: Vector3, px: int, py: int)
    requires
        inside_tri(a, b, c, px, py),
    ensures
        ({
            let t = bary_n(a, b, c, px, py);
            &&& t.2 > 0
            &&& t.0 >= 0
            &&& t.1 >= 0
            &&& t.2 - t.0 - t.1 >= 0
            &&& (t.2 - t.0 - t.1) + t.1 + t.0 == t.2
        }),
{
}

/// A degenerate triangle, three colinear points, has zero area and
/// covers no pixel at all: it produces no writes.
pub proof fn lemma_degenerate_no_hit(a: Vector3, b: Vector3, c: Vector3)
    requires
        tri_den(a, b, c) == 0,
    ensures
        forall|px: int, py: int| !inside_tri(a, b, c, px, py),
        forall|w: int, h: int, px: int, py: int, zold: int|
            !#[trigger] hits(a, b, c, w, h, px, py, zold),
{
}

/// A pixel inside the triangle that also lies inside the raster is
/// always examined and accepted: the clamped bounding box never cuts
/// off an interior pixel. Coverage is exactly the triangle's
/// interior, intersected with the raster.
pub proof fn lemma_inside_within_box(
    a: Vector3,
    b: Vector3,
    c: Vector3,
    w: int,
    h: int,
    px: int,
    py: int,
)
    requires
        inside_tri(a, b, c, px, py),
        0 <= px < w,
        0 <= py < h,
    ensures
        covered(a, b, c, w, h, px, py),
{
    let s = FX_ONE as int;
    let d0 = tri_den(a, b, c);
    let ux0 = bary_ux(a, b, c, px, py);
    let uy0 = bary_uy(a, b, c, px, py);
    let t = bary_n(a, b, c, px, py);
    let pxs = px * s;
    let pys = py * s;
    let e1x = b.x - a.x;
    let e1y = b.y - a.y;
    let e2x = c.x - a.x;
    let e2y = c.y - a.y;
    let qx = a.x - pxs;
    let qy = a.y - pys;
    assert(d0 == e2x * e1y - e1x * e2y);
    assert(ux0 == e1x * qy - qx * e1y);
    assert(uy0 == qx * e2y - e2x * qy);
    assert(uy0 * e1x + ux0 * e2x == -(qx * d0)) by (nonlinear_arith)
        requires
            d0 == e2x * e1y - e1x * e2y,
            ux0 == e1x * qy - qx * e1y,
            uy0 == qx * e2y - e2x * qy,
    ;
    assert(uy0 * e1y + ux0 * e2y == -(qy * d0)) by (nonlinear_arith)
        requires
            d0 == e2x * e1y - e1x * e2y,
            ux0 == e1x * qy - qx * e1y,
            uy0 == qx * e2y - e2x * qy,
    ;
    assert((d0 - ux0 - uy0) * a.x + uy0 * b.x + ux0 * c.x == d0 * pxs) by (nonlinear_arith)
        requires
            uy0 * e1x + ux0 * e2x == -(qx * d0),
            e1x == b.x - a.x,
            e2x == c.x - a.x,
            qx == a.x - pxs,
    ;
    assert((d0 - ux0 - uy0) * a.y + uy0 * b.y + ux0 * c.y == d0 * pys) by (nonlinear_arith)
        requires
            uy0 * e1y + ux0 * e2y == -(qy * d0),
            e1y == b.y - a.y,
            e2y == c.y - a.y,
            qy == a.y - pys,
    ;
    assert((t.2 - t.0 - t.1) * a.x + t.1 * b.x + t.0 * c.x == t.2 * (px * s) && (t.2 - t.0 - t.1)
        * a.y + t.1 * b.y + t.0 * c.y == t.2 * (py * s)) by (nonlinear_arith)
        requires
            (d0 - ux0 - uy0) * a.x + uy0 * b.x + ux0 * c.x == d0 * (px * s),
            (d0 - ux0 - uy0) * a.y + uy0 * b.y + ux0 * c.y == d0 * (py * s),
            (t.0 == ux0 && t.1 == uy0 && t.2 == d0) || (t.0 == -ux0 && t.1 == -uy0 && t.2 == -d0),
    ;
    lemma_interior_coordinate_bounded(
        t.2 - t.0 - t.1,
        t.1,
        t.0,
        t.2,
        a.x as int,
        b.x as int,
        c.x as int,
        min3(a.x as int, b.x as int, c.x as int),
        max3(a.x as int, b.x as int, c.x as int),
        px,
        w,
    );
    lemma_interior_coordinate_bounded(
        t.2 - t.0 - t.1,
        t.1,
        t.0,
        t.2,
        a.y as int,
        b.y as int,
        c.y as int,
        min3(a.y as int, b.y as int, c.y as int),
        max3(a.y as int, b.y as int, c.y as int),
        py,
        h,
    );
}

/// A barycentric combination with nonnegative weights stays between
/// the least and greatest combined value, so the combined pixel
/// coordinate lies within the clamped bounding box.
proof fn lemma_interior_coordinate_bounded(
    w0: int,
    w1: int,
    w2: int,
    d: int,
    v0: int,
    v1: int,
    v2: int,
    mn: int,
    mx: int,
    px: int,
    limit: int,
)
    requires
        w0 >= 0,
        w1 >= 0,
        w2 >= 0,
        d > 0,
        w0 + w1 + w2 == d,
        mn <= v0 <= mx,
        mn <= v1 <= mx,
        mn <= v2 <= mx,
        w0 * v0 + w1 * v1 + w2 * v2 == d * (px * FX_ONE),
        0 <= px <= limit - 1,
    ensures
        bb_lo(mn) <= px <= bb_hi(mx, limit),
{
    let s = FX_ONE as int;
    assert(d * mn <= d * (px * s) <= d * mx) by (nonlinear_arith)
        requires
            w0 >= 0,
            w1 >= 0,
            w2 >= 0,
            w0 + w1 + w2 == d,
            mn <= v0 <= mx,
            mn <= v1 <= mx,
            mn <= v2 <= mx,
            w0 * v0 + w1 * v1 + w2 * v2 == d * (px * s),
    ;
    assert(mn <= px * s <= mx) by (nonlinear_arith)
        requires
            d > 0,
            d * mn <= d * (px * s) <= d * mx,
    ;
    vstd::arithmetic::div_mod::lemma_div_by_multiple(px, s);
    assert(px * s == s * px) by (nonlinear_arith);
    if mn > 0 {
        vstd::arithmetic::div_mod::lemma_div_is_ordered(mn, px * s, s);
    }
    assert(px * s >= 0) by (nonlinear_arith)
        requires
            px >= 0,
            s > 0,
    ;
    vstd::arithmetic::div_mod::lemma_div_is_ordered(px * s, mx, s);
}

/// The z-buffer cell keeps the greater of the stored depth and a
/// covering triangle's interpolated depth, and never changes under a
/// triangle that does not cover the pixel.
pub proof fn lemma_raster_z_keeps_maximum(
    a: Vector3,
    b: Vector3,
    c: Vector3,
    w: int,
    h: int,
    px: int,
    py: int,
    zold: int,
)
    ensures
        covered(a, b, c, w, h, px, py) ==> raster_z(a, b, c, w, h, px, py, zold) == if tri_depth(
            a,
            b,
            c,
            px,
            py,
        ) >= zold {
            tri_depth(a, b, c, px, py)
        } else {
            zold
        },
        !covered(a, b, c, w, h, px, py) ==> raster_z(a, b, c, w, h, px, py, zold) == zold,
        raster_z(a, b, c, w, h, px, py, zold) >= zold,
{
}

/// Drawing two triangles over a pixel gives the same depth and the
/// same color in either order, as long as no two of the covering
/// triangles interpolate exactly the same depth there: the z-buffer
/// keeps the nearest triangle, whatever the draw order.
pub proof fn lemma_zbuffer_order_independent(
    a1: Vector3,
    b1: Vector3,
    c1: Vector3,
    sh1: Shader,
    uv1: Option<(Vector3, Vector3, Vector3)>,
    it1: i64,
    a2: Vector3,
    b2: Vector3,
    c2: Vector3,
    sh2: Shader,
    uv2: Option<(Vector3, Vector3, Vector3)>,
    it2: i64,
    w: int,
    h: int,
    px: int,
    py: int,
    z: int,
    col: Color,
)
    requires
        covered(a1, b1, c1, w, h, px, py) && covered(a2, b2, c2, w, h, px, py) ==> tri_depth(
            a1,
            b1,
            c1,
            px,
            py,
        ) != tri_depth(a2, b2, c2, px, py),
    ensures
        raster_z(a2, b2, c2, w, h, px, py, raster_z(a1, b1, c1, w, h, px, py, z)) == raster_z(
            a1,
            b1,
            c1,
            w,
            h,
            px,
            py,
            raster_z(a2, b2, c2, w, h, px, py, z),
        ),
        raster_color(
            a2,
            b2,
            c2,
            sh2,
            uv2,
            it2,
            w,
            h,
            px,
            py,
            raster_z(a1, b1, c1, w, h, px, py, z),
            raster_color(a1, b1, c1, sh1, uv1, it1, w, h, px, py, z, col),
        ) == raster_color(
            a1,
            b1,
            c1,
            sh1,
            uv1,
            it1,
            w,
            h,
            px,
            py,
            raster_z(a2, b2, c2, w, h, px, py, z),
            raster_color(a2, b2, c2, sh2, uv2, it2, w, h, px, py, z, col),
        ),
{
}

} // verus!
