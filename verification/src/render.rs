//! The frame driver: one linear pass that culls back faces, projects
//! each face's vertices to screen space, gathers its texture
//! coordinates, rasterizes it under the shared z-buffer, and flips the
//! finished image.

use vstd::prelude::*;
use crate::fixed::{fxm, fxd, sdiv, FX_ONE, MAX_COMP, SCREEN_MAX};
use crate::geometry::{Vector3, Matrix4, v3_ok, mat_ok, norm_len, mat_mul_spec, mat_mul_in_range};
use crate::image::{Image, Color, MAX_DIM, pixel_at};
use crate::model::Model;
use crate::transform::{
    viewport, lookat, perspective, transform_vertex, viewport_mat, perspective_mat, lookat_mat,
    lookat_fails, vertex_maps, screen_of, clip_of,
};
use crate::triangle::{
    Shader, shader_wf, fill_triangle, raster_z, raster_color, screen_pt_ok, depth_at,
};
use crate::RenderError;

verus! {

/// What a render reads once and never mutates: output size, camera,
/// light, and the depth range of the z-buffer.
pub struct RenderConfig {
    pub width: usize,
    pub height: usize,
    pub eye: Vector3,
    pub center: Vector3,
    pub up: Vector3,
    pub light_dir: Vector3,
    pub depth: i64,
}

/// The camera and light stay within the ranges the transforms accept;
/// the light direction is unit-scaled.
pub open spec fn config_ok(cfg: RenderConfig) -> bool {
    &&& cfg.width <= MAX_DIM
    &&& cfg.height <= MAX_DIM
    &&& v3_ok(cfg.eye)
    &&& v3_ok(cfg.center)
    &&& v3_ok(cfg.up)
    &&& -FX_ONE <= cfg.light_dir.x <= FX_ONE
    &&& -FX_ONE <= cfg.light_dir.y <= FX_ONE
    &&& -FX_ONE <= cfg.light_dir.z <= FX_ONE
    &&& 0 <= cfg.depth <= SCREEN_MAX
}

/// The componentwise difference of two vectors.
pub open spec fn sub_fx(a: Vector3, b: Vector3) -> Vector3 {
    Vector3 { x: (a.x - b.x) as i64, y: (a.y - b.y) as i64, z: (a.z - b.z) as i64 }
}

/// The fixed-point cross product of two vectors.
pub open spec fn cross_fx(a: Vector3, b: Vector3) -> Vector3 {
    Vector3 {
        x: (fxm(a.y as int, b.z as int) - fxm(a.z as int, b.y as int)) as i64,
        y: (fxm(a.z as int, b.x as int) - fxm(a.x as int, b.z as int)) as i64,
        z: (fxm(a.x as int, b.y as int) - fxm(a.y as int, b.x as int)) as i64,
    }
}

/// The fixed-point inner product of two vectors.
pub open spec fn dot_fx(a: Vector3, b: Vector3) -> int {
    fxm(a.x as int, b.x as int) + fxm(a.y as int, b.y as int) + fxm(a.z as int, b.z as int)
}

/// A vector scaled to unit length.
pub open spec fn unit_fx(v: Vector3) -> Vector3
    recommends
        v != (Vector3 { x: 0, y: 0, z: 0 }),
{
    Vector3 {
        x: sdiv(v.x * FX_ONE, norm_len(v)) as i64,
        y: sdiv(v.y * FX_ONE, norm_len(v)) as i64,
        z: sdiv(v.z * FX_ONE, norm_len(v)) as i64,
    }
}

/// The viewport the driver uses: a box one eighth of the image in
/// from each side, three quarters of the image wide and tall.
pub open spec fn driver_viewport(w: int, h: int, depth: i64) -> Matrix4 {
    let wb = w * (FX_ONE as int);
    let hb = h * (FX_ONE as int);
    viewport_mat(
        (wb / 8) as i64,
        (hb / 8) as i64,
        (wb / 2 + wb / 4) as i64,
        (hb / 2 + hb / 4) as i64,
        depth,
    )
}

/// The raw normal of a face: the cross product of its first two
/// edges, taken as the original winds them.
pub open spec fn face_normal(model: Model, f: int) -> Vector3 {
    let fc = model.faces@[f];
    let w0 = model.vertices@[fc.vertices@[0] as int];
    let w1 = model.vertices@[fc.vertices@[1] as int];
    let w2 = model.vertices@[fc.vertices@[2] as int];
    cross_fx(sub_fx(w2, w0), sub_fx(w1, w0))
}

/// The texel dimensions of the map a shader samples, if it has one.
pub open spec fn shader_dims(sh: Shader) -> Option<(int, int)> {
    match sh {
        Shader::Flat { color } => None,
        Shader::Texture { diffuse } => Some((diffuse.width as int, diffuse.height as int)),
        Shader::TextureNormal { diffuse, normal, light } => Some(
            (diffuse.width as int, diffuse.height as int),
        ),
    }
}

/// A texture coordinate in [0, 1] scaled to texel units.
pub open spec fn scale_uv_spec(t: Vector3, dw: int, dh: int) -> Vector3 {
    Vector3 {
        x: fxm(t.x as int, dw * (FX_ONE as int)) as i64,
        y: fxm(t.y as int, dh * (FX_ONE as int)) as i64,
        z: 0,
    }
}

/// The scaled texture coordinates of a face, when the shader samples
/// a map and the face carries three texture indices.
pub open spec fn face_uv(model: Model, sh: Shader, f: int) -> Option<(Vector3, Vector3, Vector3)> {
    let fc = model.faces@[f];
    match shader_dims(sh) {
        None => None,
        Some(d) => if fc.texture_indices@.len() >= 3 {
            Some(
                (
                    scale_uv_spec(model.texture_coords@[fc.texture_indices@[0] as int], d.0, d.1),
                    scale_uv_spec(model.texture_coords@[fc.texture_indices@[1] as int], d.0, d.1),
                    scale_uv_spec(model.texture_coords@[fc.texture_indices@[2] as int], d.0, d.1),
                ),
            )
        } else {
            None
        },
    }
}

/// The scaled texture coordinates stay representable.
pub open spec fn uv_in_range(uv: Option<(Vector3, Vector3, Vector3)>) -> bool {
    match uv {
        None => true,
        Some(t) => screen_pt_ok(t.0) && screen_pt_ok(t.1) && screen_pt_ok(t.2),
    }
}

/// The error a failed vertex transform reports.
pub open spec fn tv_err(pl: Matrix4, vp: Matrix4, v: Vector3) -> RenderError {
    if clip_of(pl, v).w == 0 {
        RenderError::DivisionSingularity
    } else {
        RenderError::OutOfRange
    }
}

/// The z-buffer after one triangle is drawn over it.
pub open spec fn zstep(
    a: Vector3,
    b: Vector3,
    c: Vector3,
    w: int,
    h: int,
    zs: Seq<i64>,
) -> Seq<i64> {
    Seq::new(zs.len(), |i: int| raster_z(a, b, c, w, h, i % w, i / w, zs[i] as int) as i64)
}

/// The pixels after one triangle is drawn over them.
pub open spec fn cstep(
    a: Vector3,
    b: Vector3,
    c: Vector3,
    sh: Shader,
    uv: Option<(Vector3, Vector3, Vector3)>,
    it: i64,
    w: int,
    h: int,
    zs: Seq<i64>,
    cs: Seq<Color>,
) -> Seq<Color> {
    Seq::new(
        cs.len(),
        |i: int| raster_color(a, b, c, sh, uv, it, w, h, i % w, i / w, zs[i] as int, cs[i]),
    )
}

/// What one face does to the z-buffer and the pixels: a face with no
/// normal aborts; a face turned from the light changes nothing; a
/// vertex that does not transform aborts with that vertex's error;
/// texture coordinates out of range abort; otherwise the triangle is
/// rasterized over the state.
pub open spec fn face_step(
    model: Model,
    sh: Shader,
    pl: Matrix4,
    vp: Matrix4,
    light: Vector3,
    w: int,
    h: int,
    f: int,
    zs: Seq<i64>,
    cs: Seq<Color>,
) -> Result<(Seq<i64>, Seq<Color>), RenderError> {
    let fc = model.faces@[f];
    let w0 = model.vertices@[fc.vertices@[0] as int];
    let w1 = model.vertices@[fc.vertices@[1] as int];
    let w2 = model.vertices@[fc.vertices@[2] as int];
    let nr = face_normal(model, f);
    if nr == (Vector3 { x: 0, y: 0, z: 0 }) {
        Err(RenderError::DivisionSingularity)
    } else {
        let raw = dot_fx(unit_fx(nr), light);
        if raw < 0 {
            Ok((zs, cs))
        } else {
            let it = if raw > FX_ONE {
                FX_ONE as i64
            } else {
                raw as i64
            };
            if !vertex_maps(pl, vp, w0) {
                Err(tv_err(pl, vp, w0))
            } else if !vertex_maps(pl, vp, w1) {
                Err(tv_err(pl, vp, w1))
            } else if !vertex_maps(pl, vp, w2) {
                Err(tv_err(pl, vp, w2))
            } else {
                let s0 = screen_of(pl, vp, w0);
                let s1 = screen_of(pl, vp, w1);
                let s2 = screen_of(pl, vp, w2);
                let uv = face_uv(model, sh, f);
                if !uv_in_range(uv) {
                    Err(RenderError::OutOfRange)
                } else {
                    Ok((zstep(s0, s1, s2, w, h, zs), cstep(s0, s1, s2, sh, uv, it, w, h, zs, cs)))
                }
            }
        }
    }
}

/// The first `k` faces folded over the starting state, aborting at
/// the first face that fails.
pub open spec fn render_faces(
    model: Model,
    sh: Shader,
    pl: Matrix4,
    vp: Matrix4,
    light: Vector3,
    w: int,
    h: int,
    k: int,
    zs: Seq<i64>,
    cs: Seq<Color>,
) -> Result<(Seq<i64>, Seq<Color>), RenderError>
    decreases k,
{
    if k <= 0 {
        Ok((zs, cs))
    } else {
        match render_faces(model, sh, pl, vp, light, w, h, k - 1, zs, cs) {
            Err(e) => Err(e),
            Ok(s) => face_step(model, sh, pl, vp, light, w, h, k - 1, s.0, s.1),
        }
    }
}

/// Once the fold fails, it stays failed with the same error.
proof fn lemma_render_faces_err(
    model: Model,
    sh: Shader,
    pl: Matrix4,
    vp: Matrix4,
    light: Vector3,
    w: int,
    h: int,
    k: int,
    k2: int,
    zs: Seq<i64>,
    cs: Seq<Color>,
)
    requires
        0 <= k <= k2,
        render_faces(model, sh, pl, vp, light, w, h, k, zs, cs) is Err,
    ensures
        render_faces(model, sh, pl, vp, light, w, h, k2, zs, cs) == render_faces(
            model,
            sh,
            pl,
            vp,
            light,
            w,
            h,
            k,
            zs,
            cs,
        ),
    decreases k2 - k,
{
    if k2 > k {
        lemma_render_faces_err(model, sh, pl, vp, light, w, h, k, k2 - 1, zs, cs);
    }
}

/// A fresh z-buffer as a sequence: every cell at the sentinel.
pub open spec fn init_zbuf(n: nat) -> Seq<i64> {
    Seq::new(n, |i: int| i64::MIN)
}

/// A fresh raster as a sequence: every pixel transparent black.
pub open spec fn init_pixels(n: nat) -> Seq<Color> {
    Seq::new(n, |i: int| Color { r: 0, g: 0, b: 0, a: 0 })
}

/// The pixel rows in reverse order.
pub open spec fn flip_rows(cs: Seq<Color>, w: int, h: int) -> Seq<Color> {
    Seq::new(cs.len(), |i: int| cs[(h - 1 - i / w) * w + i % w])
}

/// The combined projection-view matrix the driver uses.
pub open spec fn driver_matrix(cfg: RenderConfig) -> Matrix4 {
    mat_mul_spec(
        perspective_mat(norm_len(sub_fx(cfg.eye, cfg.center)) as i64),
        lookat_mat(cfg.eye, cfg.center, cfg.up),
    )
}

/// Renders the mesh into a fresh image: builds the lookat,
/// perspective and viewport matrices, folds every face in order over
/// a cleared image and z-buffer, and finally flips the image
/// vertically. Any transform failure aborts the render with its
/// error.
#[verifier::rlimit(100)]
#[verifier::loop_isolation(false)]
pub fn render(model: &Model, shader: &Shader, cfg: &RenderConfig) -> (r: Result<
    Image,
    RenderError,
>)
    requires
        model.wf(),
        config_ok(*cfg),
        shader_wf(*shader),
    ensures
        ({
            let w = cfg.width as int;
            let h = cfg.height as int;
            let vp = driver_viewport(w, h, cfg.depth);
            let pl = driver_matrix(*cfg);
            let dist = norm_len(sub_fx(cfg.eye, cfg.center));
            let zs0 = init_zbuf((cfg.width * cfg.height) as nat);
            let cs0 = init_pixels((cfg.width * cfg.height) as nat);
            let folded = render_faces(
                *model,
                *shader,
                pl,
                vp,
                cfg.light_dir,
                w,
                h,
                model.faces@.len() as int,
                zs0,
                cs0,
            );
            match r {
                Ok(img) => {
                    &&& img.wf()
                    &&& img.width == cfg.width
                    &&& img.height == cfg.height
                    &&& !lookat_fails(cfg.eye, cfg.center, cfg.up)
                    &&& folded matches Ok(s) && img.data@ == flip_rows(s.1, w, h)
                },
                Err(e) => {
                    if lookat_fails(cfg.eye, cfg.center, cfg.up) {
                        e == RenderError::DivisionSingularity
                    } else if dist > MAX_COMP {
                        e == RenderError::OutOfRange
                    } else if dist == 0 || !(-MAX_COMP <= fxd(FX_ONE as int, dist) <= MAX_COMP) {
                        e == RenderError::DivisionSingularity
                    } else if !mat_mul_in_range(
                        perspective_mat(dist as i64),
                        lookat_mat(cfg.eye, cfg.center, cfg.up),
                    ) {
                        e == RenderError::OutOfRange
                    } else {
                        folded == Err::<(Seq<i64>, Seq<Color>), RenderError>(e)
                    }
                },
            }
        }),
{
    let w: usize = cfg.width;
    let h: usize = cfg.height;
    let ghost wi = w as int;
    let ghost hi = h as int;
    let mut img = Image::new(w, h);
    let mut zbuf: Vec<i64> = crate::image::new_zbuffer(w, h);
    let ghost zs0 = init_zbuf((w * h) as nat);
    let ghost cs0 = init_pixels((w * h) as nat);
    proof {
        assert(zbuf@ =~= zs0);
        assert(img.data@ =~= cs0);
    }

    let wb: i64 = (w as i64) * FX_ONE;
    let hb: i64 = (h as i64) * FX_ONE;
    proof {
        assert(wb <= 0x4000_0000 && hb <= 0x4000_0000) by (nonlinear_arith)
            requires
                0 <= w <= 16384,
                0 <= h <= 16384,
                wb == w * 65536,
                hb == h * 65536,
        ;
    }
    let vx: i64 = wb / 8;
    let vy: i64 = hb / 8;
    let vw: i64 = wb / 2 + wb / 4;
    let vh: i64 = hb / 2 + hb / 4;
    let vp = viewport(vx, vy, vw, vh, cfg.depth);
    proof {
        assert(vp == driver_viewport(wi, hi, cfg.depth));
    }

    let mv = match lookat(cfg.eye, cfg.center, cfg.up) {
        Ok(m) => m,
        Err(e) => {
            return Err(e);
        },
    };
    let dvec: Vector3 = cfg.eye.sub(cfg.center);
    let dist: i64 = dvec.length();
    proof {
        assert(dvec == sub_fx(cfg.eye, cfg.center));
        assert(dist == norm_len(sub_fx(cfg.eye, cfg.center)));
    }
    if dist > MAX_COMP {
        return Err(RenderError::OutOfRange);
    }
    let pm = match perspective(dist) {
        Ok(m) => m,
        Err(e) => {
            return Err(e);
        },
    };
    let pl = match pm.mul_mat(&mv) {
        Some(m) => m,
        None => {
            return Err(RenderError::OutOfRange);
        },
    };
    proof {
        assert(pl == driver_matrix(*cfg));
    }

    let nfaces: usize = model.faces.len();
    let mut f: usize = 0;
    while f < nfaces
        invariant
            model.wf(),
            config_ok(*cfg),
            shader_wf(*shader),
            nfaces == model.faces@.len(),
            f <= nfaces,
            mat_ok(pl),
            mat_ok(vp),
            pl == driver_matrix(*cfg),
            vp == driver_viewport(wi, hi, cfg.depth),
            wi == w as int,
            hi == h as int,
            img.wf(),
            img.width == w,
            img.height == h,
            w == cfg.width,
            h == cfg.height,
            zbuf@.len() == w * h,
            img.data@.len() == w * h,
            zs0 == init_zbuf((w * h) as nat),
            cs0 == init_pixels((w * h) as nat),
            render_faces(
                *model,
                *shader,
                pl,
                vp,
                cfg.light_dir,
                wi,
                hi,
                f as int,
                zs0,
                cs0,
            ) == Ok::<(Seq<i64>, Seq<Color>), RenderError>((zbuf@, img.data@)),
        decreases nfaces - f,
    {
        match render_face(&mut img, &mut zbuf, model, shader, &pl, &vp, cfg.light_dir, f) {
            Ok(u) => {
                proof {
                    assert(render_faces(
                        *model,
                        *shader,
                        pl,
                        vp,
                        cfg.light_dir,
                        wi,
                        hi,
                        f as int + 1,
                        zs0,
                        cs0,
                    ) == Ok::<(Seq<i64>, Seq<Color>), RenderError>((zbuf@, img.data@)));
                }
            },
            Err(e) => {
                proof {
                    assert(render_faces(
                        *model,
                        *shader,
                        pl,
                        vp,
                        cfg.light_dir,
                        wi,
                        hi,
                        f as int + 1,
                        zs0,
                        cs0,
                    ) == Err::<(Seq<i64>, Seq<Color>), RenderError>(e));
                    lemma_render_faces_err(
                        *model,
                        *shader,
                        pl,
                        vp,
                        cfg.light_dir,
                        wi,
                        hi,
                        f as int + 1,
                        nfaces as int,
                        zs0,
                        cs0,
                    );
                }
                return Err(e);
            },
        }
        f = f + 1;
    }
    let ghost before_flip = img.data@;
    img.flip_vertical();
    proof {
        assert forall|i: int| 0 <= i < img.data@.len() implies img.data@[i] == flip_rows(
            before_flip,
            wi,
            hi,
        )[i] by {
            lemma_index_decomposes(i, wi, hi);
            let qx = i % wi;
            let qy = i / wi;
            assert(pixel_at(img, qx, qy) == before_flip[(hi - 1 - qy) * wi + qx]);
        }
        assert(img.data@ =~= flip_rows(before_flip, wi, hi));
    }
    Ok(img)
}

/// Processes one face: culls it against the light, transforms its
/// first three vertices, gathers and scales its texture coordinates,
/// and rasterizes it; the buffers change exactly as `face_step` says.
fn render_face(
    img: &mut Image,
    zbuf: &mut Vec<i64>,
    model: &Model,
    shader: &Shader,
    pl: &Matrix4,
    vp: &Matrix4,
    light: Vector3,
    f: usize,
) -> (r: Result<(), RenderError>)
    requires
        model.wf(),
        f < model.faces@.len(),
        mat_ok(*pl),
        mat_ok(*vp),
        shader_wf(*shader),
        -FX_ONE <= light.x <= FX_ONE,
        -FX_ONE <= light.y <= FX_ONE,
        -FX_ONE <= light.z <= FX_ONE,
        old(img).wf(),
        old(zbuf)@.len() == old(img).width * old(img).height,
    ensures
        final(img).wf(),
        final(img).width == old(img).width,
        final(img).height == old(img).height,
        final(zbuf)@.len() == old(zbuf)@.len(),
        match r {
            Ok(u) => face_step(
                *model,
                *shader,
                *pl,
                *vp,
                light,
                old(img).width as int,
                old(img).height as int,
                f as int,
                old(zbuf)@,
                old(img).data@,
            ) == Ok::<(Seq<i64>, Seq<Color>), RenderError>((final(zbuf)@, final(img).data@)),
            Err(e) => face_step(
                *model,
                *shader,
                *pl,
                *vp,
                light,
                old(img).width as int,
                old(img).height as int,
                f as int,
                old(zbuf)@,
                old(img).data@,
            ) == Err::<(Seq<i64>, Seq<Color>), RenderError>(e) && final(zbuf)@ == old(zbuf)@
                && final(img).data@ == old(img).data@,
        },
{
    let ghost wi = img.width as int;
    let ghost hi = img.height as int;
    let ghost zpre = zbuf@;
    let ghost ipre = *img;
    let face = &model.faces[f];
    let i0: usize = face.vertices[0];
    let i1: usize = face.vertices[1];
    let i2: usize = face.vertices[2];
    let w0: Vector3 = *model.get_vertex(i0);
    let w1: Vector3 = *model.get_vertex(i1);
    let w2: Vector3 = *model.get_vertex(i2);

    let e1: Vector3 = w2.sub(w0);
    let e2: Vector3 = w1.sub(w0);
    let n_raw = e1.cross(e2);
    proof {
        assert(e1 == sub_fx(w2, w0));
        assert(e2 == sub_fx(w1, w0));
        assert(n_raw == face_normal(*model, f as int));
    }
    let n = match n_raw.normalize() {
        Ok(v) => v,
        Err(e) => {
            return Err(e);
        },
    };
    proof {
        assert(n == unit_fx(n_raw));
    }
    let raw_intensity: i64 = n.dot(light);
    if raw_intensity < 0 {
        return Ok(());
    }
    let intensity: i64 = if raw_intensity > FX_ONE {
        FX_ONE
    } else {
        raw_intensity
    };
    let s0 = match transform_vertex(pl, vp, w0) {
        Ok(s) => s,
        Err(e) => {
            return Err(e);
        },
    };
    let s1 = match transform_vertex(pl, vp, w1) {
        Ok(s) => s,
        Err(e) => {
            return Err(e);
        },
    };
    let s2 = match transform_vertex(pl, vp, w2) {
        Ok(s) => s,
        Err(e) => {
            return Err(e);
        },
    };
    let texture_dims: Option<(usize, usize)> = match shader {
        Shader::Flat { color } => None,
        Shader::Texture { diffuse } => Some((diffuse.width, diffuse.height)),
        Shader::TextureNormal { diffuse, normal, light } => Some((diffuse.width, diffuse.height)),
    };
    let uv: Option<(Vector3, Vector3, Vector3)> = match texture_dims {
        Some(dims) => {
            if face.texture_indices.len() >= 3 {
                let t0 = scale_uv(model.get_texture_coord(face.texture_indices[0]), dims);
                let t1 = scale_uv(model.get_texture_coord(face.texture_indices[1]), dims);
                let t2 = scale_uv(model.get_texture_coord(face.texture_indices[2]), dims);
                match (t0, t1, t2) {
                    (Some(u0), Some(u1), Some(u2)) => Some((u0, u1, u2)),
                    _ => {
                        return Err(RenderError::OutOfRange);
                    },
                }
            } else {
                None
            }
        },
        None => None,
    };
    proof {
        assert(uv == face_uv(*model, *shader, f as int));
        assert(uv_in_range(uv));
    }
    fill_triangle(img, zbuf, s0, s1, s2, uv, intensity, shader);
    proof {
        lemma_state_matches_step(s0, s1, s2, *shader, uv, intensity, ipre, *img, zpre, zbuf@);
    }
    Ok(())
}

/// After a triangle is filled, the buffers hold exactly the stepped
/// sequences.
proof fn lemma_state_matches_step(
    a: Vector3,
    b: Vector3,
    c: Vector3,
    sh: Shader,
    uv: Option<(Vector3, Vector3, Vector3)>,
    it: i64,
    ipre: Image,
    ipost: Image,
    zpre: Seq<i64>,
    zpost: Seq<i64>,
)
    requires
        ipost.width == ipre.width,
        ipost.height == ipre.height,
        ipre.data@.len() == ipre.width * ipre.height,
        ipost.data@.len() == ipre.width * ipre.height,
        zpre.len() == ipre.width * ipre.height,
        zpost.len() == ipre.width * ipre.height,
        forall|qx: int, qy: int|
            0 <= qx < ipre.width && 0 <= qy < ipre.height ==> #[trigger] depth_at(
                zpost,
                ipre.width as int,
                qx,
                qy,
            ) == raster_z(
                a,
                b,
                c,
                ipre.width as int,
                ipre.height as int,
                qx,
                qy,
                depth_at(zpre, ipre.width as int, qx, qy),
            ),
        forall|qx: int, qy: int|
            0 <= qx < ipre.width && 0 <= qy < ipre.height ==> #[trigger] pixel_at(ipost, qx, qy)
                == raster_color(
                a,
                b,
                c,
                sh,
                uv,
                it,
                ipre.width as int,
                ipre.height as int,
                qx,
                qy,
                depth_at(zpre, ipre.width as int, qx, qy),
                pixel_at(ipre, qx, qy),
            ),
    ensures
        zpost == zstep(a, b, c, ipre.width as int, ipre.height as int, zpre),
        ipost.data@ == cstep(
            a,
            b,
            c,
            sh,
            uv,
            it,
            ipre.width as int,
            ipre.height as int,
            zpre,
            ipre.data@,
        ),
{
    let w = ipre.width as int;
    let h = ipre.height as int;
    assert forall|i: int|
        #![trigger zpost[i]]
        #![trigger ipost.data@[i]]
        0 <= i < zpre.len() implies zpost[i] == zstep(a, b, c, w, h, zpre)[i] && ipost.data@[i]
        == cstep(a, b, c, sh, uv, it, w, h, zpre, ipre.data@)[i] by {
        lemma_index_decomposes(i, w, h);
        let qx = i % w;
        let qy = i / w;
        assert(depth_at(zpost, w, qx, qy) == raster_z(
            a,
            b,
            c,
            w,
            h,
            qx,
            qy,
            depth_at(zpre, w, qx, qy),
        ));
        assert(pixel_at(ipost, qx, qy) == raster_color(
            a,
            b,
            c,
            sh,
            uv,
            it,
            w,
            h,
            qx,
            qy,
            depth_at(zpre, w, qx, qy),
            pixel_at(ipre, qx, qy),
        ));
    }
    assert(zpost =~= zstep(a, b, c, w, h, zpre));
    assert(ipost.data@ =~= cstep(a, b, c, sh, uv, it, w, h, zpre, ipre.data@));
}

/// A flat pixel index splits into its column and row.
proof fn lemma_index_decomposes(i: int, w: int, h: int)
    requires
        0 <= i < w * h,
        0 <= w,
        0 <= h,
    ensures
        0 <= i % w < w,
        0 <= i / w < h,
        (i / w) * w + (i % w) == i,
{
    assert(w > 0) by (nonlinear_arith)
        requires
            0 <= i < w * h,
            w >= 0,
    ;
    vstd::arithmetic::div_mod::lemma_fundamental_div_mod(i, w);
    vstd::arithmetic::div_mod::lemma_mod_division_less_than_divisor(i, w);
    vstd::arithmetic::div_mod::lemma_div_pos_is_pos(i, w);
    assert(i / w < h) by (nonlinear_arith)
        requires
            i < w * h,
            w > 0,
            h > 0,
            i == w * (i / w) + i % w,
            0 <= i % w < w,
            i / w >= 0,
    ;
    assert((i / w) * w == w * (i / w)) by (nonlinear_arith);
}

/// Scales a texture coordinate in [0, 1] to texel units of a map with
/// the given dimensions; `None` when the result leaves the raster
/// coordinate range.
fn scale_uv(tc: &Vector3, dims: (usize, usize)) -> (r: Option<Vector3>)
    requires
        -SCREEN_MAX <= tc.x <= SCREEN_MAX,
        -SCREEN_MAX <= tc.y <= SCREEN_MAX,
        dims.0 <= MAX_DIM,
        dims.1 <= MAX_DIM,
    ensures
        r is Some <==> screen_pt_ok(scale_uv_spec(*tc, dims.0 as int, dims.1 as int)),
        r matches Some(u) ==> u == scale_uv_spec(*tc, dims.0 as int, dims.1 as int),
{
    let wb: i64 = (dims.0 as i64) * FX_ONE;
    let hb: i64 = (dims.1 as i64) * FX_ONE;
    proof {
        assert(wb <= 0x4000_0000 && hb <= 0x4000_0000) by (nonlinear_arith)
            requires
                0 <= dims.0 <= 16384,
                0 <= dims.1 <= 16384,
                wb == dims.0 * 65536,
                hb == dims.1 * 65536,
        ;
    }
    let ux: i64 = crate::fixed::fx_mul(tc.x, wb);
    let uy: i64 = crate::fixed::fx_mul(tc.y, hb);
    if ux < -SCREEN_MAX || ux > SCREEN_MAX || uy < -SCREEN_MAX || uy > SCREEN_MAX {
        None
    } else {
        Some(Vector3 { x: ux, y: uy, z: 0 })
    }
}

} // verus!
