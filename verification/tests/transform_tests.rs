use rasterizer::fixed::FX_ONE;
use rasterizer::geometry::{Vector3, Vector4};
use rasterizer::transform::{lookat, perspective, transform_vertex, viewport};
use rasterizer::RenderError;

#[test]
fn viewport_matrix_entries() {
    let s = FX_ONE;
    let m = viewport(100 * s, 50 * s, 600 * s, 400 * s, 255 * s);
    assert_eq!(m.c0, Vector4 { x: 300 * s, y: 0, z: 0, w: 0 });
    assert_eq!(m.c1, Vector4 { x: 0, y: 200 * s, z: 0, w: 0 });
    assert_eq!(m.c2, Vector4 { x: 0, y: 0, z: (255 * s) / 2, w: 0 });
    assert_eq!(m.c3, Vector4 { x: 400 * s, y: 250 * s, z: (255 * s) / 2, w: s });
}

#[test]
fn perspective_entry_is_reciprocal_distance() {
    let m = perspective(3 * FX_ONE).unwrap();
    // -1 / 3 in raw counts, truncated: 65536 * 65536 / 196608.
    assert_eq!(m.c2.w, -21845);
    assert_eq!(m.c0, Vector4 { x: FX_ONE, y: 0, z: 0, w: 0 });
    assert_eq!(m.c3, Vector4 { x: 0, y: 0, z: 0, w: FX_ONE });
}

#[test]
fn perspective_zero_distance_fails() {
    assert!(perspective(0) == Err(RenderError::DivisionSingularity));
    // A distance below one count blows the entry out of range too.
    assert!(perspective(1) == Err(RenderError::DivisionSingularity));
}

#[test]
fn lookat_down_z_axis_is_axis_aligned() {
    let eye = Vector3::new(0, 0, 3 * FX_ONE);
    let center = Vector3::new(0, 0, 0);
    let up = Vector3::new(0, FX_ONE, 0);
    let m = lookat(eye, center, up).unwrap();
    assert_eq!(m.c0, Vector4 { x: FX_ONE, y: 0, z: 0, w: 0 });
    assert_eq!(m.c1, Vector4 { x: 0, y: FX_ONE, z: 0, w: 0 });
    assert_eq!(m.c2, Vector4 { x: 0, y: 0, z: FX_ONE, w: 0 });
    assert_eq!(m.c3, Vector4 { x: 0, y: 0, z: 0, w: FX_ONE });
}

#[test]
fn lookat_at_eye_position_fails() {
    let p = Vector3::new(FX_ONE, 2 * FX_ONE, 3 * FX_ONE);
    let up = Vector3::new(0, FX_ONE, 0);
    assert!(lookat(p, p, up) == Err(RenderError::DivisionSingularity));
}

#[test]
fn lookat_with_parallel_up_fails() {
    // The up direction parallel to the view axis leaves no x axis.
    let eye = Vector3::new(0, 0, 3 * FX_ONE);
    let center = Vector3::new(0, 0, 0);
    let up = Vector3::new(0, 0, FX_ONE);
    assert!(lookat(eye, center, up) == Err(RenderError::DivisionSingularity));
}

#[test]
fn lookat_with_skew_parallel_up_fails() {
    // An up direction exactly parallel to the view axis, off the
    // coordinate axes: parallelism is decided on the raw vectors, so
    // fixed-point truncation cannot hide it.
    let eye = Vector3::new(2 * FX_ONE, FX_ONE, 0);
    let center = Vector3::new(0, 0, 0);
    let up = Vector3::new(2 * FX_ONE, FX_ONE, 0);
    assert!(lookat(eye, center, up) == Err(RenderError::DivisionSingularity));
}

#[test]
fn lookat_with_zero_up_fails() {
    let eye = Vector3::new(0, 0, 3 * FX_ONE);
    let center = Vector3::new(0, 0, 0);
    let up = Vector3::new(0, 0, 0);
    assert!(lookat(eye, center, up) == Err(RenderError::DivisionSingularity));
}

#[test]
fn frustum_center_lands_at_viewport_center() {
    // A vertex at the world origin, camera on the z axis: after the
    // whole chain and the perspective divide it lands exactly at the
    // center of the viewport box, inside the image.
    let s = FX_ONE;
    let eye = Vector3::new(0, 0, 3 * s);
    let center = Vector3::new(0, 0, 0);
    let up = Vector3::new(0, s, 0);
    let mv = lookat(eye, center, up).unwrap();
    let pm = perspective(3 * s).unwrap();
    let pl = pm.mul_mat(&mv).unwrap();
    let vp = viewport(100 * s, 100 * s, 600 * s, 600 * s, 255 * s);
    let r = transform_vertex(&pl, &vp, Vector3::new(0, 0, 0)).unwrap();
    assert_eq!(r.x, 400 * s);
    assert_eq!(r.y, 400 * s);
    assert_eq!(r.z, (255 * s) / 2);
    // In pixels: (400, 400) inside an 800-wide, 800-tall image.
    assert!(0 <= r.x && r.x < 800 * s);
    assert!(0 <= r.y && r.y < 800 * s);
}

#[test]
fn transform_rejects_zero_homogeneous_coordinate() {
    // A projection matrix whose output w is always zero.
    let s = FX_ONE;
    let zero_w = rasterizer::geometry::Matrix4::from_cols(
        Vector4 { x: s, y: 0, z: 0, w: 0 },
        Vector4 { x: 0, y: s, z: 0, w: 0 },
        Vector4 { x: 0, y: 0, z: s, w: 0 },
        Vector4 { x: 0, y: 0, z: 0, w: 0 },
    );
    let vp = viewport(0, 0, 100 * s, 100 * s, 255 * s);
    let r = transform_vertex(&zero_w, &vp, Vector3::new(0, 0, 0));
    assert!(r == Err(RenderError::DivisionSingularity));
}
