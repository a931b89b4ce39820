use rasterizer::fixed::{fx_div, fx_mul, isqrt, FX_ONE};
use rasterizer::geometry::{Matrix4, Point, Vector3, Vector4};
use rasterizer::RenderError;

#[test]
fn point_new_and_getters() {
    let p = Point::new(3, -4, 5);
    assert_eq!(p.get_x(), 3);
    assert_eq!(p.get_y(), -4);
    assert_eq!(p.get_z(), 5);
}

#[test]
fn point_arithmetic() {
    let p = Point::new(1, 2, 3);
    let q = Point::new(10, 20, 30);
    let s = p.add(q);
    assert_eq!((s.get_x(), s.get_y(), s.get_z()), (11, 22, 33));
    let d = q.sub(p);
    assert_eq!((d.get_x(), d.get_y(), d.get_z()), (9, 18, 27));
    assert_eq!(p.dot(q), 10 + 40 + 90);
    let m = p.scale(-2);
    assert_eq!((m.get_x(), m.get_y(), m.get_z()), (-2, -4, -6));
}

#[test]
fn fixed_point_multiply() {
    assert_eq!(fx_mul(FX_ONE, FX_ONE), FX_ONE);
    assert_eq!(fx_mul(3 * FX_ONE, 2 * FX_ONE), 6 * FX_ONE);
    assert_eq!(fx_mul(-3 * FX_ONE, FX_ONE / 2), -(3 * FX_ONE) / 2);
    assert_eq!(fx_mul(0, 12345), 0);
}

#[test]
fn fixed_point_divide() {
    assert_eq!(fx_div(FX_ONE, 2 * FX_ONE), Some(FX_ONE / 2));
    assert_eq!(fx_div(6 * FX_ONE, 3 * FX_ONE), Some(2 * FX_ONE));
    assert_eq!(fx_div(-6 * FX_ONE, 3 * FX_ONE), Some(-2 * FX_ONE));
    // 1 / (1/65536) is 65536, far beyond the component range.
    assert_eq!(fx_div(FX_ONE, 1), None);
}

#[test]
fn integer_square_root() {
    assert_eq!(isqrt(0), 0);
    assert_eq!(isqrt(1), 1);
    assert_eq!(isqrt(10), 3);
    assert_eq!(isqrt(16), 4);
    assert_eq!(isqrt(24), 4);
    assert_eq!(isqrt(25), 5);
}

#[test]
fn vector_operations() {
    let a = Vector3::new(FX_ONE, 0, 0);
    let b = Vector3::new(0, FX_ONE, 0);
    let s = a.add(b);
    assert_eq!(s, Vector3::new(FX_ONE, FX_ONE, 0));
    let d = a.sub(b);
    assert_eq!(d, Vector3::new(FX_ONE, -FX_ONE, 0));
    assert_eq!(a.dot(b), 0);
    assert_eq!(a.dot(a), FX_ONE);
    // The x axis crossed with the y axis gives the z axis.
    assert_eq!(a.cross(b), Vector3::new(0, 0, FX_ONE));
    assert_eq!(a.scale(3 * FX_ONE), Vector3::new(3 * FX_ONE, 0, 0));
}

#[test]
fn normalize_unit_axis() {
    let v = Vector3::new(3 * FX_ONE, 0, 0);
    assert_eq!(v.normalize(), Ok(Vector3::new(FX_ONE, 0, 0)));
}

#[test]
fn normalize_three_four_five() {
    // A 3-4-5 triangle: the length is exactly five units.
    let v = Vector3::new(3 * FX_ONE, 4 * FX_ONE, 0);
    let n = v.normalize().unwrap();
    // 196608 * 65536 / 327680 and 262144 * 65536 / 327680, truncated.
    assert_eq!(n, Vector3::new(39321, 52428, 0));
}

#[test]
fn normalize_zero_vector_fails() {
    let v = Vector3::new(0, 0, 0);
    assert_eq!(v.normalize(), Err(RenderError::DivisionSingularity));
}

#[test]
fn vector_length() {
    assert_eq!(Vector3::new(3 * FX_ONE, 4 * FX_ONE, 0).length(), 5 * FX_ONE);
    assert_eq!(Vector3::new(0, 0, 0).length(), 0);
}

#[test]
fn matrix_identity_times_vector() {
    let id = Matrix4::from_cols(
        Vector4 { x: FX_ONE, y: 0, z: 0, w: 0 },
        Vector4 { x: 0, y: FX_ONE, z: 0, w: 0 },
        Vector4 { x: 0, y: 0, z: FX_ONE, w: 0 },
        Vector4 { x: 0, y: 0, z: 0, w: FX_ONE },
    );
    let v = Vector4 { x: 3 * FX_ONE, y: -2 * FX_ONE, z: FX_ONE, w: FX_ONE };
    assert_eq!(id.mul_vec(v), v);
    let p = id.mul_mat(&id).unwrap();
    assert_eq!(p, id);
}

#[test]
fn matrix_translation() {
    // A translation by (5, 7, -2) units, applied to the origin.
    let t = Matrix4::from_cols(
        Vector4 { x: FX_ONE, y: 0, z: 0, w: 0 },
        Vector4 { x: 0, y: FX_ONE, z: 0, w: 0 },
        Vector4 { x: 0, y: 0, z: FX_ONE, w: 0 },
        Vector4 { x: 5 * FX_ONE, y: 7 * FX_ONE, z: -2 * FX_ONE, w: FX_ONE },
    );
    let origin = Vector4 { x: 0, y: 0, z: 0, w: FX_ONE };
    let r = t.mul_vec(origin);
    assert_eq!(r, Vector4 { x: 5 * FX_ONE, y: 7 * FX_ONE, z: -2 * FX_ONE, w: FX_ONE });
}
