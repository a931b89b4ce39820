use rasterizer::fixed::FX_ONE;
use rasterizer::geometry::Vector3;
use rasterizer::image::{new_zbuffer, Color, Image};
use rasterizer::triangle::{fill_triangle, Shader};

fn v(x: i64, y: i64, z: i64) -> Vector3 {
    Vector3::new(x * FX_ONE, y * FX_ONE, z * FX_ONE)
}

const BLACK: Color = Color { r: 0, g: 0, b: 0, a: 0 };

#[test]
fn unit_square_covers_every_pixel() {
    // A unit square as two triangles, flat white, camera-facing,
    // rendered into a 4x4 image: all 16 pixels white, the z-buffer
    // at the square's constant depth everywhere.
    let mut img = Image::new(4, 4);
    let mut zbuf = new_zbuffer(4, 4);
    let white = Color::new(255, 255, 255, 255);
    let shader = Shader::Flat { color: white };
    fill_triangle(&mut img, &mut zbuf, v(0, 0, 5), v(3, 0, 5), v(3, 3, 5), None, FX_ONE, &shader);
    fill_triangle(&mut img, &mut zbuf, v(0, 0, 5), v(3, 3, 5), v(0, 3, 5), None, FX_ONE, &shader);
    for y in 0..4 {
        for x in 0..4 {
            assert_eq!(img.get(x, y), white);
        }
    }
    for i in 0..16 {
        assert_eq!(zbuf[i], 5 * FX_ONE);
    }
}

#[test]
fn depth_test_keeps_nearer_triangle_in_either_order() {
    // Two overlapping opaque triangles at different depths must show
    // the nearer one's color at every overlapping pixel, whatever the
    // draw order.
    let red = Color::new(255, 0, 0, 255);
    let green = Color::new(0, 255, 0, 255);
    let far = [v(0, 0, 10), v(3, 0, 10), v(0, 3, 10)];
    let near = [v(0, 0, 20), v(3, 0, 20), v(0, 3, 20)];

    let mut img1 = Image::new(4, 4);
    let mut zb1 = new_zbuffer(4, 4);
    let shader_red = Shader::Flat { color: red };
    let shader_green = Shader::Flat { color: green };
    fill_triangle(&mut img1, &mut zb1, far[0], far[1], far[2], None, FX_ONE, &shader_red);
    fill_triangle(&mut img1, &mut zb1, near[0], near[1], near[2], None, FX_ONE, &shader_green);

    let mut img2 = Image::new(4, 4);
    let mut zb2 = new_zbuffer(4, 4);
    fill_triangle(&mut img2, &mut zb2, near[0], near[1], near[2], None, FX_ONE, &shader_green);
    fill_triangle(&mut img2, &mut zb2, far[0], far[1], far[2], None, FX_ONE, &shader_red);

    for y in 0..4 {
        for x in 0..4 {
            assert_eq!(img1.get(x, y), img2.get(x, y));
        }
    }
    assert_eq!(img1.get(0, 0), green);
    assert_eq!(img1.get(1, 1), green);
    assert_eq!(img1.get(3, 0), green);
    assert_eq!(img1.get(0, 3), green);
    for i in 0..16 {
        assert_eq!(zb1[i], zb2[i]);
    }
}

#[test]
fn degenerate_triangle_writes_nothing() {
    // Three colinear points have zero area: no pixel writes at all.
    let mut img = Image::new(4, 4);
    let mut zbuf = new_zbuffer(4, 4);
    let shader = Shader::Flat { color: Color::new(255, 255, 255, 255) };
    fill_triangle(&mut img, &mut zbuf, v(0, 0, 5), v(1, 1, 5), v(3, 3, 5), None, FX_ONE, &shader);
    for y in 0..4 {
        for x in 0..4 {
            assert_eq!(img.get(x, y), BLACK);
        }
    }
    for i in 0..16 {
        assert_eq!(zbuf[i], i64::MIN);
    }
}

#[test]
fn flat_intensity_scales_color() {
    // Half intensity halves each color channel, truncating.
    let mut img = Image::new(4, 4);
    let mut zbuf = new_zbuffer(4, 4);
    let shader = Shader::Flat { color: Color::new(201, 100, 55, 255) };
    fill_triangle(
        &mut img,
        &mut zbuf,
        v(0, 0, 5),
        v(3, 0, 5),
        v(0, 3, 5),
        None,
        FX_ONE / 2,
        &shader,
    );
    assert_eq!(img.get(0, 0), Color::new(100, 50, 27, 255));
}

#[test]
fn textured_triangle_takes_scaled_map_color() {
    // A solid-color one-texel diffuse map: every covered pixel is that
    // exact color scaled by the light intensity, with full opacity.
    let mut diffuse = Image::new(1, 1);
    diffuse.set(0, 0, Color::new(100, 150, 200, 255));
    let shader = Shader::Texture { diffuse };
    let mut img = Image::new(4, 4);
    let mut zbuf = new_zbuffer(4, 4);
    let uv = Some((v(0, 0, 0), v(0, 0, 0), v(0, 0, 0)));
    fill_triangle(
        &mut img,
        &mut zbuf,
        v(0, 0, 5),
        v(3, 0, 5),
        v(0, 3, 5),
        uv,
        FX_ONE / 2,
        &shader,
    );
    let expected = Color::new(50, 75, 100, 255);
    assert_eq!(img.get(0, 0), expected);
    assert_eq!(img.get(1, 1), expected);
    assert_eq!(img.get(3, 0), expected);
    assert_eq!(img.get(0, 3), expected);
    // A pixel beyond the hypotenuse stays untouched.
    assert_eq!(img.get(3, 3), BLACK);
    assert_eq!(zbuf[3 * 4 + 3], i64::MIN);
}

#[test]
fn normal_mapped_triangle_takes_full_light() {
    // A one-texel normal map pointing straight at a light along the
    // z axis gives full intensity: the diffuse color comes through
    // unscaled, opaque.
    let mut diffuse = Image::new(1, 1);
    diffuse.set(0, 0, Color::new(10, 20, 30, 255));
    let mut normal = Image::new(1, 1);
    // Channels decode as c * 2 / 255 - 1: blue 255 reads as one unit
    // along z; red and green 128 read as nearly zero.
    normal.set(0, 0, Color::new(128, 128, 255, 255));
    let light = Vector3::new(0, 0, FX_ONE);
    let shader = Shader::TextureNormal { diffuse, normal, light };
    let mut img = Image::new(4, 4);
    let mut zbuf = new_zbuffer(4, 4);
    let uv = Some((v(0, 0, 0), v(0, 0, 0), v(0, 0, 0)));
    fill_triangle(
        &mut img,
        &mut zbuf,
        v(0, 0, 5),
        v(3, 0, 5),
        v(0, 3, 5),
        uv,
        FX_ONE,
        &shader,
    );
    assert_eq!(img.get(0, 0), Color::new(10, 20, 30, 255));
    assert_eq!(img.get(3, 3), BLACK);
}

#[test]
fn pixel_outside_triangle_is_skipped() {
    // A barycentric weight below zero rejects the pixel.
    let mut img = Image::new(8, 8);
    let mut zbuf = new_zbuffer(8, 8);
    let shader = Shader::Flat { color: Color::new(255, 255, 255, 255) };
    fill_triangle(&mut img, &mut zbuf, v(0, 0, 5), v(4, 0, 5), v(0, 4, 5), None, FX_ONE, &shader);
    assert_eq!(img.get(2, 1), Color::new(255, 255, 255, 255));
    assert_eq!(img.get(4, 4), BLACK);
    assert_eq!(img.get(7, 7), BLACK);
}
