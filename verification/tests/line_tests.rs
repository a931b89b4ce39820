use rasterizer::image::{Color, Image};
use rasterizer::line::{draw_line, line_pixels};

#[test]
fn line_pixel_count_is_major_span() {
    // The walk yields exactly max(|dx|, |dy|) pixels.
    assert_eq!(line_pixels(13, 20, 80, 40).len(), 67);
    assert_eq!(line_pixels(20, 13, 40, 80).len(), 67);
    assert_eq!(line_pixels(0, 0, 0, 0).len(), 0);
    assert_eq!(line_pixels(5, 5, 5, 9).len(), 4);
}

#[test]
fn line_is_endpoint_order_independent() {
    let fwd = line_pixels(13, 20, 80, 40);
    let rev = line_pixels(80, 40, 13, 20);
    assert_eq!(fwd, rev);
    let steep_fwd = line_pixels(20, 13, 40, 80);
    let steep_rev = line_pixels(40, 80, 20, 13);
    assert_eq!(steep_fwd, steep_rev);
}

#[test]
fn horizontal_line_pixels() {
    let px = line_pixels(0, 0, 3, 0);
    assert_eq!(px, vec![(0, 0), (1, 0), (2, 0)]);
}

#[test]
fn diagonal_line_pixels() {
    let px = line_pixels(0, 0, 3, 3);
    assert_eq!(px, vec![(0, 0), (1, 1), (2, 2)]);
}

#[test]
fn draw_line_writes_only_its_pixels() {
    let mut img = Image::new(4, 4);
    let red = Color::new(255, 0, 0, 255);
    draw_line(&mut img, 0, 0, 3, 0, red);
    assert_eq!(img.get(0, 0), red);
    assert_eq!(img.get(1, 0), red);
    assert_eq!(img.get(2, 0), red);
    // The walk excludes the greater endpoint, and other rows stay.
    assert_eq!(img.get(3, 0), Color::new(0, 0, 0, 0));
    assert_eq!(img.get(1, 1), Color::new(0, 0, 0, 0));
}

#[test]
fn draw_line_clips_outside_pixels() {
    let mut img = Image::new(2, 2);
    let white = Color::new(255, 255, 255, 255);
    // Most of this segment lies outside the tiny raster.
    draw_line(&mut img, -3, 0, 5, 0, white);
    assert_eq!(img.get(0, 0), white);
    assert_eq!(img.get(1, 0), white);
    assert_eq!(img.get(0, 1), Color::new(0, 0, 0, 0));
}
