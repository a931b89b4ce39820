use rasterizer::image::{new_zbuffer, Color, Image};

#[test]
fn new_image_is_cleared() {
    let img = Image::new(3, 2);
    assert_eq!(img.width, 3);
    assert_eq!(img.height, 2);
    for y in 0..2 {
        for x in 0..3 {
            assert_eq!(img.get(x, y), Color::new(0, 0, 0, 0));
        }
    }
}

#[test]
fn set_then_get_round_trips() {
    let mut img = Image::new(4, 4);
    let c = Color::new(1, 2, 3, 4);
    img.set(2, 1, c);
    assert_eq!(img.get(2, 1), c);
    assert_eq!(img.get(1, 2), Color::new(0, 0, 0, 0));
}

#[test]
fn flip_vertical_reverses_rows() {
    let mut img = Image::new(2, 3);
    img.set(0, 0, Color::new(10, 0, 0, 255));
    img.set(1, 2, Color::new(0, 20, 0, 255));
    img.flip_vertical();
    assert_eq!(img.get(0, 2), Color::new(10, 0, 0, 255));
    assert_eq!(img.get(1, 0), Color::new(0, 20, 0, 255));
    assert_eq!(img.get(0, 0), Color::new(0, 0, 0, 0));
}

#[test]
fn flip_vertical_twice_restores() {
    let mut img = Image::new(3, 3);
    img.set(1, 0, Color::new(9, 9, 9, 9));
    img.flip_vertical();
    img.flip_vertical();
    assert_eq!(img.get(1, 0), Color::new(9, 9, 9, 9));
}

#[test]
fn zbuffer_starts_below_every_depth() {
    let z = new_zbuffer(4, 2);
    assert_eq!(z.len(), 8);
    for i in 0..8 {
        assert_eq!(z[i], i64::MIN);
    }
}
