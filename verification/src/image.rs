//! The owned raster image: a dense buffer of four-channel colors with
//! get, set and vertical flip, and the z-buffer a render pass owns.

use vstd::prelude::*;

verus! {

/// Largest image side length the rasterizer accepts.
pub const MAX_DIM: usize = 16384;

/// A four-channel color; each channel lies in 0..=255.
#[derive(Debug, Clone, Copy, PartialEq, Eq, Structural)]
pub struct Color {
    pub r: u8,
    pub g: u8,
    pub b: u8,
    pub a: u8,
}

impl Color {
    pub fn new(r: u8, g: u8, b: u8, a: u8) -> (c: Color)
        ensures
            c == (Color { r, g, b, a }),
    {
        Color { r, g, b, a }
    }
}

/// A dense raster of colors in row-major order.
pub struct Image {
    pub width: usize,
    pub height: usize,
    pub data: Vec<Color>,
}

impl Image {
    /// The buffer holds one color for each pixel of the raster.
    pub open spec fn wf(self) -> bool {
        &&& self.data.len() == self.width * self.height
        &&& self.width <= MAX_DIM
        &&& self.height <= MAX_DIM
    }

    /// A fresh image with every pixel fully transparent black.
    pub fn new(width: usize, height: usize) -> (img: Image)
        requires
            width <= MAX_DIM,
            height <= MAX_DIM,
        ensures
            img.wf(),
            img.width == width,
            img.height == height,
            forall|i: int|
                0 <= i < width * height ==> img.data@[i] == (Color { r: 0, g: 0, b: 0, a: 0 }),
    {
        proof {
            assert(width * height <= MAX_DIM * MAX_DIM) by (nonlinear_arith)
                requires
                    width <= MAX_DIM,
                    height <= MAX_DIM,
            ;
        }
        let n: usize = width * height;
        let mut data: Vec<Color> = Vec::new();
        let mut i: usize = 0;
        while i < n
            invariant
                i <= n,
                data.len() == i,
                forall|j: int| 0 <= j < i ==> data@[j] == (Color { r: 0, g: 0, b: 0, a: 0 }),
            decreases n - i,
        {
            data.push(Color { r: 0, g: 0, b: 0, a: 0 });
            i = i + 1;
        }
        Image { width, height, data }
    }

    /// The color at a pixel.
    pub fn get(&self, x: usize, y: usize) -> (c: Color)
        requires
            self.wf(),
            x < self.width,
            y < self.height,
        ensures
            c == self.data@[y * self.width + x],
    {
        proof {
            lemma_row_major_index(self.width as int, self.height as int, x as int, y as int);
        }
        self.data[y * self.width + x]
    }

    /// Writes the color at a pixel.
    pub fn set(&mut self, x: usize, y: usize, c: Color)
        requires
            old(self).wf(),
            x < old(self).width,
            y < old(self).height,
        ensures
            final(self).wf(),
            final(self).width == old(self).width,
            final(self).height == old(self).height,
            final(self).data@ == old(self).data@.update(y * old(self).width + x, c),
    {
        proof {
            lemma_row_major_index(self.width as int, self.height as int, x as int, y as int);
        }
        let i: usize = y * self.width + x;
        self.data[i] = c;
    }

    /// Reverses the order of the rows.
    pub fn flip_vertical(&mut self)
        requires
            old(self).wf(),
        ensures
            final(self).wf(),
            final(self).width == old(self).width,
            final(self).height == old(self).height,
            forall|x: int, y: int|
                0 <= x < old(self).width && 0 <= y < old(self).height ==> #[trigger] pixel_at(
                    *final(self),
                    x,
                    y,
                ) == pixel_at(*old(self), x, old(self).height - 1 - y),
    {
        let w = self.width;
        let h = self.height;
        if h == 0 {
            return ;
        }
        let mut y: usize = 0;
        while y < h / 2
            invariant
                self.wf(),
                self.width == w,
                self.height == h,
                h >= 1,
                y <= h / 2,
                2 * (h / 2) <= h,
                forall|xx: int, yy: int|
                    0 <= xx < w && y <= yy < h - y ==> #[trigger] pixel_at(*self, xx, yy)
                        == pixel_at(*old(self), xx, yy),
                forall|xx: int, yy: int|
                    0 <= xx < w && (0 <= yy < y || h - y <= yy < h) ==> #[trigger] pixel_at(
                        *self,
                        xx,
                        yy,
                    ) == pixel_at(*old(self), xx, h - 1 - yy),
            decreases h / 2 - y,
        {
            proof {
                vstd::arithmetic::div_mod::lemma_fundamental_div_mod(h as int, 2);
            }
            let mut x: usize = 0;
            let y2: usize = h - 1 - y;
            while x < w
                invariant
                    self.wf(),
                    self.width == w,
                    self.height == h,
                    y < h / 2,
                    2 * (h / 2) <= h,
                    y2 == h - 1 - y,
                    x <= w,
                    forall|xx: int, yy: int|
                        0 <= xx < w && y < yy < h - 1 - y ==> #[trigger] pixel_at(*self, xx, yy)
                            == pixel_at(*old(self), xx, yy),
                    forall|xx: int|
                        x <= xx < w ==> #[trigger] pixel_at(*self, xx, y as int) == pixel_at(
                            *old(self),
                            xx,
                            y as int,
                        ),
                    forall|xx: int|
                        x <= xx < w ==> #[trigger] pixel_at(*self, xx, y2 as int) == pixel_at(
                            *old(self),
                            xx,
                            y2 as int,
                        ),
                    forall|xx: int|
                        0 <= xx < x ==> #[trigger] pixel_at(*self, xx, y as int) == pixel_at(
                            *old(self),
                            xx,
                            y2 as int,
                        ),
                    forall|xx: int|
                        0 <= xx < x ==> #[trigger] pixel_at(*self, xx, y2 as int) == pixel_at(
                            *old(self),
                            xx,
                            y as int,
                        ),
                    forall|xx: int, yy: int|
                        0 <= xx < w && (0 <= yy < y || h - y <= yy < h) ==> #[trigger] pixel_at(
                            *self,
                            xx,
                            yy,
                        ) == pixel_at(*old(self), xx, h - 1 - yy),
                decreases w - x,
            {
                proof {
                    lemma_row_major_index(w as int, h as int, x as int, y as int);
                    lemma_row_major_index(w as int, h as int, x as int, y2 as int);
                    lemma_row_major_distinct(w as int, x as int, y as int, x as int, y2 as int);
                }
                let ghost prev: Image = *self;
                let ia: usize = y * w + x;
                let ib: usize = y2 * w + x;
                let ca: Color = self.data[ia];
                let cb: Color = self.data[ib];
                self.data[ia] = cb;
                self.data[ib] = ca;
                proof {
                    assert forall|xx: int, yy: int| #![trigger pixel_at(*self, xx, yy)]
                        0 <= xx < w && 0 <= yy < h && !(xx == x && yy == y) && !(xx == x && yy
                            == y2) implies pixel_at(*self, xx, yy) == pixel_at(prev, xx, yy) by {
                        lemma_row_major_index(w as int, h as int, xx, yy);
                        lemma_row_major_distinct(w as int, xx, yy, x as int, y as int);
                        lemma_row_major_distinct(w as int, xx, yy, x as int, y2 as int);
                    }
                    assert(pixel_at(*self, x as int, y as int) == pixel_at(prev, x as int, y2 as int));
                    assert(pixel_at(*self, x as int, y2 as int) == pixel_at(prev, x as int, y as int));
                }
                x = x + 1;
            }
            y = y + 1;
        }
        proof {
            vstd::arithmetic::div_mod::lemma_fundamental_div_mod(h as int, 2);
            assert forall|x: int, y: int| 0 <= x < w && 0 <= y < h implies #[trigger] pixel_at(
                *self,
                x,
                y,
            ) == pixel_at(*old(self), x, h - 1 - y) by {
                if y <= y < h - y {
                }
            }
        }
    }
}

/// The color a raster holds at a pixel.
pub open spec fn pixel_at(img: Image, x: int, y: int) -> Color {
    img.data@[y * img.width + x]
}

/// A row-major pixel index lies inside the buffer.
pub proof fn lemma_row_major_index(w: int, h: int, x: int, y: int)
    requires
        0 <= x < w,
        0 <= y < h,
    ensures
        0 <= y * w + x < w * h,
{
    assert(y * w + x < w * h) by (nonlinear_arith)
        requires
            0 <= x < w,
            0 <= y < h,
    ;
    assert(y * w >= 0) by (nonlinear_arith)
        requires
            y >= 0,
            w > 0,
    ;
}

/// Distinct pixels have distinct row-major indices.
pub proof fn lemma_row_major_distinct(w: int, x1: int, y1: int, x2: int, y2: int)
    requires
        0 <= x1 < w,
        0 <= x2 < w,
        y1 >= 0,
        y2 >= 0,
        (x1, y1) != (x2, y2),
    ensures
        y1 * w + x1 != y2 * w + x2,
{
    assert(y1 * w + x1 != y2 * w + x2) by (nonlinear_arith)
        requires
            0 <= x1 < w,
            0 <= x2 < w,
            y1 >= 0,
            y2 >= 0,
            y1 != y2 || x1 != x2,
    ;
}

/// A fresh z-buffer, with every entry at the sentinel below every
/// representable depth.
pub fn new_zbuffer(width: usize, height: usize) -> (z: Vec<i64>)
    requires
        width <= MAX_DIM,
        height <= MAX_DIM,
    ensures
        z.len() == width * height,
        forall|i: int| 0 <= i < width * height ==> z@[i] == i64::MIN,
{
    proof {
        assert(width * height <= MAX_DIM * MAX_DIM) by (nonlinear_arith)
            requires
                width <= MAX_DIM,
                height <= MAX_DIM,
        ;
    }
    let n: usize = width * height;
    let mut z: Vec<i64> = Vec::new();
    let mut i: usize = 0;
    while i < n
        invariant
            i <= n,
            z.len() == i,
            forall|j: int| 0 <= j < i ==> z@[j] == i64::MIN,
        decreases n - i,
    {
        z.push(i64::MIN);
        i = i + 1;
    }
    z
}

} // verus!
