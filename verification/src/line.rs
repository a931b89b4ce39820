//! The Bresenham line rasterizer: the pixels of a segment, by integer
//! error accumulation, and the drawing of those pixels into an image.

use vstd::prelude::*;
use crate::image::{Color, Image, pixel_at, lemma_row_major_index};

verus! {

/// Largest magnitude a line endpoint coordinate may have.
pub const LINE_MAX: i32 = 0x10_0000;

/// The pixels of one walk step and all that follow it: at each step
/// the error grows by `derror2`, and the minor coordinate advances by
/// `sy` when the error passes `dx`.
pub open spec fn walk(
    n: nat,
    x: int,
    y: int,
    err: int,
    dx: int,
    derror2: int,
    sy: int,
    steep: bool,
) -> Seq<(i32, i32)>
    decreases n,
{
    if n == 0 {
        Seq::empty()
    } else {
        let p = if steep {
            (y as i32, x as i32)
        } else {
            (x as i32, y as i32)
        };
        let e2 = err + derror2;
        if e2 > dx {
            seq![p] + walk((n - 1) as nat, x + 1, y + sy, e2 - 2 * dx, dx, derror2, sy, steep)
        } else {
            seq![p] + walk((n - 1) as nat, x + 1, y, e2, dx, derror2, sy, steep)
        }
    }
}

/// The magnitude of an integer.
pub open spec fn abs(v: int) -> int {
    if v >= 0 {
        v
    } else {
        -v
    }
}

/// Whether a segment is steep: taller than it is wide.
pub open spec fn line_steep(x0: int, y0: int, x1: int, y1: int) -> bool {
    abs(x0 - x1) < abs(y0 - y1)
}

/// The pixels of a segment between two endpoints, in walk order. The
/// walk covers the major coordinate from its lesser endpoint inclusive
/// to its greater endpoint exclusive.
pub open spec fn line_seq(x0: int, y0: int, x1: int, y1: int) -> Seq<(i32, i32)> {
    let st = line_steep(x0, y0, x1, y1);
    let a0 = if st { y0 } else { x0 };
    let b0 = if st { x0 } else { y0 };
    let a1 = if st { y1 } else { x1 };
    let b1 = if st { x1 } else { y1 };
    let c0 = if a0 > a1 { a1 } else { a0 };
    let d0 = if a0 > a1 { b1 } else { b0 };
    let c1 = if a0 > a1 { a0 } else { a1 };
    let d1 = if a0 > a1 { b0 } else { b1 };
    let dx = c1 - c0;
    let derror2 = 2 * abs(d1 - d0);
    let sy = if d1 > d0 {
        1int
    } else {
        -1int
    };
    walk(dx as nat, c0, d0, 0, dx, derror2, sy, st)
}

/// A walk of `n` steps yields exactly `n` pixels.
pub proof fn lemma_walk_len(
    n: nat,
    x: int,
    y: int,
    err: int,
    dx: int,
    derror2: int,
    sy: int,
    steep: bool,
)
    ensures
        walk(n, x, y, err, dx, derror2, sy, steep).len() == n,
    decreases n,
{
    if n > 0 {
        let e2 = err + derror2;
        if e2 > dx {
            lemma_walk_len((n - 1) as nat, x + 1, y + sy, e2 - 2 * dx, dx, derror2, sy, steep);
        } else {
            lemma_walk_len((n - 1) as nat, x + 1, y, e2, dx, derror2, sy, steep);
        }
    }
}

/// The line rasterizer yields exactly `max(|dx|, |dy|)` pixels, and
/// yields the same pixels, in the same order, whichever endpoint comes
/// first.
pub proof fn lemma_line_symmetric(x0: int, y0: int, x1: int, y1: int)
    ensures
        line_seq(x0, y0, x1, y1) == line_seq(x1, y1, x0, y0),
        line_seq(x0, y0, x1, y1).len() == if abs(x0 - x1) >= abs(y0 - y1) {
            abs(x0 - x1)
        } else {
            abs(y0 - y1)
        },
{
    let st = line_steep(x0, y0, x1, y1);
    let a0 = if st { y0 } else { x0 };
    let b0 = if st { x0 } else { y0 };
    let a1 = if st { y1 } else { x1 };
    let b1 = if st { x1 } else { y1 };
    if a0 == a1 {
        assert(walk(0, a0, b0, 0, 0, 2 * abs(b1 - b0), if b1 > b0 { 1int } else { -1int }, st)
            == Seq::<(i32, i32)>::empty());
        assert(walk(0, a1, b1, 0, 0, 2 * abs(b0 - b1), if b0 > b1 { 1int } else { -1int }, st)
            == Seq::<(i32, i32)>::empty());
    } else {
        let c0 = if a0 > a1 { a1 } else { a0 };
        let d0 = if a0 > a1 { b1 } else { b0 };
        let c1 = if a0 > a1 { a0 } else { a1 };
        let d1 = if a0 > a1 { b0 } else { b1 };
        lemma_walk_len(
            (c1 - c0) as nat,
            c0,
            d0,
            0,
            c1 - c0,
            2 * abs(d1 - d0),
            if d1 > d0 { 1int } else { -1int },
            st,
        );
    }
}

/// Computes the pixels of the segment between two endpoints.
pub fn line_pixels(x0: i32, y0: i32, x1: i32, y1: i32) -> (r: Vec<(i32, i32)>)
    requires
        -LINE_MAX <= x0 <= LINE_MAX,
        -LINE_MAX <= y0 <= LINE_MAX,
        -LINE_MAX <= x1 <= LINE_MAX,
        -LINE_MAX <= y1 <= LINE_MAX,
    ensures
        r@ == line_seq(x0 as int, y0 as int, x1 as int, y1 as int),
        r@.len() == if abs(x0 - x1) >= abs(y0 - y1) {
            abs(x0 - x1)
        } else {
            abs(y0 - y1)
        },
{
    let adx: i32 = if x0 >= x1 {
        x0 - x1
    } else {
        x1 - x0
    };
    let ady: i32 = if y0 >= y1 {
        y0 - y1
    } else {
        y1 - y0
    };
    let steep: bool = adx < ady;
    let (ta0, tb0, ta1, tb1): (i32, i32, i32, i32) = if steep {
        (y0, x0, y1, x1)
    } else {
        (x0, y0, x1, y1)
    };
    let (c0, d0, c1, d1): (i32, i32, i32, i32) = if ta0 > ta1 {
        (ta1, tb1, ta0, tb0)
    } else {
        (ta0, tb0, ta1, tb1)
    };
    let dx: i64 = (c1 as i64) - (c0 as i64);
    let dyabs: i64 = if d1 >= d0 {
        (d1 as i64) - (d0 as i64)
    } else {
        (d0 as i64) - (d1 as i64)
    };
    let derror2: i64 = 2 * dyabs;
    let sy: i32 = if d1 > d0 {
        1
    } else {
        -1
    };
    let ghost gseq = line_seq(x0 as int, y0 as int, x1 as int, y1 as int);
    proof {
        lemma_line_symmetric(x0 as int, y0 as int, x1 as int, y1 as int);
        assert(gseq == walk(
            dx as nat,
            c0 as int,
            d0 as int,
            0,
            dx as int,
            derror2 as int,
            sy as int,
            steep,
        ));
    }
    proof {
        assert(0 <= dyabs && dyabs <= dx);
    }
    let mut r: Vec<(i32, i32)> = Vec::new();
    let mut x: i32 = c0;
    let mut y: i32 = d0;
    let mut err: i64 = 0;
    while x < c1
        invariant
            c0 <= x <= c1,
            dx == c1 - c0,
            -LINE_MAX <= c0 <= LINE_MAX,
            -LINE_MAX <= c1 <= LINE_MAX,
            -LINE_MAX <= d0 <= LINE_MAX,
            d0 - (x - c0) <= y <= d0 + (x - c0),
            sy == 1 || sy == -1,
            derror2 == 2 * dyabs,
            0 <= dyabs <= dx,
            -dx <= err <= dx,
            r@.len() == x - c0,
            gseq == r@ + walk(
                (c1 - x) as nat,
                x as int,
                y as int,
                err as int,
                dx as int,
                derror2 as int,
                sy as int,
                steep,
            ),
        decreases c1 - x,
    {
        let p: (i32, i32) = if steep {
            (y, x)
        } else {
            (x, y)
        };
        r.push(p);
        let e2: i64 = err + derror2;
        if e2 > dx {
            y = y + sy;
            err = e2 - 2 * dx;
        } else {
            err = e2;
        }
        x = x + 1;
    }
    proof {
        assert(walk(0, x as int, y as int, err as int, dx as int, derror2 as int, sy as int, steep)
            == Seq::<(i32, i32)>::empty());
        assert(gseq == r@);
    }
    r
}

/// Draws the segment between two endpoints into the image: every line
/// pixel that lies inside the raster takes the given color, and every
/// other pixel keeps its color.
pub fn draw_line(img: &mut Image, x0: i32, y0: i32, x1: i32, y1: i32, color: Color)
    requires
        old(img).wf(),
        -LINE_MAX <= x0 <= LINE_MAX,
        -LINE_MAX <= y0 <= LINE_MAX,
        -LINE_MAX <= x1 <= LINE_MAX,
        -LINE_MAX <= y1 <= LINE_MAX,
    ensures
        final(img).wf(),
        final(img).width == old(img).width,
        final(img).height == old(img).height,
        forall|px: int, py: int|
            0 <= px < old(img).width && 0 <= py < old(img).height ==> #[trigger] pixel_at(
                *final(img),
                px,
                py,
            ) == if line_seq(x0 as int, y0 as int, x1 as int, y1 as int).contains(
                (px as i32, py as i32),
            ) {
                color
            } else {
                pixel_at(*old(img), px, py)
            },
{
    let pixels: Vec<(i32, i32)> = line_pixels(x0, y0, x1, y1);
    let ghost gseq = line_seq(x0 as int, y0 as int, x1 as int, y1 as int);
    let n: usize = pixels.len();
    let mut i: usize = 0;
    while i < n
        invariant
            img.wf(),
            img.width == old(img).width,
            img.height == old(img).height,
            n == pixels.len(),
            i <= n,
            pixels@ == gseq,
            forall|px: int, py: int|
                0 <= px < old(img).width && 0 <= py < old(img).height ==> #[trigger] pixel_at(
                    *img,
                    px,
                    py,
                ) == if gseq.subrange(0, i as int).contains((px as i32, py as i32)) {
                    color
                } else {
                    pixel_at(*old(img), px, py)
                },
        decreases n - i,
    {
        let p: (i32, i32) = pixels[i];
        let ghost prev: Image = *img;
        if p.0 >= 0 && (p.0 as usize) < img.width && p.1 >= 0 && (p.1 as usize) < img.height {
            let px: usize = p.0 as usize;
            let py: usize = p.1 as usize;
            img.set(px, py, color);
            proof {
                lemma_row_major_index(
                    img.width as int,
                    img.height as int,
                    px as int,
                    py as int,
                );
            }
        }
        proof {
            assert(gseq.subrange(0, i + 1) =~= gseq.subrange(0, i as int).push(p));
            assert forall|px: int, py: int|
                0 <= px < old(img).width && 0 <= py < old(img).height implies #[trigger] pixel_at(
                *img,
                px,
                py,
            ) == if gseq.subrange(0, i + 1).contains((px as i32, py as i32)) {
                color
            } else {
                pixel_at(*old(img), px, py)
            } by {
                let q = (px as i32, py as i32);
                let pre = gseq.subrange(0, i as int);
                let post = gseq.subrange(0, i + 1);
                assert(q.0 as int == px && q.1 as int == py);
                assert(post.contains(q) <==> (pre.contains(q) || q == p)) by {
                    if post.contains(q) {
                        let j = choose|j: int| 0 <= j < post.len() && post[j] == q;
                        if j < pre.len() {
                            assert(pre[j] == q);
                        }
                    }
                    if pre.contains(q) {
                        let j = choose|j: int| 0 <= j < pre.len() && pre[j] == q;
                        assert(post[j] == q);
                    }
                    if q == p {
                        assert(post[post.len() - 1] == q);
                    }
                }
                if 0 <= p.0 && (p.0 as int) < img.width && 0 <= p.1 && (p.1 as int) < img.height {
                    lemma_row_major_index(img.width as int, img.height as int, px, py);
                    lemma_row_major_index(
                        img.width as int,
                        img.height as int,
                        p.0 as int,
                        p.1 as int,
                    );
                    if q != p {
                        crate::image::lemma_row_major_distinct(
                            img.width as int,
                            px,
                            py,
                            p.0 as int,
                            p.1 as int,
                        );
                        assert(pixel_at(*img, px, py) == pixel_at(prev, px, py));
                    }
                } else {
                    assert(pixel_at(*img, px, py) == pixel_at(prev, px, py));
                    assert(q != p);
                }
            }
        }
        i = i + 1;
    }
    proof {
        assert(gseq.subrange(0, n as int) == gseq);
    }
}

} // verus!
