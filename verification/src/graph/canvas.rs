use vstd::prelude::*;

use crate::color::GraphColor;
use crate::graph::pixels::Pixels;

verus! {

/// An RGBA image, row after row.
#[derive(Debug)]
pub struct Canvas {
    width: u32,
    height: u32,
    pixels: Vec<GraphColor>,
}

/// `(x, y)` lies in a `w` x `h` image.
pub open spec fn in_bounds(w: int, h: int, x: int, y: int) -> bool {
    0 <= x < w && 0 <= y < h
}

/// A position of `set` lands on `(x, y)` once moved right by `xo`.
pub open spec fn hits(set: Set<(i32, i32)>, xo: int, x: int, y: int) -> bool {
    exists|p: (i32, i32)| #[trigger] set.contains(p) && p.0 + xo == x && p.1 == y
}

proof fn lemma_index(w: int, h: int, x: int, y: int, a: int, b: int)
    requires
        0 <= x < w,
        0 <= a < w,
        0 <= y < h,
        0 <= b < h,
    ensures
        0 <= y * w + x < w * h,
        (y * w + x == b * w + a) ==> (x == a && y == b),
{
    assert(0 <= y * w + x < w * h) by (nonlinear_arith)
        requires
            0 <= x < w,
            0 <= y < h,
    ;
    if y < b {
        assert(y * w + x < b * w + a) by (nonlinear_arith)
            requires
                0 <= x < w,
                0 <= a,
                y < b,
        ;
    } else if b < y {
        assert(b * w + a < y * w + x) by (nonlinear_arith)
            requires
                0 <= a < w,
                0 <= x,
                b < y,
        ;
    }
}

impl Canvas {
    pub closed spec fn w(&self) -> int {
        self.width as int
    }

    pub closed spec fn h(&self) -> int {
        self.height as int
    }

    /// The colour at `(x, y)`.
    pub closed spec fn at(&self, x: int, y: int) -> GraphColor {
        self.pixels@[y * self.width + x]
    }

    /// One colour per position.
    pub closed spec fn wf(&self) -> bool {
        self.pixels@.len() == self.width * self.height
    }

    /// A transparent image of `width` x `height` pixels.
    pub fn new(width: u32, height: u32) -> (c: Canvas)
        requires
            width * height <= usize::MAX,
        ensures
            c.wf(),
            c.w() == width,
            c.h() == height,
            forall|x: int, y: int| in_bounds(width as int, height as int, x, y) ==> #[trigger] c.at(x, y)
                == GraphColor::clear_color(),
    {
        let n = (width as usize) * (height as usize);
        let mut pixels: Vec<GraphColor> = Vec::new();
        let t = GraphColor::transparent();
        let mut i: usize = 0;
        while i < n
            invariant
                i <= n,
                pixels@.len() == i,
                forall|k: int| 0 <= k < i ==> #[trigger] pixels@[k] == t,
            decreases n - i,
        {
            pixels.push(t);
            i += 1;
        }
        let c = Canvas { width, height, pixels };
        proof {
            assert forall|x: int, y: int| in_bounds(width as int, height as int, x, y) implies #[trigger] c.at(x, y)
                == GraphColor::clear_color() by {
                lemma_index(width as int, height as int, x, y, x, y);
            }
        }
        c
    }

    pub fn width(&self) -> (r: u32)
        ensures
            r == self.w(),
    {
        self.width
    }

    pub fn height(&self) -> (r: u32)
        ensures
            r == self.h(),
    {
        self.height
    }

    /// Paints `(x, y)` with `c`; a position outside the image is left alone.
    pub fn set_pixel(&mut self, x: i64, y: i64, c: GraphColor)
        requires
            old(self).wf(),
        ensures
            final(self).wf(),
            final(self).w() == old(self).w(),
            final(self).h() == old(self).h(),
            forall|a: int, b: int| in_bounds(old(self).w(), old(self).h(), a, b) ==> #[trigger] final(self).at(a, b) == (
            if a == x && b == y {
                c
            } else {
                old(self).at(a, b)
            }),
    {
        if 0 <= x && x < self.width as i64 && 0 <= y && y < self.height as i64 {
            let len = self.pixels.len();
            proof {
                lemma_index(self.width as int, self.height as int, x as int, y as int, x as int, y as int);
                assert((y as usize) * (self.width as usize) + (x as usize) < len);
            }
            let idx = (y as usize) * (self.width as usize) + (x as usize);
            let ghost before = *self;
            self.pixels.set(idx, c);
            proof {
                assert forall|a: int, b: int| in_bounds(before.w(), before.h(), a, b) implies #[trigger] self.at(a, b) == (
                if a == x && b == y {
                    c
                } else {
                    before.at(a, b)
                }) by {
                    lemma_index(before.w(), before.h(), x as int, y as int, a, b);
                    lemma_index(before.w(), before.h(), a, b, a, b);
                }
            }
        }
    }

    /// Paints every position with `c`.
    pub fn fill(&mut self, c: GraphColor)
        requires
            old(self).wf(),
        ensures
            final(self).wf(),
            final(self).w() == old(self).w(),
            final(self).h() == old(self).h(),
            forall|a: int, b: int| in_bounds(old(self).w(), old(self).h(), a, b) ==> #[trigger] final(self).at(a, b) == c,
    {
        let n = self.pixels.len();
        let ghost w0 = self.width;
        let ghost h0 = self.height;
        let mut i: usize = 0;
        while i < n
            invariant
                i <= n,
                n == self.pixels@.len(),
                self.wf(),
                self.width == w0,
                self.height == h0,
                forall|k: int| 0 <= k < i ==> #[trigger] self.pixels@[k] == c,
            decreases n - i,
        {
            self.pixels.set(i, c);
            i += 1;
        }
        proof {
            assert forall|a: int, b: int| in_bounds(self.w(), self.h(), a, b) implies #[trigger] self.at(a, b) == c by {
                lemma_index(self.w(), self.h(), a, b, a, b);
            }
        }
    }

    /// Paints with `c` each position of `pixels` moved right by `x_offset`,
    /// as far as it falls inside the image.
    pub fn draw_pixels(&mut self, pixels: &Pixels, x_offset: i64, c: GraphColor)
        requires
            old(self).wf(),
            -0x1_0000_0000 <= x_offset <= 0x1_0000_0000,
        ensures
            final(self).wf(),
            final(self).w() == old(self).w(),
            final(self).h() == old(self).h(),
            forall|a: int, b: int| in_bounds(old(self).w(), old(self).h(), a, b) ==> #[trigger] final(self).at(a, b) == (
            if hits(pixels.set(), x_offset as int, a, b) {
                c
            } else {
                old(self).at(a, b)
            }),
    {
        let pts = pixels.points();
        let ghost before = *self;
        let mut i: usize = 0;
        while i < pts.len()
            invariant
                i <= pts@.len(),
                self.wf(),
                self.w() == before.w(),
                self.h() == before.h(),
                -0x1_0000_0000 <= x_offset <= 0x1_0000_0000,
                forall|a: int, b: int| in_bounds(before.w(), before.h(), a, b) ==> #[trigger] self.at(a, b) == (
                if exists|k: int| 0 <= k < i && pts@[k].0 + x_offset == a && pts@[k].1 == b {
                    c
                } else {
                    before.at(a, b)
                }),
            decreases pts@.len() - i,
        {
            let p = pts[i];
            self.set_pixel(p.0 as i64 + x_offset, p.1 as i64, c);
            i += 1;
        }
        proof {
            assert forall|a: int, b: int| in_bounds(before.w(), before.h(), a, b) implies #[trigger] self.at(a, b) == (
            if hits(pixels.set(), x_offset as int, a, b) {
                c
            } else {
                before.at(a, b)
            }) by {
                if hits(pixels.set(), x_offset as int, a, b) {
                    let p = choose|p: (i32, i32)| #[trigger] pixels.set().contains(p) && p.0 + x_offset == a && p.1 == b;
                    let k = choose|k: int| 0 <= k < pts@.len() && pts@[k] == p;
                    assert(pts@[k].0 + x_offset == a && pts@[k].1 == b);
                }
                if exists|k: int| 0 <= k < i && pts@[k].0 + x_offset == a && pts@[k].1 == b {
                    let k = choose|k: int| 0 <= k < i && pts@[k].0 + x_offset == a && pts@[k].1 == b;
                    assert(pts@.to_set().contains(pts@[k]));
                    assert(pixels.set().contains(pts@[k]));
                }
            }
        }
    }
}

/// The RGBA bytes of the colours, one colour after the other.
pub open spec fn rgba_bytes(px: Seq<GraphColor>) -> Seq<u8>
    decreases px.len(),
{
    if px.len() == 0 {
        Seq::empty()
    } else {
        let c = px.last().rgba();
        rgba_bytes(px.drop_last()) + seq![c.0, c.1, c.2, c.3]
    }
}

proof fn lemma_rgba_bytes_len(px: Seq<GraphColor>)
    ensures
        rgba_bytes(px).len() == 4 * px.len(),
    decreases px.len(),
{
    if px.len() > 0 {
        lemma_rgba_bytes_len(px.drop_last());
    }
}

impl Canvas {
    /// The colours row after row.
    pub closed spec fn colors(&self) -> Seq<GraphColor> {
        self.pixels@
    }

    /// Where a position lies among the colours.
    pub proof fn lemma_at(&self, x: int, y: int)
        requires
            self.wf(),
            in_bounds(self.w(), self.h(), x, y),
        ensures
            self.at(x, y) == self.colors()[y * self.w() + x],
            0 <= y * self.w() + x < self.colors().len(),
            self.colors().len() == self.w() * self.h(),
    {
        lemma_index(self.w(), self.h(), x, y, x, y);
    }

    /// The RGBA bytes of the image, row after row.
    pub fn to_rgba_bytes(&self) -> (r: Vec<u8>)
        requires
            self.wf(),
            4 * self.colors().len() <= usize::MAX,
        ensures
            r@ == rgba_bytes(self.colors()),
            r@.len() == 4 * self.colors().len(),
    {
        let mut r: Vec<u8> = Vec::new();
        let mut i: usize = 0;
        while i < self.pixels.len()
            invariant
                i <= self.pixels@.len(),
                r@ == rgba_bytes(self.pixels@.take(i as int)),
            decreases self.pixels@.len() - i,
        {
            let px = self.pixels[i].to_image_color();
            r.push(px[0]);
            r.push(px[1]);
            r.push(px[2]);
            r.push(px[3]);
            proof {
                assert(self.pixels@.take(i + 1).drop_last() == self.pixels@.take(i as int));
                assert(r@ =~= rgba_bytes(self.pixels@.take(i + 1)));
            }
            i += 1;
        }
        proof {
            assert(self.pixels@.take(i as int) == self.pixels@);
            lemma_rgba_bytes_len(self.pixels@);
        }
        r
    }
}

} // verus!
