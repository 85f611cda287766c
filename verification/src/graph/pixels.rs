use vstd::prelude::*;

use crate::graph::image::ImageParams;

verus! {

/// A set of pixel positions `(x, y)`, each held once.
#[derive(Debug)]
pub struct Pixels {
    points: Vec<(i32, i32)>,
}

impl Pixels {
    /// The positions held.
    pub closed spec fn set(&self) -> Set<(i32, i32)> {
        self.points@.to_set()
    }

    /// No position is held twice.
    pub closed spec fn wf(&self) -> bool {
        self.points@.no_duplicates()
    }

    pub fn new() -> (p: Pixels)
        ensures
            p.wf(),
            p.set() == Set::<(i32, i32)>::empty(),
    {
        let p = Pixels { points: Vec::new() };
        proof {
            assert(p.points@.to_set() =~= Set::<(i32, i32)>::empty());
        }
        p
    }

    /// Whether `q` is held.
    pub fn contains(&self, q: (i32, i32)) -> (r: bool)
        ensures
            r == self.set().contains(q),
    {
        let mut i: usize = 0;
        while i < self.points.len()
            invariant
                i <= self.points@.len(),
                forall|j: int| 0 <= j < i ==> self.points@[j] != q,
            decreases self.points@.len() - i,
        {
            if self.points[i].0 == q.0 && self.points[i].1 == q.1 {
                proof {
                    assert(self.points@.to_set().contains(self.points@[i as int]));
                }
                return true;
            }
            i += 1;
        }
        proof {
            if self.points@.to_set().contains(q) {
                let j = choose|j: int| 0 <= j < self.points@.len() && self.points@[j] == q;
                assert(false);
            }
        }
        false
    }

    /// Adds `q`.
    pub fn insert(&mut self, q: (i32, i32))
        requires
            old(self).wf(),
        ensures
            final(self).wf(),
            final(self).set() == old(self).set().insert(q),
    {
        if !self.contains(q) {
            let ghost before = self.points@;
            self.points.push(q);
            proof {
                assert forall|a: int, b: int| 0 <= a < b < self.points@.len() implies self.points@[a] != self.points@[b] by {
                    if b == self.points@.len() - 1 {
                        assert(before.to_set().contains(before[a]));
                    } else {
                        assert(before[a] != before[b]);
                    }
                }
                assert forall|x: (i32, i32)| self.points@.to_set().contains(x) <==> before.to_set().insert(q).contains(x) by {
                    if self.points@.to_set().contains(x) {
                        let j = choose|j: int| 0 <= j < self.points@.len() && self.points@[j] == x;
                        if j < before.len() {
                            assert(before[j] == x);
                        }
                    }
                    if before.to_set().contains(x) {
                        let j = choose|j: int| 0 <= j < before.len() && before[j] == x;
                        assert(self.points@[j] == x);
                    }
                    if x == q {
                        assert(self.points@[before.len() as int] == q);
                    }
                }
                assert(self.points@.to_set() =~= before.to_set().insert(q));
            }
        } else {
            proof {
                assert(self.set().insert(q) =~= self.set());
            }
        }
    }

    /// The positions, each once.
    pub fn points(&self) -> (r: &Vec<(i32, i32)>)
        ensures
            r@.to_set() == self.set(),
            self.wf() ==> r@.no_duplicates(),
    {
        &self.points
    }

    /// The number of positions.
    pub fn len(&self) -> (n: usize)
        requires
            self.wf(),
        ensures
            n == self.set().len(),
    {
        proof {
            self.points@.unique_seq_to_set();
        }
        self.points.len()
    }
}

/// The positions `(x, row)` for `x` from `cx - half` to `cx + half`.
pub open spec fn row_span(cx: int, row: int, half: int) -> Set<(i32, i32)> {
    Set::new(|q: (i32, i32)| q.1 == row && cx - half <= q.0 <= cx + half)
}

/// The positions of the rectangle with columns `x0 .. x1` and rows
/// `y0 .. y1` (ends excluded).
pub open spec fn rect(x0: int, x1: int, y0: int, y1: int) -> Set<(i32, i32)> {
    Set::new(|q: (i32, i32)| x0 <= q.0 < x1 && y0 <= q.1 < y1)
}

/// Adds the positions `(x, row)` for `x` from `cx - half` to `cx + half`.
fn add_row(pixels: &mut Pixels, cx: i32, row: i32, half: i32)
    requires
        old(pixels).wf(),
        half < i32::MAX,
        half >= 0 ==> i32::MIN <= cx - half && cx + half <= i32::MAX,
    ensures
        final(pixels).wf(),
        final(pixels).set() == old(pixels).set().union(row_span(cx as int, row as int, half as int)),
{
    if half < 0 {
        proof {
            assert(row_span(cx as int, row as int, half as int) =~= Set::<(i32, i32)>::empty());
            assert(pixels.set().union(Set::<(i32, i32)>::empty()) =~= pixels.set());
        }
        return;
    }
    let ghost base = pixels.set();
    let mut dx: i32 = -half;
    while dx <= half
        invariant
            -half <= dx <= half + 1,
            half >= 0,
            half < i32::MAX,
            i32::MIN <= cx - half && cx + half <= i32::MAX,
            pixels.wf(),
            pixels.set() == base.union(Set::new(|q: (i32, i32)| q.1 == row && cx - half <= q.0 < cx + dx)),
        decreases half + 1 - dx,
    {
        let ghost before = pixels.set();
        let px: i32 = cx + dx;
        pixels.insert((px, row));
        proof {
            assert(base.union(Set::new(|q: (i32, i32)| q.1 == row && cx - half <= q.0 < cx + dx + 1)) =~= before.insert(
                (px, row),
            ));
        }
        dx += 1;
    }
    proof {
        assert(Set::new(|q: (i32, i32)| q.1 == row && cx - half <= q.0 < cx + dx) =~= row_span(
            cx as int,
            row as int,
            half as int,
        ));
    }
}

/// Adds the positions of the rectangle with columns `x0 .. x1` and rows
/// `y0 .. y1`.
fn add_rect(pixels: &mut Pixels, x0: i32, x1: i32, y0: i32, y1: i32)
    requires
        old(pixels).wf(),
    ensures
        final(pixels).wf(),
        final(pixels).set() == old(pixels).set().union(rect(x0 as int, x1 as int, y0 as int, y1 as int)),
{
    let ghost base = pixels.set();
    let mut y: i32 = y0;
    if y1 < y0 {
        proof {
            assert(rect(x0 as int, x1 as int, y0 as int, y1 as int) =~= Set::<(i32, i32)>::empty());
            assert(base.union(Set::<(i32, i32)>::empty()) =~= base);
        }
        return;
    }
    while y < y1
        invariant
            y0 <= y <= y1,
            pixels.wf(),
            pixels.set() == base.union(rect(x0 as int, x1 as int, y0 as int, y as int)),
        decreases y1 - y,
    {
        let ghost row_base = pixels.set();
        let mut x: i32 = x0;
        if x1 > x0 {
            while x < x1
                invariant
                    x0 <= x <= x1,
                    y0 <= y < y1,
                    pixels.wf(),
                    pixels.set() == row_base.union(Set::new(|q: (i32, i32)| x0 <= q.0 < x && q.1 == y)),
                decreases x1 - x,
            {
                let ghost before = pixels.set();
                pixels.insert((x, y));
                proof {
                    assert(row_base.union(Set::new(|q: (i32, i32)| x0 <= q.0 < x + 1 && q.1 == y)) =~= before.insert(
                        (x, y),
                    ));
                }
                x += 1;
            }
        }
        proof {
            assert(base.union(rect(x0 as int, x1 as int, y0 as int, y + 1)) =~= row_base.union(
                Set::new(|q: (i32, i32)| x0 <= q.0 < x1 && q.1 == y),
            ));
        }
        y += 1;
    }
}

impl Pixels {
    /// The positions of `self` that `other` does not hold.
    pub fn difference(&self, other: &Pixels) -> (r: Pixels)
        requires
            self.wf(),
        ensures
            r.wf(),
            r.set() == self.set().difference(other.set()),
    {
        let mut r = Pixels::new();
        let mut i: usize = 0;
        while i < self.points.len()
            invariant
                i <= self.points@.len(),
                r.wf(),
                r.set() == self.points@.take(i as int).to_set().difference(other.set()),
            decreases self.points@.len() - i,
        {
            let q = self.points[i];
            let ghost before = r.set();
            if !other.contains(q) {
                r.insert(q);
            }
            proof {
                assert(self.points@.take(i + 1) == self.points@.take(i as int).push(q));
                self.points@.take(i as int).lemma_push_to_set_commute(q);
                assert(r.set() =~= self.points@.take(i + 1).to_set().difference(other.set()));
            }
            i += 1;
        }
        proof {
            assert(self.points@.take(i as int) == self.points@);
        }
        r
    }
}

/// One step of the midpoint circle algorithm on `(x, y, p)`: `y` grows by
/// one, and `x` shrinks by one when the decision value `p` is positive.
pub open spec fn circle_step(s: (int, int, int)) -> (int, int, int) {
    let y1 = s.1 + 1;
    if s.2 <= 0 {
        (s.0, y1, s.2 + 2 * y1 + 1)
    } else {
        (s.0 - 1, y1, s.2 + 2 * y1 - 2 * (s.0 - 1) + 1)
    }
}

/// The rows a step of the algorithm fills: rows `cy ± y` out to `x` on each
/// side of `cx`, rows `cy ± x` out to `y`.
pub open spec fn step_rows(cx: int, cy: int, s: (int, int, int)) -> Set<(i32, i32)> {
    row_span(cx, cy + s.1, s.0).union(row_span(cx, cy - s.1, s.0)).union(row_span(cx, cy + s.0, s.1)).union(
        row_span(cx, cy - s.0, s.1),
    )
}

/// The rows filled from the step `s` on, while `x` is at least `y`.
pub open spec fn circle_fill(cx: int, cy: int, s: (int, int, int)) -> Set<(i32, i32)>
    decreases (if s.0 >= s.1 { s.0 - s.1 + 2 } else { 0 }),
{
    if s.0 >= s.1 {
        step_rows(cx, cy, s).union(circle_fill(cx, cy, circle_step(s)))
    } else {
        Set::empty()
    }
}

/// The filled circle of radius `r` centred on `(cx, cy)`, as the midpoint
/// circle algorithm draws it.
pub open spec fn circle_pixels(cx: int, cy: int, r: int) -> Set<(i32, i32)> {
    circle_fill(cx, cy, (r, 0, 1 - r))
}

/// Adds the filled circle of radius `radius` centred on `(cx, cy)`.
fn fill_circle(pixels: &mut Pixels, cx: i32, cy: i32, radius: i32)
    requires
        old(pixels).wf(),
        -65535 <= radius <= 65535,
        i32::MIN + 65536 <= cx <= i32::MAX - 65536,
        i32::MIN + 65536 <= cy <= i32::MAX - 65536,
    ensures
        final(pixels).wf(),
        final(pixels).set() == old(pixels).set().union(circle_pixels(cx as int, cy as int, radius as int)),
{
    let ghost base = pixels.set();
    let mut x: i32 = radius;
    let mut y: i32 = 0;
    let mut p: i64 = 1 - radius as i64;
    proof {
        assert(base.union(circle_fill(cx as int, cy as int, (x as int, y as int, p as int))) == base.union(
            circle_pixels(cx as int, cy as int, radius as int),
        ));
    }
    while x >= y
        invariant
            pixels.wf(),
            i32::MIN + 65536 <= cx <= i32::MAX - 65536,
            i32::MIN + 65536 <= cy <= i32::MAX - 65536,
            -65535 <= radius <= 65535,
            x <= radius,
            0 <= y,
            y == 0 || y <= x + 2,
            -(65536 + y * 262150) <= p <= 65536 + y * 262150,
            pixels.set().union(circle_fill(cx as int, cy as int, (x as int, y as int, p as int))) == base.union(
                circle_pixels(cx as int, cy as int, radius as int),
            ),
        decreases x - y + 2,
    {
        let ghost before = pixels.set();
        let ghost s = (x as int, y as int, p as int);
        add_row(pixels, cx, cy + y, x);
        add_row(pixels, cx, cy - y, x);
        add_row(pixels, cx, cy + x, y);
        add_row(pixels, cx, cy - x, y);
        proof {
            assert(pixels.set() =~= before.union(step_rows(cx as int, cy as int, s)));
            assert(circle_fill(cx as int, cy as int, s) == step_rows(cx as int, cy as int, s).union(
                circle_fill(cx as int, cy as int, circle_step(s)),
            ));
            assert(pixels.set().union(circle_fill(cx as int, cy as int, circle_step(s))) =~= before.union(
                circle_fill(cx as int, cy as int, s),
            ));
        }
        y += 1;
        if p <= 0 {
            p += 2 * (y as i64) + 1;
        } else {
            x -= 1;
            p += 2 * (y as i64) - 2 * (x as i64) + 1;
        }
    }
    proof {
        assert(pixels.set().union(Set::<(i32, i32)>::empty()) =~= pixels.set());
    }
}

/// The filled circle of radius `radius` centred in the cell.
pub fn calc_circle_drawing_pixels(image_params: &ImageParams, radius: i32) -> (p: Pixels)
    requires
        -65535 <= radius <= 65535,
    ensures
        p.wf(),
        p.set() == circle_pixels((image_params.width / 2) as int, (image_params.height / 2) as int, radius as int),
{
    let mut p = Pixels::new();
    let cx = (image_params.width / 2) as i32;
    let cy = (image_params.height / 2) as i32;
    fill_circle(&mut p, cx, cy, radius);
    proof {
        assert(Set::<(i32, i32)>::empty().union(circle_pixels(cx as int, cy as int, radius as int)) =~= circle_pixels(
            cx as int,
            cy as int,
            radius as int,
        ));
    }
    p
}

/// The commit circle.
pub fn calc_commit_circle_drawing_pixels(image_params: &ImageParams) -> (p: Pixels)
    ensures
        p.wf(),
        p.set() == circle_pixels(
            (image_params.width / 2) as int,
            (image_params.height / 2) as int,
            image_params.circle_inner_radius as int,
        ),
{
    calc_circle_drawing_pixels(image_params, image_params.circle_inner_radius as i32)
}

/// The ring round the commit circle.
pub fn calc_circle_edge_drawing_pixels(image_params: &ImageParams) -> (p: Pixels)
    ensures
        p.wf(),
        p.set() == circle_pixels(
            (image_params.width / 2) as int,
            (image_params.height / 2) as int,
            image_params.circle_outer_radius as int,
        ).difference(
            circle_pixels((image_params.width / 2) as int, (image_params.height / 2) as int, image_params.circle_inner_radius as int),
        ),
{
    let inner = calc_circle_drawing_pixels(image_params, image_params.circle_inner_radius as i32);
    let outer = calc_circle_drawing_pixels(image_params, image_params.circle_outer_radius as i32);
    outer.difference(&inner)
}

/// A rectangle of the cell.
fn rect_pixels(x0: i32, x1: i32, y0: i32, y1: i32) -> (p: Pixels)
    ensures
        p.wf(),
        p.set() == rect(x0 as int, x1 as int, y0 as int, y1 as int),
{
    let mut p = Pixels::new();
    add_rect(&mut p, x0, x1, y0, y1);
    proof {
        assert(Set::<(i32, i32)>::empty().union(rect(x0 as int, x1 as int, y0 as int, y1 as int)) =~= rect(
            x0 as int,
            x1 as int,
            y0 as int,
            y1 as int,
        ));
    }
    p
}

/// The first column of the vertical line, `line_width` columns wide and
/// centred in the cell.
pub open spec fn line_x_start(p: &ImageParams) -> int {
    p.width / 2 - p.line_width / 2
}

/// The first row of the horizontal line, centred in the cell.
pub open spec fn line_y_start(p: &ImageParams) -> int {
    p.height / 2 - p.line_width / 2
}

/// A vertical line through the whole cell.
pub fn calc_vertical_edge_drawing_pixels(image_params: &ImageParams) -> (p: Pixels)
    ensures
        p.wf(),
        p.set() == rect(
            line_x_start(image_params),
            line_x_start(image_params) + image_params.line_width,
            0,
            image_params.height as int,
        ),
{
    let xs = (image_params.width / 2) as i32 - (image_params.line_width / 2) as i32;
    rect_pixels(xs, xs + image_params.line_width as i32, 0, image_params.height as i32)
}

/// A horizontal line through the whole cell.
pub fn calc_horizontal_edge_drawing_pixels(image_params: &ImageParams) -> (p: Pixels)
    ensures
        p.wf(),
        p.set() == rect(
            0,
            image_params.width as int,
            line_y_start(image_params),
            line_y_start(image_params) + image_params.line_width,
        ),
{
    let ys = (image_params.height / 2) as i32 - (image_params.line_width / 2) as i32;
    rect_pixels(0, image_params.width as i32, ys, ys + image_params.line_width as i32)
}

/// The vertical line from the top of the cell to the commit circle.
pub fn calc_up_edge_drawing_pixels(image_params: &ImageParams) -> (p: Pixels)
    ensures
        p.wf(),
        p.set() == rect(
            line_x_start(image_params),
            line_x_start(image_params) + image_params.line_width,
            0,
            image_params.height / 2 - image_params.circle_outer_radius,
        ),
{
    let xs = (image_params.width / 2) as i32 - (image_params.line_width / 2) as i32;
    let cy = (image_params.height / 2) as i32;
    rect_pixels(xs, xs + image_params.line_width as i32, 0, cy - image_params.circle_outer_radius as i32)
}

/// The vertical line from the commit circle to the bottom of the cell.
pub fn calc_down_edge_drawing_pixels(image_params: &ImageParams) -> (p: Pixels)
    ensures
        p.wf(),
        p.set() == rect(
            line_x_start(image_params),
            line_x_start(image_params) + image_params.line_width,
            image_params.height / 2 + image_params.circle_outer_radius + 1,
            image_params.height as int,
        ),
{
    let xs = (image_params.width / 2) as i32 - (image_params.line_width / 2) as i32;
    let cy = (image_params.height / 2) as i32;
    rect_pixels(
        xs,
        xs + image_params.line_width as i32,
        cy + image_params.circle_outer_radius as i32 + 1,
        image_params.height as i32,
    )
}

/// The horizontal line from the left of the cell to the commit circle.
pub fn calc_left_edge_drawing_pixels(image_params: &ImageParams) -> (p: Pixels)
    ensures
        p.wf(),
        p.set() == rect(
            0,
            image_params.width / 2 - image_params.circle_outer_radius,
            line_y_start(image_params),
            line_y_start(image_params) + image_params.line_width,
        ),
{
    let ys = (image_params.height / 2) as i32 - (image_params.line_width / 2) as i32;
    let cx = (image_params.width / 2) as i32;
    rect_pixels(0, cx - image_params.circle_outer_radius as i32, ys, ys + image_params.line_width as i32)
}

/// The horizontal line from the commit circle to the right of the cell.
pub fn calc_right_edge_drawing_pixels(image_params: &ImageParams) -> (p: Pixels)
    ensures
        p.wf(),
        p.set() == rect(
            image_params.width / 2 + image_params.circle_outer_radius + 1,
            image_params.width as int,
            line_y_start(image_params),
            line_y_start(image_params) + image_params.line_width,
        ),
{
    let ys = (image_params.height / 2) as i32 - (image_params.line_width / 2) as i32;
    let cx = (image_params.width / 2) as i32;
    rect_pixels(
        cx + image_params.circle_outer_radius as i32 + 1,
        image_params.width as i32,
        ys,
        ys + image_params.line_width as i32,
    )
}

/// The pixels of a corner: the ring between the two circles of radius
/// `rb ± lw / 2` (the inner one a pixel smaller when `lw` is odd) centred on
/// `(bcx, bcy)`, cut to the cell (`w` x `h`) and moved by `(xo, yo)`; in a
/// cell taller than wide the vertical line that joins it to the cell's edge
/// over the rows it was moved by, in a cell wider than tall the horizontal
/// one.
pub open spec fn corner_pixels(w: int, h: int, lw: int, rb: int, bcx: int, bcy: int, xo: int, yo: int) -> Set<(i32, i32)> {
    let inner = circle_pixels(bcx, bcy, rb - lw / 2 - (if lw % 2 == 0 { 0int } else { 1int }));
    let outer = circle_pixels(bcx, bcy, rb + lw / 2);
    let curve = Set::new(
        |q: (i32, i32)|
            exists|p: (i32, i32)|
                #![trigger outer.contains(p)]
                outer.contains(p) && !inner.contains(p) && 0 <= p.0 < w && 0 <= p.1 < h && q.0 == p.0 + xo && q.1 == p.1
                    + yo,
    );
    let vertical = if w < h {
        let ys = if yo < 0 { bcy + yo } else { bcy };
        let ye = if yo < 0 { bcy } else { bcy + yo };
        rect(w / 2 - lw / 2, w / 2 - lw / 2 + lw, ys, ye)
    } else {
        Set::empty()
    };
    let horizontal = if w > h {
        let xs = if xo < 0 { bcx + xo } else { bcx };
        let xe = if xo < 0 { bcx } else { bcx + xo };
        rect(xs, xe, h / 2 - lw / 2, h / 2 - lw / 2 + lw)
    } else {
        Set::empty()
    };
    curve.union(vertical).union(horizontal)
}

/// The pixels of the corner of the cell whose circle is centred on
/// `(base_center_x, base_center_y)`, moved by the offsets.
pub fn calc_corner_edge_drawing_pixels(
    image_params: &ImageParams,
    base_center_x: i32,
    base_center_y: i32,
    x_offset: i32,
    y_offset: i32,
) -> (p: Pixels)
    requires
        i32::MIN + 65536 <= base_center_x <= i32::MAX - 65536,
        i32::MIN + 65536 <= base_center_y <= i32::MAX - 65536,
        x_offset + image_params.width <= i32::MAX + 1,
        y_offset + image_params.height <= i32::MAX + 1,
        image_params.width < image_params.height ==> i32::MIN <= base_center_y + y_offset <= i32::MAX,
        image_params.width > image_params.height ==> i32::MIN <= base_center_x + x_offset <= i32::MAX,
    ensures
        p.wf(),
        p.set() == corner_pixels(
            image_params.width as int,
            image_params.height as int,
            image_params.line_width as int,
            (if image_params.width < image_params.height { image_params.width / 2 } else { image_params.height / 2 }) as int,
            base_center_x as int,
            base_center_y as int,
            x_offset as int,
            y_offset as int,
        ),
{
    let line_width = image_params.line_width as i32;
    let half_line_width = line_width / 2;
    let adjust: i32 = if image_params.line_width % 2 == 0 {
        0
    } else {
        1
    };
    let radius_base_length = image_params.corner_radius() as i32;
    let inner_radius = radius_base_length - half_line_width - adjust;
    let outer_radius = radius_base_length + half_line_width;
    let mut inner_pixels = Pixels::new();
    fill_circle(&mut inner_pixels, base_center_x, base_center_y, inner_radius);
    let mut outer_pixels = Pixels::new();
    fill_circle(&mut outer_pixels, base_center_x, base_center_y, outer_radius);
    let ghost inner = circle_pixels(base_center_x as int, base_center_y as int, inner_radius as int);
    let ghost outer = circle_pixels(base_center_x as int, base_center_y as int, outer_radius as int);
    proof {
        assert(inner_pixels.set() =~= inner);
        assert(outer_pixels.set() =~= outer);
    }
    let ring = outer_pixels.difference(&inner_pixels);
    let w = image_params.width as i32;
    let h = image_params.height as i32;
    let ghost curve = Set::new(
        |q: (i32, i32)|
            exists|p: (i32, i32)|
                #![trigger outer.contains(p)]
                outer.contains(p) && !inner.contains(p) && 0 <= p.0 < w && 0 <= p.1 < h && q.0 == p.0 + x_offset && q.1
                    == p.1 + y_offset,
    );
    let mut pixels = Pixels::new();
    let pts = ring.points();
    let mut i: usize = 0;
    while i < pts.len()
        invariant
            i <= pts@.len(),
            pts@.to_set() == outer.difference(inner),
            pixels.wf(),
            pixels.set() == Set::new(
                |q: (i32, i32)|
                    exists|k: int|
                        0 <= k < i && 0 <= #[trigger] pts@[k].0 < w && 0 <= pts@[k].1 < h && q.0 == pts@[k].0 + x_offset
                            && q.1 == pts@[k].1 + y_offset,
            ),
            x_offset + w <= i32::MAX + 1,
            y_offset + h <= i32::MAX + 1,
            w == image_params.width,
            h == image_params.height,
        decreases pts@.len() - i,
    {
        let q = pts[i];
        let ghost before = pixels.set();
        if 0 <= q.0 && q.0 < w && 0 <= q.1 && q.1 < h {
            pixels.insert((q.0 + x_offset, q.1 + y_offset));
        }
        proof {
            assert(pixels.set() =~= Set::new(
                |r: (i32, i32)|
                    exists|k: int|
                        0 <= k < i + 1 && 0 <= #[trigger] pts@[k].0 < w && 0 <= pts@[k].1 < h && r.0 == pts@[k].0
                            + x_offset && r.1 == pts@[k].1 + y_offset,
            )) by {
                assert forall|r: (i32, i32)|
                    #![trigger pixels.set().contains(r)]
                    pixels.set().contains(r) <==> exists|k: int|
                        0 <= k < i + 1 && 0 <= #[trigger] pts@[k].0 < w && 0 <= pts@[k].1 < h && r.0 == pts@[k].0
                            + x_offset && r.1 == pts@[k].1 + y_offset by {
                    if exists|k: int|
                        0 <= k < i + 1 && 0 <= #[trigger] pts@[k].0 < w && 0 <= pts@[k].1 < h && r.0 == pts@[k].0
                            + x_offset && r.1 == pts@[k].1 + y_offset {
                        let k = choose|k: int|
                            0 <= k < i + 1 && 0 <= #[trigger] pts@[k].0 < w && 0 <= pts@[k].1 < h && r.0 == pts@[k].0
                                + x_offset && r.1 == pts@[k].1 + y_offset;
                        if k < i {
                            assert(before.contains(r));
                        }
                    }
                }
            }
        }
        i += 1;
    }
    proof {
        assert(pixels.set() =~= curve) by {
            assert forall|q: (i32, i32)| #![trigger curve.contains(q)] pixels.set().contains(q) <==> curve.contains(q) by {
                if pixels.set().contains(q) {
                    let k = choose|k: int|
                        0 <= k < i && 0 <= #[trigger] pts@[k].0 < w && 0 <= pts@[k].1 < h && q.0 == pts@[k].0 + x_offset
                            && q.1 == pts@[k].1 + y_offset;
                    assert(pts@.to_set().contains(pts@[k]));
                    assert(outer.contains(pts@[k]));
                }
                if curve.contains(q) {
                    let p = choose|p: (i32, i32)|
                        #![trigger outer.contains(p)]
                        outer.contains(p) && !inner.contains(p) && 0 <= p.0 < w && 0 <= p.1 < h && q.0 == p.0 + x_offset
                            && q.1 == p.1 + y_offset;
                    assert(outer.difference(inner).contains(p));
                    assert(pts@.to_set().contains(p));
                    let k = choose|k: int| 0 <= k < pts@.len() && pts@[k] == p;
                    assert(0 <= pts@[k].0 < w);
                }
            }
        }
    }
    let ghost after_curve = pixels.set();
    if image_params.width < image_params.height {
        let (ys, ye) = if y_offset < 0 {
            (base_center_y + y_offset, base_center_y)
        } else {
            (base_center_y, base_center_y + y_offset)
        };
        let center_x = (image_params.width / 2) as i32;
        let x_start = center_x - line_width / 2;
        add_rect(&mut pixels, x_start, x_start + line_width, ys, ye);
    }
    let ghost after_vertical = pixels.set();
    if image_params.width > image_params.height {
        let (xs, xe) = if x_offset < 0 {
            (base_center_x + x_offset, base_center_x)
        } else {
            (base_center_x, base_center_x + x_offset)
        };
        let center_y = (image_params.height / 2) as i32;
        let y_start = center_y - line_width / 2;
        add_rect(&mut pixels, xs, xe, y_start, y_start + line_width);
    }
    proof {
        if !(image_params.width < image_params.height) {
            assert(after_vertical =~= after_curve.union(Set::<(i32, i32)>::empty()));
        }
        if !(image_params.width > image_params.height) {
            assert(pixels.set() =~= after_vertical.union(Set::<(i32, i32)>::empty()));
        }
    }
    pixels
}

/// The corner radius of the cell: half its smaller side.
pub open spec fn corner_radius_of(p: &ImageParams) -> int {
    (if p.width < p.height { p.width / 2 } else { p.height / 2 }) as int
}

/// The corner of `image_params` centred on `(bx, by)`, moved by `(xo, yo)`.
pub open spec fn params_corner(p: &ImageParams, bx: int, by: int, xo: int, yo: int) -> Set<(i32, i32)> {
    corner_pixels(p.width as int, p.height as int, p.line_width as int, corner_radius_of(p), bx, by, xo, yo)
}

/// The corner that joins the bottom of the cell to its right: the quarter
/// circle centred on the bottom-left corner, moved so that it meets the
/// middle of the cell.
pub fn calc_right_top_edge_drawing_pixels(image_params: &ImageParams) -> (p: Pixels)
    ensures
        p.wf(),
        ({
            let (w, h, r) = (image_params.width as int, image_params.height as int, corner_radius_of(image_params));
            p.set() == if w < h {
                params_corner(image_params, 0, h, 0, r - h / 2)
            } else {
                params_corner(image_params, 0, h, w / 2 - r, 0)
            }
        }),
{
    let (w, h, r) = (image_params.width as i32, image_params.height as i32, image_params.corner_radius() as i32);
    let (x_offset, y_offset) = if w < h {
        (0, r - (h / 2))
    } else {
        ((w / 2) - r, 0)
    };
    calc_corner_edge_drawing_pixels(image_params, 0, h, x_offset, y_offset)
}

/// The corner that joins the bottom of the cell to its left.
pub fn calc_left_top_edge_drawing_pixels(image_params: &ImageParams) -> (p: Pixels)
    ensures
        p.wf(),
        ({
            let (w, h, r) = (image_params.width as int, image_params.height as int, corner_radius_of(image_params));
            p.set() == if w < h {
                params_corner(image_params, w, h, 0, r - h / 2)
            } else {
                params_corner(image_params, w, h, r - w / 2, 0)
            }
        }),
{
    let (w, h, r) = (image_params.width as i32, image_params.height as i32, image_params.corner_radius() as i32);
    let (x_offset, y_offset) = if w < h {
        (0, r - (h / 2))
    } else {
        (r - (w / 2), 0)
    };
    calc_corner_edge_drawing_pixels(image_params, w, h, x_offset, y_offset)
}

/// The corner that joins the top of the cell to its right.
pub fn calc_right_bottom_edge_drawing_pixels(image_params: &ImageParams) -> (p: Pixels)
    ensures
        p.wf(),
        ({
            let (w, h, r) = (image_params.width as int, image_params.height as int, corner_radius_of(image_params));
            p.set() == if w < h {
                params_corner(image_params, 0, 0, 0, h / 2 - r)
            } else {
                params_corner(image_params, 0, 0, w / 2 - r, 0)
            }
        }),
{
    let (w, h, r) = (image_params.width as i32, image_params.height as i32, image_params.corner_radius() as i32);
    let (x_offset, y_offset) = if w < h {
        (0, (h / 2) - r)
    } else {
        ((w / 2) - r, 0)
    };
    calc_corner_edge_drawing_pixels(image_params, 0, 0, x_offset, y_offset)
}

/// The corner that joins the top of the cell to its left.
pub fn calc_left_bottom_edge_drawing_pixels(image_params: &ImageParams) -> (p: Pixels)
    ensures
        p.wf(),
        ({
            let (w, h, r) = (image_params.width as int, image_params.height as int, corner_radius_of(image_params));
            p.set() == if w < h {
                params_corner(image_params, w, 0, 0, h / 2 - r)
            } else {
                params_corner(image_params, w, 0, r - w / 2, 0)
            }
        }),
{
    let (w, h, r) = (image_params.width as i32, image_params.height as i32, image_params.corner_radius() as i32);
    let (x_offset, y_offset) = if w < h {
        (0, (h / 2) - r)
    } else {
        (r - (w / 2), 0)
    };
    calc_corner_edge_drawing_pixels(image_params, w, 0, x_offset, y_offset)
}

/// The pixels of every piece a graph cell is drawn from, computed once.
#[derive(Debug)]
pub struct DrawingPixels {
    pub circle: Pixels,
    pub circle_edge: Pixels,
    pub vertical_edge: Pixels,
    pub horizontal_edge: Pixels,
    pub up_edge: Pixels,
    pub down_edge: Pixels,
    pub left_edge: Pixels,
    pub right_edge: Pixels,
    pub right_top_edge: Pixels,
    pub left_top_edge: Pixels,
    pub right_bottom_edge: Pixels,
    pub left_bottom_edge: Pixels,
}

impl DrawingPixels {
    /// Every set held once per position.
    pub open spec fn wf(&self) -> bool {
        &&& self.circle.wf()
        &&& self.circle_edge.wf()
        &&& self.vertical_edge.wf()
        &&& self.horizontal_edge.wf()
        &&& self.up_edge.wf()
        &&& self.down_edge.wf()
        &&& self.left_edge.wf()
        &&& self.right_edge.wf()
        &&& self.right_top_edge.wf()
        &&& self.left_top_edge.wf()
        &&& self.right_bottom_edge.wf()
        &&& self.left_bottom_edge.wf()
    }

    /// Computes each piece for the cell of `image_params`.
    pub fn new(image_params: &ImageParams) -> (d: DrawingPixels)
        ensures
            d.wf(),
            d.circle.set() == circle_pixels(
                (image_params.width / 2) as int,
                (image_params.height / 2) as int,
                image_params.circle_inner_radius as int,
            ),
            d.circle_edge.set() == circle_pixels(
                (image_params.width / 2) as int,
                (image_params.height / 2) as int,
                image_params.circle_outer_radius as int,
            ).difference(
                circle_pixels(
                    (image_params.width / 2) as int,
                    (image_params.height / 2) as int,
                    image_params.circle_inner_radius as int,
                ),
            ),
            d.vertical_edge.set() == rect(
                line_x_start(image_params),
                line_x_start(image_params) + image_params.line_width,
                0,
                image_params.height as int,
            ),
            d.horizontal_edge.set() == rect(
                0,
                image_params.width as int,
                line_y_start(image_params),
                line_y_start(image_params) + image_params.line_width,
            ),
            d.up_edge.set() == rect(
                line_x_start(image_params),
                line_x_start(image_params) + image_params.line_width,
                0,
                image_params.height / 2 - image_params.circle_outer_radius,
            ),
            d.down_edge.set() == rect(
                line_x_start(image_params),
                line_x_start(image_params) + image_params.line_width,
                image_params.height / 2 + image_params.circle_outer_radius + 1,
                image_params.height as int,
            ),
            d.left_edge.set() == rect(
                0,
                image_params.width / 2 - image_params.circle_outer_radius,
                line_y_start(image_params),
                line_y_start(image_params) + image_params.line_width,
            ),
            d.right_edge.set() == rect(
                image_params.width / 2 + image_params.circle_outer_radius + 1,
                image_params.width as int,
                line_y_start(image_params),
                line_y_start(image_params) + image_params.line_width,
            ),
            ({
                let (w, h, r) = (image_params.width as int, image_params.height as int, corner_radius_of(image_params));
                &&& d.right_top_edge.set() == if w < h {
                    params_corner(image_params, 0, h, 0, r - h / 2)
                } else {
                    params_corner(image_params, 0, h, w / 2 - r, 0)
                }
                &&& d.left_top_edge.set() == if w < h {
                    params_corner(image_params, w, h, 0, r - h / 2)
                } else {
                    params_corner(image_params, w, h, r - w / 2, 0)
                }
                &&& d.right_bottom_edge.set() == if w < h {
                    params_corner(image_params, 0, 0, 0, h / 2 - r)
                } else {
                    params_corner(image_params, 0, 0, w / 2 - r, 0)
                }
                &&& d.left_bottom_edge.set() == if w < h {
                    params_corner(image_params, w, 0, 0, h / 2 - r)
                } else {
                    params_corner(image_params, w, 0, r - w / 2, 0)
                }
            }),
    {
        DrawingPixels {
            circle: calc_commit_circle_drawing_pixels(image_params),
            circle_edge: calc_circle_edge_drawing_pixels(image_params),
            vertical_edge: calc_vertical_edge_drawing_pixels(image_params),
            horizontal_edge: calc_horizontal_edge_drawing_pixels(image_params),
            up_edge: calc_up_edge_drawing_pixels(image_params),
            down_edge: calc_down_edge_drawing_pixels(image_params),
            left_edge: calc_left_edge_drawing_pixels(image_params),
            right_edge: calc_right_edge_drawing_pixels(image_params),
            right_top_edge: calc_right_top_edge_drawing_pixels(image_params),
            left_top_edge: calc_left_top_edge_drawing_pixels(image_params),
            right_bottom_edge: calc_right_bottom_edge_drawing_pixels(image_params),
            left_bottom_edge: calc_left_bottom_edge_drawing_pixels(image_params),
        }
    }
}

} // verus!
