use vstd::prelude::*;

verus! {

/// Smallest content width that page padding must leave free.
pub const MIN_CONTENT_WIDTH: u16 = 10;

/// Smallest content height that page padding must leave free.
pub const MIN_CONTENT_HEIGHT: u16 = 3;

/// A rectangle of terminal cells.
#[derive(Debug, Clone, Copy, PartialEq, Eq, Structural)]
pub struct Rect {
    pub x: u16,
    pub y: u16,
    pub width: u16,
    pub height: u16,
}

impl Rect {
    pub fn new(x: u16, y: u16, width: u16, height: u16) -> (r: Rect)
        ensures
            r == (Rect { x, y, width, height }),
    {
        Rect { x, y, width, height }
    }
}

/// `a - b` clamped at zero.
pub open spec fn sat_sub(a: int, b: int) -> int {
    if a >= b { a - b } else { 0 }
}

/// `a + b` clamped at `u16::MAX`.
pub open spec fn sat_add_u16(a: int, b: int) -> int {
    if a + b <= u16::MAX { a + b } else { u16::MAX as int }
}

/// `a + b`, capped at `usize::MAX`.
pub open spec fn sat_add_usize(a: int, b: int) -> int {
    if a + b > usize::MAX {
        usize::MAX as int
    } else {
        a + b
    }
}

pub open spec fn min_int(a: int, b: int) -> int {
    if a <= b { a } else { b }
}

/// The largest uniform padding that still leaves the minimum content area,
/// capped by the requested padding; zero when the frame is already too small.
pub open spec fn clamp_uniform_spec(requested: int, width: int, height: int) -> int {
    if width < MIN_CONTENT_WIDTH || height < MIN_CONTENT_HEIGHT {
        0
    } else {
        min_int(
            min_int(requested, sat_sub(width, MIN_CONTENT_WIDTH as int) / 2),
            sat_sub(height, MIN_CONTENT_HEIGHT as int) / 2,
        )
    }
}

/// Clamps a uniform page padding so that at least
/// `MIN_CONTENT_WIDTH` x `MIN_CONTENT_HEIGHT` cells remain.
pub fn clamp_uniform(requested: u16, width: u16, height: u16) -> (pad: u16)
    ensures
        pad == clamp_uniform_spec(requested as int, width as int, height as int),
        pad <= requested,
        pad > 0 ==> width >= 2 * pad + MIN_CONTENT_WIDTH && height >= 2 * pad
            + MIN_CONTENT_HEIGHT,
{
    if width < MIN_CONTENT_WIDTH || height < MIN_CONTENT_HEIGHT {
        return 0;
    }
    let max_by_width = width.saturating_sub(MIN_CONTENT_WIDTH) / 2;
    let max_by_height = height.saturating_sub(MIN_CONTENT_HEIGHT) / 2;
    let a = if requested <= max_by_width { requested } else { max_by_width };
    if a <= max_by_height { a } else { max_by_height }
}

/// Shrinks `area` by `pad` cells on all four sides; the area is returned
/// unchanged when `pad` is zero or when twice the padding does not fit.
pub fn inset_rect(area: Rect, pad: u16) -> (r: Rect)
    ensures
        (pad == 0 || 2 * pad >= area.width || 2 * pad >= area.height) ==> r == area,
        !(pad == 0 || 2 * pad >= area.width || 2 * pad >= area.height) ==> r == (Rect {
            x: sat_add_u16(area.x as int, pad as int) as u16,
            y: sat_add_u16(area.y as int, pad as int) as u16,
            width: (area.width - 2 * pad) as u16,
            height: (area.height - 2 * pad) as u16,
        }),
{
    if pad == 0 {
        return area;
    }
    if pad >= area.width / 2 + area.width % 2 || pad >= area.height / 2 + area.height % 2 {
        // twice the padding would consume the whole width or height
        return area;
    }
    let inset = 2 * pad;
    if inset >= area.width || inset >= area.height {
        return area;
    }
    Rect::new(
        area.x.saturating_add(pad),
        area.y.saturating_add(pad),
        area.width - inset,
        area.height - inset,
    )
}

/// Further reduces a uniform padding so that `required_graph_width` columns
/// fit in `term_width`; never increases the padding.
pub fn shrink_to_fit_graph(pad: u16, term_width: u16, required_graph_width: u16) -> (r: u16)
    ensures
        r == min_int(pad as int, sat_sub(term_width as int, required_graph_width as int) / 2),
        r <= pad,
{
    let max_pad = term_width.saturating_sub(required_graph_width) / 2;
    if pad <= max_pad { pad } else { max_pad }
}

/// How a view `area_height` rows tall is shared between the commit list
/// above and a pane below that asks for `pane_height` rows: the pane gets
/// what it asks for but leaves the list at least one row.
pub fn split_for_pane(area_height: u16, pane_height: u16) -> (r: (u16, u16))
    requires
        area_height >= 1,
    ensures
        r.1 == min_int(area_height - 1, pane_height as int),
        r.0 + r.1 == area_height,
        r.0 >= 1,
{
    let pane = if area_height - 1 <= pane_height { area_height - 1 } else { pane_height };
    (area_height - pane, pane)
}

} // verus!
