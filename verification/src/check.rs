use vstd::prelude::*;

use crate::graph::image::CellWidthType;
use crate::padding::{clamp_uniform, clamp_uniform_spec, min_int, sat_sub, shrink_to_fit_graph};
use crate::text::{decimal, decimal_string};

verus! {

/// The graph cell width asked for on the command line or in the config.
#[derive(Debug, Clone, Copy, PartialEq, Eq, Structural)]
pub enum GraphWidthType {
    Auto,
    Double,
    Single,
}

/// The terminal cannot show the graph: it is `term_width` x `term_height`
/// characters and the graph needs `required_width` columns.
#[derive(Debug, Clone, Copy, PartialEq, Eq, Structural)]
pub struct TerminalTooSmall {
    pub term_width: usize,
    pub term_height: usize,
    pub required_width: usize,
}

pub open spec fn too_small_message(w: nat, h: nat, req: nat) -> Seq<char> {
    "Terminal too small ("@ + decimal(w) + "x"@ + decimal(h)
        + " characters). The current graph needs at least "@ + decimal(req)
        + " columns to display properly."@
}

impl TerminalTooSmall {
    /// The message shown to the user.
    pub fn message(&self) -> (s: String)
        ensures
            s@ == too_small_message(self.term_width as nat, self.term_height as nat, self.required_width as nat),
    {
        let mut s = String::from_str("Terminal too small (");
        s.append(decimal_string(self.term_width as u64).as_str());
        s.append("x");
        s.append(decimal_string(self.term_height as u64).as_str());
        s.append(" characters). The current graph needs at least ");
        s.append(decimal_string(self.required_width as u64).as_str());
        s.append(" columns to display properly.");
        s
    }
}

/// `v` clamped to the `u16` range.
pub open spec fn to_u16(v: int) -> int {
    if v <= u16::MAX { v } else { u16::MAX as int }
}

/// Columns left for the graph by a padding of `pad` on each side.
pub open spec fn available_width(term_w: int, pad: int) -> int {
    sat_sub(term_w, min_int(2 * pad, u16::MAX as int))
}

/// The padding reduced so that `required` columns fit.
pub open spec fn shrink_for(pad: int, term_w: int, required: int) -> int {
    min_int(pad, sat_sub(term_w, to_u16(required)) / 2)
}

/// Which cell width the graph is drawn with, or the width the terminal lacks.
/// A graph with rightmost column `max_pos_x` needs `max_pos_x + 3` columns in
/// single width and `2 * (max_pos_x + 1) + 2` in double width; the page padding
/// is reduced as far as needed to make the chosen width fit, and `Auto` prefers
/// double width when it fits without shrinking the padding.
pub open spec fn cell_width_decision(
    max_pos_x: int,
    term_width: int,
    term_height: int,
    cell_width_type: Option<GraphWidthType>,
    page_padding: int,
) -> Result<CellWidthType, int> {
    let single_required = max_pos_x + 1 + 2;
    let double_required = 2 * (max_pos_x + 1) + 2;
    let tw = to_u16(term_width);
    let th = to_u16(term_height);
    let pad = clamp_uniform_spec(page_padding, tw, th);
    match cell_width_type {
        Some(GraphWidthType::Double) => {
            if double_required <= available_width(tw, shrink_for(pad, tw, double_required)) {
                Ok(CellWidthType::Double)
            } else {
                Err(double_required)
            }
        },
        Some(GraphWidthType::Single) => {
            if single_required <= available_width(tw, shrink_for(pad, tw, single_required)) {
                Ok(CellWidthType::Single)
            } else {
                Err(single_required)
            }
        },
        _ => {
            if double_required <= available_width(tw, pad) {
                Ok(CellWidthType::Double)
            } else if single_required <= available_width(tw, pad) {
                Ok(CellWidthType::Single)
            } else if single_required <= available_width(tw, shrink_for(pad, tw, single_required)) {
                Ok(CellWidthType::Single)
            } else {
                Err(single_required)
            }
        },
    }
}

fn clamp_to_u16(v: usize) -> (r: u16)
    ensures
        r == to_u16(v as int),
{
    if v <= 65535 { v as u16 } else { 65535 }
}

fn available(term_w: u16, pad: u16) -> (r: usize)
    ensures
        r == available_width(term_w as int, pad as int),
{
    let twice: u16 = if pad <= 32767 { 2 * pad } else { 65535 };
    term_w.saturating_sub(twice) as usize
}

/// Decides the graph cell width for a terminal of `term_width` x `term_height`
/// characters and a graph whose rightmost column is `max_pos_x`.
pub fn decide_cell_width_type_from(
    max_pos_x: usize,
    term_width: usize,
    term_height: usize,
    cell_width_type: Option<GraphWidthType>,
    page_padding: u16,
) -> (r: Result<CellWidthType, TerminalTooSmall>)
    requires
        2 * (max_pos_x + 1) + 2 <= usize::MAX,
    ensures
        match cell_width_decision(max_pos_x as int, term_width as int, term_height as int, cell_width_type, page_padding as int) {
            Ok(t) => r == Ok::<CellWidthType, TerminalTooSmall>(t),
            Err(req) => r == Err::<CellWidthType, TerminalTooSmall>(
                TerminalTooSmall { term_width, term_height, required_width: req as usize },
            ),
        },
{
    let single_image_cell_width = max_pos_x + 1;
    let double_image_cell_width = single_image_cell_width * 2;
    let single_required_width = single_image_cell_width + 2;
    let double_required_width = double_image_cell_width + 2;

    let term_w = clamp_to_u16(term_width);
    let term_h = clamp_to_u16(term_height);
    let pad = clamp_uniform(page_padding, term_w, term_h);

    let too_small = |required: usize| -> (e: TerminalTooSmall)
        ensures
            e == (TerminalTooSmall { term_width, term_height, required_width: required }),
        { TerminalTooSmall { term_width, term_height, required_width: required } };

    match cell_width_type {
        Some(GraphWidthType::Double) => {
            let pad = shrink_to_fit_graph(pad, term_w, clamp_to_u16(double_required_width));
            if double_required_width <= available(term_w, pad) {
                Ok(CellWidthType::Double)
            } else {
                Err(too_small(double_required_width))
            }
        },
        Some(GraphWidthType::Single) => {
            let pad = shrink_to_fit_graph(pad, term_w, clamp_to_u16(single_required_width));
            if single_required_width <= available(term_w, pad) {
                Ok(CellWidthType::Single)
            } else {
                Err(too_small(single_required_width))
            }
        },
        _ => {
            if double_required_width <= available(term_w, pad) {
                return Ok(CellWidthType::Double);
            }
            if single_required_width <= available(term_w, pad) {
                return Ok(CellWidthType::Single);
            }
            let pad = shrink_to_fit_graph(pad, term_w, clamp_to_u16(single_required_width));
            if single_required_width <= available(term_w, pad) {
                return Ok(CellWidthType::Single);
            }
            Err(too_small(single_required_width))
        },
    }
}

} // verus!
