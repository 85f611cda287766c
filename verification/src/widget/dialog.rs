use vstd::prelude::*;

use crate::git::RefType;
use crate::padding::{min_int, sat_sub, Rect};

verus! {

/// The widest a dialog box is drawn.
pub const DIALOG_MAX_WIDTH: u16 = 50;

/// The most tag rows the delete-tag dialog lists.
pub const DIALOG_MAX_TAG_ROWS: u16 = 8;

/// Where a dialog of at most `width` x `height` cells is drawn over `area`:
/// it leaves at least two columns on each side and a row above and below,
/// and is centred (the odd cell of slack goes after it).
pub fn dialog_area(area: Rect, width: u16, height: u16) -> (r: Rect)
    requires
        area.x + area.width <= u16::MAX,
        area.y + area.height <= u16::MAX,
    ensures
        r.width == min_int(width as int, sat_sub(area.width as int, 4)),
        r.height == min_int(height as int, sat_sub(area.height as int, 2)),
        r.x == area.x + (area.width - r.width) / 2,
        r.y == area.y + (area.height - r.height) / 2,
        area.x <= r.x && r.x + r.width <= area.x + area.width,
        area.y <= r.y && r.y + r.height <= area.y + area.height,
        (r.x - area.x) <= (area.x + area.width) - (r.x + r.width) <= (r.x - area.x) + 1,
        (r.y - area.y) <= (area.y + area.height) - (r.y + r.height) <= (r.y - area.y) + 1,
{
    let avail_w: u16 = if area.width >= 4 { area.width - 4 } else { 0 };
    let avail_h: u16 = if area.height >= 2 { area.height - 2 } else { 0 };
    let w = if width <= avail_w { width } else { avail_w };
    let h = if height <= avail_h { height } else { avail_h };
    let dx = (area.width - w) / 2;
    let dy = (area.height - h) / 2;
    Rect::new(area.x + dx, area.y + dy, w, h)
}

/// How many rows the delete-tag dialog gives its tag list for `tag_count`
/// tags: the count taken as a 16-bit number, at most eight.
pub open spec fn tag_rows(tag_count: int) -> int {
    min_int(tag_count % 0x10000, DIALOG_MAX_TAG_ROWS as int)
}

/// The height asked for by the delete-tag dialog: six rows besides the list.
pub fn delete_tag_dialog_height(tag_count: usize) -> (h: u16)
    ensures
        h == 6 + tag_rows(tag_count as int),
{
    let low: usize = tag_count % 0x10000;
    let rows: u16 = if low < 8 { low as u16 } else { DIALOG_MAX_TAG_ROWS };
    6 + rows
}

/// The box drawn for a yes/no option.
pub fn checkbox(checked: bool) -> (s: String)
    ensures
        s@ == (if checked { "[x]"@ } else { "[ ]"@ }),
{
    if checked {
        String::from_str("[x]")
    } else {
        String::from_str("[ ]")
    }
}

/// The rows of the delete-tag dialog's list: each tag behind `"> "` when
/// it is the selected one, else behind two spaces, with whether it is
/// highlighted.
pub fn tag_selection_lines(tags: &Vec<String>, selected: usize) -> (lines: Vec<(String, bool)>)
    ensures
        lines@.len() == tags@.len(),
        forall|i: int|
            0 <= i < tags@.len() ==> {
                &&& (#[trigger] lines@[i]).1 == (i == selected)
                &&& lines@[i].0@ == (if i == selected { "> "@ } else { "  "@ }) + tags@[i]@
            },
{
    let mut lines: Vec<(String, bool)> = Vec::new();
    let mut i: usize = 0;
    while i < tags.len()
        invariant
            i <= tags@.len(),
            lines@.len() == i,
            forall|k: int|
                0 <= k < i ==> {
                    &&& (#[trigger] lines@[k]).1 == (k == selected)
                    &&& lines@[k].0@ == (if k == selected { "> "@ } else { "  "@ }) + tags@[k]@
                },
        decreases tags@.len() - i,
    {
        let is_selected = i == selected;
        let mut line = if is_selected {
            String::from_str("> ")
        } else {
            String::from_str("  ")
        };
        line.append(tags[i].as_str());
        lines.push((line, is_selected));
        i += 1;
    }
    lines
}

/// The title of the dialog that deletes a ref of type `ref_type`.
pub fn delete_ref_title(ref_type: RefType) -> (s: String)
    ensures
        s@ == match ref_type {
            RefType::Tag => " Delete Tag "@,
            RefType::Branch => " Delete Branch "@,
            RefType::RemoteBranch => " Delete Remote Branch "@,
        },
{
    match ref_type {
        RefType::Tag => String::from_str(" Delete Tag "),
        RefType::Branch => String::from_str(" Delete Branch "),
        RefType::RemoteBranch => String::from_str(" Delete Remote Branch "),
    }
}

/// The option row of the delete-ref dialog: for a tag, whether it is also
/// deleted from `origin`; for a local branch, whether the deletion is
/// forced; a remote branch has none.
pub fn delete_ref_option(ref_type: RefType, delete_from_remote: bool, force_delete: bool) -> (r: Option<(String, String)>)
    ensures
        match ref_type {
            RefType::Tag => r matches Some(o) && o.0@ == (if delete_from_remote { "[x]"@ } else { "[ ]"@ }) && o.1@
                == " Delete from origin"@,
            RefType::Branch => r matches Some(o) && o.0@ == (if force_delete { "[x]"@ } else { "[ ]"@ }) && o.1@
                == " Force delete (-D)"@,
            RefType::RemoteBranch => r is None,
        },
{
    match ref_type {
        RefType::Tag => Some((checkbox(delete_from_remote), String::from_str(" Delete from origin"))),
        RefType::Branch => Some((checkbox(force_delete), String::from_str(" Force delete (-D)"))),
        RefType::RemoteBranch => None,
    }
}

/// The text shown in an input field `field_width` cells wide holding
/// `value`: a space, then as many of the value's last characters as fit in
/// the width less two.
pub fn input_display_text(value: &str, field_width: u16) -> (s: String)
    ensures
        s@ == seq![' '] + (if value@.len() > sat_sub(field_width as int, 2) {
            value@.skip(value@.len() - sat_sub(field_width as int, 2))
        } else {
            value@
        }),
{
    let max_width: usize = if field_width >= 2 { (field_width - 2) as usize } else { 0 };
    let chars = crate::text::chars_of(value);
    let shown = if chars.len() > max_width {
        crate::text::slice_chars(&chars, chars.len() - max_width, chars.len())
    } else {
        chars
    };
    let mut s = String::from_str(" ");
    let tail = crate::text::string_from_chars(&shown);
    s.append(tail.as_str());
    proof {
        reveal_strlit(" ");
        if value@.len() > max_width {
            assert(value@.subrange(value@.len() - max_width, value@.len() as int) == value@.skip(
                value@.len() - max_width,
            ));
        }
    }
    s
}

/// The width of the refs pane beside the commit list: what the area leaves
/// after the graph and its marker column, at most the configured width.
pub fn refs_pane_width(area_width: u16, graph_cell_width: u16, configured_width: u16) -> (w: u16)
    requires
        graph_cell_width < u16::MAX,
    ensures
        w == min_int(sat_sub(area_width as int, graph_cell_width + 1), configured_width as int),
{
    let graph_width = graph_cell_width + 1;
    let rest: u16 = if area_width >= graph_width { area_width - graph_width } else { 0 };
    if rest <= configured_width {
        rest
    } else {
        configured_width
    }
}

} // verus!
