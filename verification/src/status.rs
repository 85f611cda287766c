use vstd::prelude::*;

use crate::event::StatusLineKind;

verus! {

/// What the status line at the bottom shows.
#[derive(Debug)]
pub enum StatusLine {
    Empty,
    /// An input line: its text, the cursor column, and a notice shown at its
    /// right end.
    Input(String, Option<u16>, Option<String>),
    NotificationInfo(String),
    NotificationSuccess(String),
    NotificationWarn(String),
    NotificationError(String),
}

/// How a piece of the status line is coloured.
#[derive(Debug, Clone, Copy, PartialEq, Eq, Structural)]
pub enum StatusStyle {
    Plain,
    Transient,
    Input,
    Info,
    Success,
    Warn,
    Error,
}

/// The number of terminal columns `console::measure_text_width` gives for
/// `s` (escape sequences left out, wide characters counted twice).
pub uninterp spec fn display_width(s: Seq<char>) -> nat;

/// Calls `console::measure_text_width`. Its result is only named, but a
/// text of printable ASCII characters is one column per character.
#[verifier::external_body]
fn measure_text_width(s: &str) -> (w: usize)
    ensures
        w == display_width(s@),
        (forall|i: int| 0 <= i < s@.len() ==> ' ' <= #[trigger] s@[i] <= '~') ==> w == s@.len(),
{
    console::measure_text_width(s)
}

/// The kind of a status line.
pub open spec fn status_kind(s: StatusLine) -> StatusLineKind {
    match s {
        StatusLine::Empty => StatusLineKind::Empty,
        StatusLine::Input(..) => StatusLineKind::Input,
        StatusLine::NotificationInfo(_) => StatusLineKind::Info,
        StatusLine::NotificationSuccess(_) => StatusLineKind::Success,
        StatusLine::NotificationWarn(_) => StatusLineKind::Warn,
        StatusLine::NotificationError(_) => StatusLineKind::Error,
    }
}

impl StatusLine {
    pub fn kind(&self) -> (k: StatusLineKind)
        ensures
            k == status_kind(*self),
    {
        match self {
            StatusLine::Empty => StatusLineKind::Empty,
            StatusLine::Input(..) => StatusLineKind::Input,
            StatusLine::NotificationInfo(_) => StatusLineKind::Info,
            StatusLine::NotificationSuccess(_) => StatusLineKind::Success,
            StatusLine::NotificationWarn(_) => StatusLineKind::Warn,
            StatusLine::NotificationError(_) => StatusLineKind::Error,
        }
    }
}

/// The pieces of the status line as plain text.
pub open spec fn spans_view(v: Seq<(String, StatusStyle)>) -> Seq<(Seq<char>, StatusStyle)> {
    v.map_values(|p: (String, StatusStyle)| (p.0@, p.1))
}

/// An input line with a notice leaves room for both, one column on either
/// side.
pub open spec fn status_fits(s: StatusLine, area_width: int) -> bool {
    match s {
        StatusLine::Input(msg, _, Some(t)) => display_width(msg@) + display_width(t@) + 2 <= area_width,
        _ => true,
    }
}

/// The pieces of the status line: the numeric prefix being typed (when
/// nothing else shows); the input text, padded so that its notice ends at
/// the right edge of an area `area_width` columns wide; or the notification,
/// an error prefixed with `ERROR: `.
pub open spec fn status_spans(s: StatusLine, prefix: Seq<char>, area_width: int) -> Seq<(Seq<char>, StatusStyle)> {
    match s {
        StatusLine::Empty => if prefix.len() == 0 {
            seq![(Seq::<char>::empty(), StatusStyle::Plain)]
        } else {
            seq![(prefix, StatusStyle::Transient)]
        },
        StatusLine::Input(msg, _, t) => match t {
            Some(t) => seq![
                (msg@, StatusStyle::Input),
                (Seq::new((area_width - display_width(msg@) - display_width(t@) - 2) as nat, |i: int| ' '), StatusStyle::Plain),
                (t@, StatusStyle::Transient),
            ],
            None => seq![(msg@, StatusStyle::Input)],
        },
        StatusLine::NotificationInfo(m) => seq![(m@, StatusStyle::Info)],
        StatusLine::NotificationSuccess(m) => seq![(m@, StatusStyle::Success)],
        StatusLine::NotificationWarn(m) => seq![(m@, StatusStyle::Warn)],
        StatusLine::NotificationError(m) => seq![("ERROR: "@ + m@, StatusStyle::Error)],
    }
}

fn one_span(text: String, style: StatusStyle) -> (v: Vec<(String, StatusStyle)>)
    ensures
        spans_view(v@) == seq![(text@, style)],
{
    let mut v = Vec::new();
    v.push((text, style));
    proof {
        assert(spans_view(v@) =~= seq![(text@, style)]);
    }
    v
}

fn spaces(n: usize) -> (s: String)
    ensures
        s@ == Seq::new(n as nat, |i: int| ' '),
{
    let mut s = String::new();
    let mut i: usize = 0;
    while i < n
        invariant
            i <= n,
            s@ == Seq::new(i as nat, |k: int| ' '),
        decreases n - i,
    {
        crate::text::push_char(&mut s, ' ');
        proof {
            assert(s@ =~= Seq::new((i + 1) as nat, |k: int| ' '));
        }
        i += 1;
    }
    s
}

/// The pieces of the status line, when the input line and its notice fit
/// the area.
pub fn render_status_line(status: &StatusLine, numeric_prefix: &str, area_width: u16) -> (r: Vec<(String, StatusStyle)>)
    requires
        status_fits(*status, area_width as int),
    ensures
        spans_view(r@) == status_spans(*status, numeric_prefix@, area_width as int),
{
    match status {
        StatusLine::Empty => {
            if numeric_prefix.unicode_len() == 0 {
                one_span(String::new(), StatusStyle::Plain)
            } else {
                one_span(String::from_str(numeric_prefix), StatusStyle::Transient)
            }
        },
        StatusLine::Input(msg, _, transient) => {
            match transient {
                Some(t) => {
                    let msg_w = measure_text_width(msg.as_str());
                    let t_w = measure_text_width(t.as_str());
                    let pad_w = area_width as usize - msg_w - t_w - 2;
                    let mut v = Vec::new();
                    v.push((msg.clone(), StatusStyle::Input));
                    v.push((spaces(pad_w), StatusStyle::Plain));
                    v.push((t.clone(), StatusStyle::Transient));
                    proof {
                        assert(spans_view(v@) =~= status_spans(*status, numeric_prefix@, area_width as int));
                    }
                    v
                },
                None => one_span(msg.clone(), StatusStyle::Input),
            }
        },
        StatusLine::NotificationInfo(m) => one_span(m.clone(), StatusStyle::Info),
        StatusLine::NotificationSuccess(m) => one_span(m.clone(), StatusStyle::Success),
        StatusLine::NotificationWarn(m) => one_span(m.clone(), StatusStyle::Warn),
        StatusLine::NotificationError(m) => {
            let mut text = String::from_str("ERROR: ");
            text.append(m.as_str());
            one_span(text, StatusStyle::Error)
        },
    }
}

/// The pieces of the status line; nothing when the input line and its
/// notice do not fit the area.
pub fn status_line_spans(status: &StatusLine, numeric_prefix: &str, area_width: u16) -> (r: Option<Vec<(String, StatusStyle)>>)
    ensures
        match r {
            Some(v) => status_fits(*status, area_width as int) && spans_view(v@) == status_spans(
                *status,
                numeric_prefix@,
                area_width as int,
            ),
            None => !status_fits(*status, area_width as int),
        },
{
    if let StatusLine::Input(msg, _, Some(t)) = status {
        let msg_w = measure_text_width(msg.as_str());
        let t_w = measure_text_width(t.as_str());
        if msg_w > area_width as usize || t_w > area_width as usize - msg_w || 2 > area_width as usize - msg_w - t_w {
            return None;
        }
    }
    Some(render_status_line(status, numeric_prefix, area_width))
}

} // verus!
