use vstd::prelude::*;

use crate::text::{chars_of, push_char};

verus! {

/// What a key press means to the application, once looked up in the key bindings.
#[derive(Debug, Clone, Copy, PartialEq, Eq, Structural)]
pub enum UserEvent {
    ForceQuit,
    Quit,
    HelpToggle,
    Cancel,
    Close,
    NavigateUp,
    NavigateDown,
    NavigateRight,
    NavigateLeft,
    SelectUp,
    SelectDown,
    GoToTop,
    GoToBottom,
    GoToParent,
    ScrollUp,
    ScrollDown,
    PageUp,
    PageDown,
    HalfPageUp,
    HalfPageDown,
    SelectTop,
    SelectMiddle,
    SelectBottom,
    GoToNext,
    GoToPrevious,
    Confirm,
    RefListToggle,
    Search,
    Filter,
    IgnoreCaseToggle,
    FuzzyToggle,
    ShortCopy,
    FullCopy,
    UserCommandViewToggle(usize),
    CreateTag,
    DeleteTag,
    Refresh,
    Unknown,
}

/// Events that a numeric prefix repeats.
pub open spec fn countable(e: UserEvent) -> bool {
    match e {
        UserEvent::NavigateUp | UserEvent::NavigateDown | UserEvent::SelectUp | UserEvent::SelectDown
        | UserEvent::GoToParent | UserEvent::ScrollUp | UserEvent::ScrollDown | UserEvent::PageUp
        | UserEvent::PageDown | UserEvent::HalfPageUp | UserEvent::HalfPageDown => true,
        _ => false,
    }
}

impl UserEvent {
    /// Whether a numeric prefix repeats this event.
    pub fn is_countable(&self) -> (r: bool)
        ensures
            r == countable(*self),
    {
        match self {
            UserEvent::NavigateUp | UserEvent::NavigateDown | UserEvent::SelectUp | UserEvent::SelectDown
            | UserEvent::GoToParent | UserEvent::ScrollUp | UserEvent::ScrollDown | UserEvent::PageUp
            | UserEvent::PageDown | UserEvent::HalfPageUp | UserEvent::HalfPageDown => true,
            _ => false,
        }
    }
}

/// What a view asks the application to do after handling a key.
#[derive(Debug)]
pub enum AppEvent {
    Quit,
    OpenDetail,
    CloseDetail,
    ClearDetail,
    OpenRefs,
    CloseRefs,
    OpenHelp,
    CloseHelp,
    ClearHelp,
    CopyToClipboard { name: String, value: String },
    ClearStatusLine,
    /// The text of the input line, the cursor column and a notice to show
    /// beside it.
    UpdateStatusInput(String, Option<u16>, Option<String>),
    NotifyInfo(String),
    NotifySuccess(String),
    NotifyWarn(String),
    NotifyError(String),
    OpenUserCommand(usize),
    CloseUserCommand,
    OpenCreateTag,
    OpenDeleteTag,
    Refresh(crate::view::views::RefreshViewContext),
    SelectOlderCommit,
    SelectNewerCommit,
    SelectParentCommit,
    ShowPendingOverlay { message: String },
    HidePendingOverlay,
    CloseCreateTag,
    AddTagToCommit { commit_hash: crate::git::CommitHash, tag_name: String },
    CloseDeleteTag,
    RemoveTagFromCommit { commit_hash: crate::git::CommitHash, tag_name: String },
    CloseDeleteRef,
    RemoveRefFromList { ref_name: String },
}

/// An event together with how many times to apply it (at least once).
#[derive(Debug, Clone, Copy, PartialEq, Eq, Structural)]
pub struct UserEventWithCount {
    pub event: UserEvent,
    pub count: usize,
}

impl UserEventWithCount {
    /// A count of zero is taken as one.
    pub fn new(event: UserEvent, count: usize) -> (r: UserEventWithCount)
        ensures
            r.event == event,
            r.count == (if count == 0 { 1 } else { count }),
    {
        UserEventWithCount { event, count: if count == 0 { 1 } else { count } }
    }

    pub fn from_event(event: UserEvent) -> (r: UserEventWithCount)
        ensures
            r == (UserEventWithCount { event, count: 1 }),
    {
        Self::new(event, 1)
    }
}

/// Value of the decimal digit `c`.
pub open spec fn digit_value(c: char) -> int {
    c as int - '0' as int
}

pub open spec fn is_digit(c: char) -> bool {
    '0' <= c <= '9'
}

/// The number written by the digits `s` (most significant first).
pub open spec fn digits_value(s: Seq<char>) -> nat
    decreases s.len(),
{
    if s.len() == 0 {
        0
    } else {
        (digits_value(s.drop_last()) * 10 + digit_value(s.last())) as nat
    }
}

/// The `usize` written by `s` as `usize::from_str` reads it: an optional `+`
/// followed by at least one decimal digit, and no more than `usize::MAX`.
pub open spec fn parse_usize_spec(s: Seq<char>) -> Option<usize> {
    let d = unsigned_part(s);
    if d.len() > 0 && all_digits(d) && digits_value(d) <= usize::MAX {
        Some(digits_value(d) as usize)
    } else {
        None
    }
}

/// The `u64` written by `s` as `u64::from_str` reads it.
pub open spec fn parse_u64_spec(s: Seq<char>) -> Option<u64> {
    let d = unsigned_part(s);
    if d.len() > 0 && all_digits(d) && digits_value(d) <= u64::MAX {
        Some(digits_value(d) as u64)
    } else {
        None
    }
}

/// `s` without a leading `+`.
pub open spec fn unsigned_part(s: Seq<char>) -> Seq<char> {
    if s.len() > 0 && s[0] == '+' { s.skip(1) } else { s }
}

pub open spec fn all_digits(d: Seq<char>) -> bool {
    forall|i: int| 0 <= i < d.len() ==> is_digit(#[trigger] d[i])
}

proof fn lemma_digits_value_mono(s: Seq<char>, k: int)
    requires
        0 <= k <= s.len(),
        forall|i: int| 0 <= i < s.len() ==> is_digit(#[trigger] s[i]),
    ensures
        digits_value(s.take(k)) <= digits_value(s),
    decreases s.len() - k,
{
    if k < s.len() {
        lemma_digits_value_mono(s, k + 1);
        assert(s.take(k + 1).drop_last() == s.take(k));
    } else {
        assert(s.take(k) == s);
    }
}

proof fn lemma_parse_none(s: Seq<char>, d: Seq<char>)
    requires
        d == unsigned_part(s),
        !(forall|i: int| 0 <= i < d.len() ==> is_digit(#[trigger] d[i])) || digits_value(d) > usize::MAX,
    ensures
        parse_usize_spec(s) is None,
{
}

/// Parses a count the way `usize::from_str` does.
pub fn parse_usize(s: &str) -> (r: Option<usize>)
    ensures
        r == parse_usize_spec(s@),
{
    let cs = chars_of(s);
    let start: usize = if cs.len() > 0 && cs[0] == '+' { 1 } else { 0 };
    let ghost d = if cs@.len() > 0 && cs@[0] == '+' { cs@.skip(1) } else { cs@ };
    proof {
        assert(d == cs@.skip(start as int));
        assert(d == unsigned_part(s@));
    }
    if start >= cs.len() {
        return None;
    }
    let mut v: usize = 0;
    let mut i: usize = start;
    while i < cs.len()
        invariant
            start <= i <= cs@.len(),
            d == cs@.skip(start as int),
            d == unsigned_part(s@),
            v == digits_value(d.take(i - start)),
            forall|j: int| 0 <= j < i - start ==> is_digit(#[trigger] d[j]),
        decreases cs@.len() - i,
    {
        let c = cs[i];
        proof {
            assert(d.take(i - start + 1).drop_last() == d.take(i - start));
            assert(d[i - start] == c);
        }
        if !('0' <= c && c <= '9') {
            proof {
                assert(!is_digit(d[i - start]));
                assert(!(forall|j: int| 0 <= j < d.len() ==> is_digit(#[trigger] d[j])));
                lemma_parse_none(s@, d);
            }
            return None;
        }
        let dv = (c as u32 - '0' as u32) as usize;
        if v > (usize::MAX - dv) / 10 {
            proof {
                assert(forall|j: int| 0 <= j < i - start + 1 ==> is_digit(#[trigger] d[j]));
                assert(digits_value(d.take(i - start + 1)) > usize::MAX) by (nonlinear_arith)
                    requires
                        digits_value(d.take(i - start + 1)) == v * 10 + dv,
                        v > (usize::MAX - dv) / 10,
                        dv <= 9,
                ;
                if forall|j: int| 0 <= j < d.len() ==> is_digit(#[trigger] d[j]) {
                    lemma_digits_value_mono(d, i - start + 1);
                    assert(digits_value(d) > usize::MAX);
                }
                if forall|j: int| 0 <= j < d.len() ==> is_digit(#[trigger] d[j]) {
                    lemma_parse_none(s@, d);
                } else {
                    lemma_parse_none(s@, d);
                }
            }
            return None;
        }
        proof {
            assert(v * 10 + dv <= usize::MAX) by (nonlinear_arith)
                requires
                    v <= (usize::MAX - dv) / 10,
                    dv <= 9,
            ;
        }
        v = v * 10 + dv;
        i += 1;
    }
    proof {
        assert(d.take(i - start) == d);
    }
    Some(v)
}

proof fn lemma_parse_u64_none(s: Seq<char>, d: Seq<char>)
    requires
        d == unsigned_part(s),
        !(forall|i: int| 0 <= i < d.len() ==> is_digit(#[trigger] d[i])) || digits_value(d) > u64::MAX,
    ensures
        parse_u64_spec(s) is None,
{
}

/// Parses a number the way `u64::from_str` does.
pub fn parse_u64(s: &str) -> (r: Option<u64>)
    ensures
        r == parse_u64_spec(s@),
{
    let cs = chars_of(s);
    let start: usize = if cs.len() > 0 && cs[0] == '+' { 1 } else { 0 };
    let ghost d = if cs@.len() > 0 && cs@[0] == '+' { cs@.skip(1) } else { cs@ };
    proof {
        assert(d == cs@.skip(start as int));
        assert(d == unsigned_part(s@));
    }
    if start >= cs.len() {
        return None;
    }
    let mut v: u64 = 0;
    let mut i: usize = start;
    while i < cs.len()
        invariant
            start <= i <= cs@.len(),
            d == cs@.skip(start as int),
            d == unsigned_part(s@),
            v == digits_value(d.take(i - start)),
            forall|j: int| 0 <= j < i - start ==> is_digit(#[trigger] d[j]),
        decreases cs@.len() - i,
    {
        let c = cs[i];
        proof {
            assert(d.take(i - start + 1).drop_last() == d.take(i - start));
            assert(d[i - start] == c);
        }
        if !('0' <= c && c <= '9') {
            proof {
                assert(!is_digit(d[i - start]));
                assert(!(forall|j: int| 0 <= j < d.len() ==> is_digit(#[trigger] d[j])));
                lemma_parse_u64_none(s@, d);
            }
            return None;
        }
        let dv = (c as u32 - '0' as u32) as u64;
        if v > (u64::MAX - dv) / 10 {
            proof {
                assert(forall|j: int| 0 <= j < i - start + 1 ==> is_digit(#[trigger] d[j]));
                assert(digits_value(d.take(i - start + 1)) > u64::MAX) by (nonlinear_arith)
                    requires
                        digits_value(d.take(i - start + 1)) == v * 10 + dv,
                        v > (u64::MAX - dv) / 10,
                        dv <= 9,
                ;
                if forall|j: int| 0 <= j < d.len() ==> is_digit(#[trigger] d[j]) {
                    lemma_digits_value_mono(d, i - start + 1);
                    assert(digits_value(d) > u64::MAX);
                }
                if forall|j: int| 0 <= j < d.len() ==> is_digit(#[trigger] d[j]) {
                    lemma_parse_u64_none(s@, d);
                } else {
                    lemma_parse_u64_none(s@, d);
                }
            }
            return None;
        }
        proof {
            assert(v * 10 + dv <= u64::MAX) by (nonlinear_arith)
                requires
                    v <= (u64::MAX - dv) / 10,
                    dv <= 9,
            ;
        }
        v = v * 10 + dv;
        i += 1;
    }
    proof {
        assert(d.take(i - start) == d);
    }
    Some(v)
}

/// The event to dispatch for a key bound to `user_event` after the digits
/// `numeric_prefix` were typed: countable events are repeated by the number
/// written by the prefix (once when it is empty, unreadable or zero).
pub fn process_numeric_prefix(numeric_prefix: &str, user_event: UserEvent) -> (r: UserEventWithCount)
    ensures
        r.event == user_event,
        r.count == (if countable(user_event) && numeric_prefix@.len() > 0 {
            match parse_usize_spec(numeric_prefix@) {
                Some(n) => if n == 0 { 1 } else { n },
                None => 1,
            }
        } else {
            1
        }),
{
    if user_event.is_countable() {
        let count = if numeric_prefix.is_empty() {
            1
        } else {
            match parse_usize(numeric_prefix) {
                Some(n) => n,
                None => 1,
            }
        };
        UserEventWithCount::new(user_event, count)
    } else {
        UserEventWithCount::from_event(user_event)
    }
}

/// Whether typing `c` extends a numeric prefix: a digit, but not a leading zero.
pub fn is_valid_numeric_prefix_char(c: char, current_prefix: &str) -> (r: bool)
    ensures
        r == (is_digit(c) && (c != '0' || current_prefix@.len() > 0)),
{
    ('0' <= c && c <= '9') && (c != '0' || !current_prefix.is_empty())
}

/// The numeric prefix after typing `inputs` from an empty prefix: digits are
/// collected until the first character that cannot extend the prefix.
pub open spec fn numeric_prefix_of(inputs: Seq<char>) -> Seq<char>
    decreases inputs.len(),
{
    if inputs.len() == 0 {
        Seq::empty()
    } else {
        let p = numeric_prefix_of(inputs.drop_last());
        let c = inputs.last();
        if p.len() == inputs.len() - 1 && is_digit(c) && (c != '0' || p.len() > 0) {
            p.push(c)
        } else {
            p
        }
    }
}

/// Collects the numeric prefix typed as `inputs`, stopping at the first
/// character that cannot extend it.
pub fn simulate_numeric_input(inputs: &[char]) -> (prefix: String)
    ensures
        prefix@ == numeric_prefix_of(inputs@),
{
    let mut prefix = String::new();
    let mut i: usize = 0;
    let mut stopped = false;
    while i < inputs.len()
        invariant
            i <= inputs@.len(),
            prefix@ == numeric_prefix_of(inputs@.take(i as int)),
            !stopped ==> prefix@.len() == i,
            stopped ==> prefix@.len() < i,
        decreases inputs@.len() - i,
    {
        let c = inputs[i];
        proof {
            assert(inputs@.take(i + 1).drop_last() == inputs@.take(i as int));
        }
        if !stopped && is_valid_numeric_prefix_char(c, prefix.as_str()) {
            push_char(&mut prefix, c);
        } else {
            stopped = true;
        }
        i += 1;
    }
    proof {
        assert(inputs@.take(i as int) == inputs@);
    }
    prefix
}

/// How the status line stands when a key arrives.
#[derive(Debug, Clone, Copy, PartialEq, Eq, Structural)]
pub enum StatusLineKind {
    Empty,
    Input,
    Info,
    Success,
    Warn,
    Error,
}

/// What the application does with a key press.
#[derive(Debug, Clone, Copy, PartialEq, Eq, Structural)]
pub enum KeyAction {
    /// Nothing more happens.
    Ignore,
    /// Quit immediately.
    Quit,
    /// Hand the event to the current view.
    Dispatch(UserEventWithCount),
}

/// The decision taken for one key press.
pub struct KeyOutcome {
    /// The notification on the status line is cleared.
    pub clear_status: bool,
    /// The numeric prefix afterwards.
    pub prefix: String,
    pub action: KeyAction,
}

/// Handles a key press. A notification is cleared by any key; an error
/// notification also swallows the key. With a numeric prefix pending, `Cancel`
/// drops the prefix. A bound key is dispatched with the prefix as its count
/// and clears the prefix (`ForceQuit` quits at once). An unbound key goes to
/// the input line when one is open, and otherwise extends the prefix if it is a
/// digit that may extend it.
pub fn handle_key(
    status: StatusLineKind,
    prefix: &str,
    user_event: Option<UserEvent>,
    key_char: Option<char>,
) -> (r: KeyOutcome)
    ensures
        r.clear_status == (status == StatusLineKind::Info || status == StatusLineKind::Success || status
            == StatusLineKind::Warn || status == StatusLineKind::Error),
        status == StatusLineKind::Error ==> r.action == KeyAction::Ignore && r.prefix@ == prefix@,
        status != StatusLineKind::Error ==> match user_event {
            Some(UserEvent::Cancel) if prefix@.len() > 0 => r.action == KeyAction::Ignore && r.prefix@.len() == 0,
            Some(UserEvent::ForceQuit) => r.action == KeyAction::Quit && r.prefix@ == prefix@,
            Some(ue) => r.action == KeyAction::Dispatch(process_numeric_prefix_spec(prefix@, ue))
                && r.prefix@.len() == 0,
            None => if status == StatusLineKind::Input {
                r.action == KeyAction::Dispatch(UserEventWithCount { event: UserEvent::Unknown, count: 1 })
                    && r.prefix@.len() == 0
            } else {
                r.action == KeyAction::Ignore && (match key_char {
                    Some(c) => if is_digit(c) && (c != '0' || prefix@.len() > 0) {
                        r.prefix@ == prefix@.push(c)
                    } else {
                        r.prefix@ == prefix@
                    },
                    None => r.prefix@ == prefix@,
                })
            },
        },
{
    let clear_status = match status {
        StatusLineKind::Info | StatusLineKind::Success | StatusLineKind::Warn | StatusLineKind::Error => true,
        _ => false,
    };
    if let StatusLineKind::Error = status {
        return KeyOutcome { clear_status, prefix: String::from_str(prefix), action: KeyAction::Ignore };
    }
    match user_event {
        Some(UserEvent::Cancel) if !prefix.is_empty() => {
            KeyOutcome { clear_status, prefix: String::new(), action: KeyAction::Ignore }
        },
        Some(UserEvent::ForceQuit) => {
            KeyOutcome { clear_status, prefix: String::from_str(prefix), action: KeyAction::Quit }
        },
        Some(ue) => {
            let e = process_numeric_prefix(prefix, ue);
            KeyOutcome { clear_status, prefix: String::new(), action: KeyAction::Dispatch(e) }
        },
        None => {
            if let StatusLineKind::Input = status {
                KeyOutcome {
                    clear_status,
                    prefix: String::new(),
                    action: KeyAction::Dispatch(UserEventWithCount::from_event(UserEvent::Unknown)),
                }
            } else {
                let mut p = String::from_str(prefix);
                if let Some(c) = key_char {
                    if is_valid_numeric_prefix_char(c, prefix) {
                        push_char(&mut p, c);
                    }
                }
                KeyOutcome { clear_status, prefix: p, action: KeyAction::Ignore }
            }
        },
    }
}

/// The event `process_numeric_prefix` returns.
pub open spec fn process_numeric_prefix_spec(prefix: Seq<char>, ue: UserEvent) -> UserEventWithCount {
    UserEventWithCount {
        event: ue,
        count: if countable(ue) && prefix.len() > 0 {
            match parse_usize_spec(prefix) {
                Some(n) => if n == 0 { 1 } else { n },
                None => 1,
            }
        } else {
            1
        },
    }
}

/// The name a key binding file gives an event (`navigate_down`, ...); the
/// user command toggles are named by their number instead.
pub open spec fn fixed_event_name(e: UserEvent) -> Option<Seq<char>> {
    match e {
        UserEvent::ForceQuit => Some("force_quit"@),
        UserEvent::Quit => Some("quit"@),
        UserEvent::HelpToggle => Some("help_toggle"@),
        UserEvent::Cancel => Some("cancel"@),
        UserEvent::Close => Some("close"@),
        UserEvent::NavigateUp => Some("navigate_up"@),
        UserEvent::NavigateDown => Some("navigate_down"@),
        UserEvent::NavigateRight => Some("navigate_right"@),
        UserEvent::NavigateLeft => Some("navigate_left"@),
        UserEvent::SelectUp => Some("select_up"@),
        UserEvent::SelectDown => Some("select_down"@),
        UserEvent::GoToTop => Some("go_to_top"@),
        UserEvent::GoToBottom => Some("go_to_bottom"@),
        UserEvent::GoToParent => Some("go_to_parent"@),
        UserEvent::ScrollUp => Some("scroll_up"@),
        UserEvent::ScrollDown => Some("scroll_down"@),
        UserEvent::PageUp => Some("page_up"@),
        UserEvent::PageDown => Some("page_down"@),
        UserEvent::HalfPageUp => Some("half_page_up"@),
        UserEvent::HalfPageDown => Some("half_page_down"@),
        UserEvent::SelectTop => Some("select_top"@),
        UserEvent::SelectMiddle => Some("select_middle"@),
        UserEvent::SelectBottom => Some("select_bottom"@),
        UserEvent::GoToNext => Some("go_to_next"@),
        UserEvent::GoToPrevious => Some("go_to_previous"@),
        UserEvent::Confirm => Some("confirm"@),
        UserEvent::RefListToggle => Some("ref_list_toggle"@),
        UserEvent::Search => Some("search"@),
        UserEvent::Filter => Some("filter"@),
        UserEvent::IgnoreCaseToggle => Some("ignore_case_toggle"@),
        UserEvent::FuzzyToggle => Some("fuzzy_toggle"@),
        UserEvent::ShortCopy => Some("short_copy"@),
        UserEvent::FullCopy => Some("full_copy"@),
        UserEvent::CreateTag => Some("create_tag"@),
        UserEvent::DeleteTag => Some("delete_tag"@),
        UserEvent::Refresh => Some("refresh"@),
        UserEvent::Unknown => Some("unknown"@),
        UserEvent::UserCommandViewToggle(_) => None,
    }
}

pub open spec fn toggle_name_prefix() -> Seq<char> {
    "user_command_view_toggle_"@
}

/// The event a key binding file names `name`: one of the fixed names, or
/// `user_command_view_toggle_` followed by the command's number.
pub fn user_event_from_name(name: &str) -> (r: Option<UserEvent>)
    ensures
        match r {
            Some(UserEvent::UserCommandViewToggle(n)) => crate::text::starts_with(name@, toggle_name_prefix())
                && parse_usize_spec(name@.skip(toggle_name_prefix().len() as int)) == Some(n),
            Some(e) => fixed_event_name(e) == Some(name@),
            None => (forall|e: UserEvent| #[trigger] fixed_event_name(e) != Some(name@)) && !(
            crate::text::starts_with(name@, toggle_name_prefix()) && parse_usize_spec(
                name@.skip(toggle_name_prefix().len() as int),
            ) is Some),
        },
{
    if crate::text::str_eq(name, "force_quit") {
        return Some(UserEvent::ForceQuit);
    }
    if crate::text::str_eq(name, "quit") {
        return Some(UserEvent::Quit);
    }
    if crate::text::str_eq(name, "help_toggle") {
        return Some(UserEvent::HelpToggle);
    }
    if crate::text::str_eq(name, "cancel") {
        return Some(UserEvent::Cancel);
    }
    if crate::text::str_eq(name, "close") {
        return Some(UserEvent::Close);
    }
    if crate::text::str_eq(name, "navigate_up") {
        return Some(UserEvent::NavigateUp);
    }
    if crate::text::str_eq(name, "navigate_down") {
        return Some(UserEvent::NavigateDown);
    }
    if crate::text::str_eq(name, "navigate_right") {
        return Some(UserEvent::NavigateRight);
    }
    if crate::text::str_eq(name, "navigate_left") {
        return Some(UserEvent::NavigateLeft);
    }
    if crate::text::str_eq(name, "select_up") {
        return Some(UserEvent::SelectUp);
    }
    if crate::text::str_eq(name, "select_down") {
        return Some(UserEvent::SelectDown);
    }
    if crate::text::str_eq(name, "go_to_top") {
        return Some(UserEvent::GoToTop);
    }
    if crate::text::str_eq(name, "go_to_bottom") {
        return Some(UserEvent::GoToBottom);
    }
    if crate::text::str_eq(name, "go_to_parent") {
        return Some(UserEvent::GoToParent);
    }
    if crate::text::str_eq(name, "scroll_up") {
        return Some(UserEvent::ScrollUp);
    }
    if crate::text::str_eq(name, "scroll_down") {
        return Some(UserEvent::ScrollDown);
    }
    if crate::text::str_eq(name, "page_up") {
        return Some(UserEvent::PageUp);
    }
    if crate::text::str_eq(name, "page_down") {
        return Some(UserEvent::PageDown);
    }
    if crate::text::str_eq(name, "half_page_up") {
        return Some(UserEvent::HalfPageUp);
    }
    if crate::text::str_eq(name, "half_page_down") {
        return Some(UserEvent::HalfPageDown);
    }
    if crate::text::str_eq(name, "select_top") {
        return Some(UserEvent::SelectTop);
    }
    if crate::text::str_eq(name, "select_middle") {
        return Some(UserEvent::SelectMiddle);
    }
    if crate::text::str_eq(name, "select_bottom") {
        return Some(UserEvent::SelectBottom);
    }
    if crate::text::str_eq(name, "go_to_next") {
        return Some(UserEvent::GoToNext);
    }
    if crate::text::str_eq(name, "go_to_previous") {
        return Some(UserEvent::GoToPrevious);
    }
    if crate::text::str_eq(name, "confirm") {
        return Some(UserEvent::Confirm);
    }
    if crate::text::str_eq(name, "ref_list_toggle") {
        return Some(UserEvent::RefListToggle);
    }
    if crate::text::str_eq(name, "search") {
        return Some(UserEvent::Search);
    }
    if crate::text::str_eq(name, "filter") {
        return Some(UserEvent::Filter);
    }
    if crate::text::str_eq(name, "ignore_case_toggle") {
        return Some(UserEvent::IgnoreCaseToggle);
    }
    if crate::text::str_eq(name, "fuzzy_toggle") {
        return Some(UserEvent::FuzzyToggle);
    }
    if crate::text::str_eq(name, "short_copy") {
        return Some(UserEvent::ShortCopy);
    }
    if crate::text::str_eq(name, "full_copy") {
        return Some(UserEvent::FullCopy);
    }
    if crate::text::str_eq(name, "create_tag") {
        return Some(UserEvent::CreateTag);
    }
    if crate::text::str_eq(name, "delete_tag") {
        return Some(UserEvent::DeleteTag);
    }
    if crate::text::str_eq(name, "refresh") {
        return Some(UserEvent::Refresh);
    }
    if crate::text::str_eq(name, "unknown") {
        return Some(UserEvent::Unknown);
    }
    let chars = chars_of(name);
    let prefix = chars_of("user_command_view_toggle_");
    proof {
        assert(chars@.skip(0) == chars@);
    }
    if prefix.len() <= chars.len() && crate::text::matches_at(&chars, 0, &prefix) {
        let rest = crate::text::slice_chars(&chars, prefix.len(), chars.len());
        let rest_text = crate::text::string_from_chars(&rest);
        proof {
            assert(chars@.subrange(prefix@.len() as int, chars@.len() as int) == name@.skip(prefix@.len() as int));
        }
        match parse_usize(rest_text.as_str()) {
            Some(n) => {
                return Some(UserEvent::UserCommandViewToggle(n));
            },
            None => {},
        }
    }
    None
}

} // verus!
