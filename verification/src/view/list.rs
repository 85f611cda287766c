use vstd::prelude::*;

use crate::event::{AppEvent, UserEvent, UserEventWithCount};
use crate::git::{prefix_upto, CommitHash, Ref};
use crate::view::views::RefreshViewContext;
use crate::widget::commit_list::{
    apply_search_step, applied_message, cancel_search_step, handle_search_input_step, iterate, next_fn,
    parent_fn, prev_fn, ref_added, ref_removed, scroll_down_by_fn, scroll_down_fn, scroll_up_by_fn, scroll_up_fn,
    select_next_match_step, select_prev_match_step, start_search_step, toggle_fuzzy_step,
    toggle_ignore_case_step, transient_text, CommitListState, Pos, SearchState,
};

verus! {

/// The events that show the query being typed: the input line `/query` with
/// its cursor and any notice; none when no search is being typed.
pub open spec fn query_events(s: CommitListState, cursor: u16, ev: Seq<AppEvent>) -> bool {
    if s.search() is Searching {
        &&& ev.len() == 1
        &&& ev[0] matches AppEvent::UpdateStatusInput(q, c, t) && q@ == seq!['/'] + s.query() && c == Some(
            (cursor + 1) as u16,
        ) && match (t, s.search()) {
            (Some(x), SearchState::Searching { transient_message, .. }) => transient_text(transient_message)
                == Some(x@),
            (None, SearchState::Searching { transient_message, .. }) => transient_text(transient_message) is None,
            _ => false,
        }
    } else {
        ev.len() == 0
    }
}

/// The event that reports the applied search: how many commits matched, as
/// information when some did and as a warning when none did; the status
/// line is cleared when no search is applied.
pub open spec fn matched_events(s: CommitListState, ev: Seq<AppEvent>) -> bool {
    &&& ev.len() == 1
    &&& match s.search() {
        SearchState::Applied { match_index, total_match } => {
            let (m, ok) = applied_message(match_index, total_match, s.query());
            if ok {
                ev[0] matches AppEvent::NotifyInfo(x) && x@ == m
            } else {
                ev[0] matches AppEvent::NotifyWarn(x) && x@ == m
            }
        },
        _ => ev[0] is ClearStatusLine,
    }
}

/// `t` is `s` moved by `n` applications of `f`.
pub open spec fn moved(s: CommitListState, t: CommitListState, f: spec_fn(Pos) -> Pos, n: usize) -> bool {
    t.same_but_selection(&s) && t.pos() == iterate(f, s.pos(), n as nat)
}

/// The single event `e`.
pub open spec fn only(ev: Seq<AppEvent>, e: AppEvent) -> bool {
    ev.len() == 1 && ev[0] == e
}

/// What a key does to the list when no search is being typed.
pub open spec fn list_normal_step(s: CommitListState, t: CommitListState, e: UserEventWithCount, cursor: u16, ev: Seq<AppEvent>) -> bool {
    let n = e.count;
    let total = s.total();
    let height = s.height();
    match e.event {
        UserEvent::Quit => t == s && only(ev, AppEvent::Quit),
        UserEvent::NavigateDown | UserEvent::SelectDown => moved(s, t, next_fn(total, height), n) && ev.len() == 0,
        UserEvent::NavigateUp | UserEvent::SelectUp => moved(s, t, prev_fn(), n) && ev.len() == 0,
        UserEvent::GoToParent => moved(s, t, parent_fn(s.commits_spec(), total, height), n) && ev.len() == 0,
        UserEvent::GoToTop => t.same_but_selection(&s) && t.pos() == (0usize, 0usize) && ev.len() == 0,
        UserEvent::GoToBottom => t.same_but_selection(&s) && t.selected() == crate::padding::min_int(
            height - 1,
            total - 1,
        ) && t.offset() == (if height < total {
            total - height
        } else {
            s.offset() as int
        }) && ev.len() == 0,
        UserEvent::ScrollDown => moved(s, t, scroll_down_fn(total, height), n) && ev.len() == 0,
        UserEvent::ScrollUp => moved(s, t, scroll_up_fn(height), n) && ev.len() == 0,
        UserEvent::PageDown => moved(s, t, scroll_down_by_fn(total, height, height as int), n) && ev.len() == 0,
        UserEvent::PageUp => moved(s, t, scroll_up_by_fn(height as int), n) && ev.len() == 0,
        UserEvent::HalfPageDown => moved(s, t, scroll_down_by_fn(total, height, height as int / 2), n) && ev.len()
            == 0,
        UserEvent::HalfPageUp => moved(s, t, scroll_up_by_fn(height as int / 2), n) && ev.len() == 0,
        UserEvent::SelectTop => t.same_but_selection(&s) && t.pos() == (0usize, s.offset()) && ev.len() == 0,
        UserEvent::SelectMiddle => t.same_but_selection(&s) && t.offset() == s.offset() && t.selected() == (if total
            > height {
            height / 2
        } else {
            total / 2
        }) && ev.len() == 0,
        UserEvent::SelectBottom => t.same_but_selection(&s) && t.offset() == s.offset() && t.selected() == (if total
            > height {
            height - 1
        } else {
            total - 1
        }) && ev.len() == 0,
        UserEvent::ShortCopy => t == s && ev.len() == 1 && (ev[0] matches AppEvent::CopyToClipboard { name, value }
            && name@ == "Commit SHA (short)"@ && value@ == prefix_upto(s.hash_at(s.index()), 7)),
        UserEvent::FullCopy => t == s && ev.len() == 1 && (ev[0] matches AppEvent::CopyToClipboard { name, value }
            && name@ == "Commit SHA"@ && value@ == s.hash_at(s.index())),
        UserEvent::Search => start_search_step(s, t) && query_events(t, cursor, ev),
        UserEvent::UserCommandViewToggle(k) => t == s && only(ev, AppEvent::OpenUserCommand(k)),
        UserEvent::HelpToggle => t == s && only(ev, AppEvent::OpenHelp),
        UserEvent::Cancel => cancel_search_step(s, t) && ev.len() == 1 && ev[0] is ClearStatusLine,
        UserEvent::Confirm => t == s && only(ev, AppEvent::OpenDetail),
        UserEvent::RefListToggle => t == s && only(ev, AppEvent::OpenRefs),
        UserEvent::CreateTag => t == s && only(ev, AppEvent::OpenCreateTag),
        UserEvent::DeleteTag => t == s && only(ev, AppEvent::OpenDeleteTag),
        UserEvent::Refresh => t == s && only(ev, AppEvent::Refresh(RefreshViewContext::List)),
        UserEvent::GoToNext => if s.search() is Applied {
            select_next_match_step(s, t) && matched_events(t, ev)
        } else {
            t == s && ev.len() == 0
        },
        UserEvent::GoToPrevious => if s.search() is Applied {
            select_prev_match_step(s, t) && matched_events(t, ev)
        } else {
            t == s && ev.len() == 0
        },
        _ => t == s && ev.len() == 0,
    }
}

/// What a key does to the list while a search is being typed: Enter applies
/// it, Esc leaves it, the two option keys toggle their option, and any other
/// key edits the query (`input` is the query after the key).
pub open spec fn list_search_step(
    s: CommitListState,
    t: CommitListState,
    e: UserEventWithCount,
    input: Seq<char>,
    cursor: u16,
    ev: Seq<AppEvent>,
) -> bool {
    match e.event {
        UserEvent::Confirm => apply_search_step(s, t) && matched_events(t, ev),
        UserEvent::Cancel => cancel_search_step(s, t) && ev.len() == 1 && ev[0] is ClearStatusLine,
        UserEvent::IgnoreCaseToggle => toggle_ignore_case_step(s, t) && query_events(t, cursor, ev),
        UserEvent::FuzzyToggle => toggle_fuzzy_step(s, t) && query_events(t, cursor, ev),
        _ => handle_search_input_step(s, t, input) && query_events(t, cursor, ev),
    }
}

/// The commit list view.
#[derive(Debug)]
pub struct ListView {
    commit_list_state: Option<CommitListState>,
}

impl ListView {
    pub closed spec fn state(&self) -> Option<CommitListState> {
        self.commit_list_state
    }

    pub fn new(commit_list_state: CommitListState) -> (v: ListView)
        ensures
            v.state() == Some(commit_list_state),
    {
        ListView { commit_list_state: Some(commit_list_state) }
    }

    /// Hands the list state over to another view.
    pub fn take_list_state(&mut self) -> (r: Option<CommitListState>)
        ensures
            r == old(self).state(),
            final(self).state() is None,
    {
        self.commit_list_state.take()
    }

    /// The list state, while the view holds it.
    pub fn list_state(&self) -> (r: Option<&CommitListState>)
        ensures
            match (r, self.state()) {
                (Some(a), Some(b)) => *a == b,
                (None, None) => true,
                _ => false,
            },
    {
        match &self.commit_list_state {
            Some(s) => Some(s),
            None => None,
        }
    }

    /// The list state, for fitting it to the screen before drawing.
    pub fn list_state_mut(&mut self) -> (r: Option<&mut CommitListState>)
        ensures
            match (r, old(self).state()) {
                (Some(a), Some(b)) => *a == b && final(self).state() == Some(*final(a)),
                (None, None) => final(self).state() is None,
                _ => false,
            },
    {
        match &mut self.commit_list_state {
            Some(s) => Some(s),
            None => None,
        }
    }

    /// Handles a key (`input` is the search query after the key, `cursor`
    /// the column of the input cursor). Returns what the application must do.
    pub fn handle_event(&mut self, event_with_count: UserEventWithCount, input: &str, cursor: u16) -> (ev: Vec<AppEvent>)
        requires
            old(self).state() matches Some(s) ==> s.wf() && s.nav_ok() && s.total() + 2 * s.height() <= usize::MAX,
            cursor < u16::MAX,
            event_with_count.count >= 1,
        ensures
            match (old(self).state(), final(self).state()) {
                (Some(s), Some(t)) => if s.search() is Searching {
                    list_search_step(s, t, event_with_count, input@, cursor, ev@)
                } else {
                    list_normal_step(s, t, event_with_count, cursor, ev@)
                },
                (None, None) => ev@.len() == 0,
                _ => false,
            },
    {
        let mut ev: Vec<AppEvent> = Vec::new();
        match &mut self.commit_list_state {
            None => ev,
            Some(s) => {
                let searching = match s.search_state() {
                    SearchState::Searching { .. } => true,
                    _ => false,
                };
                if searching {
                    handle_search_key(s, event_with_count.event, input, cursor)
                } else {
                    handle_normal_key(s, event_with_count, cursor)
                }
            },
        }
    }

    pub fn add_ref_to_commit(&mut self, commit_hash: &CommitHash, new_ref: Ref)
        requires
            old(self).state() matches Some(s) ==> s.wf(),
        ensures
            match (old(self).state(), final(self).state()) {
                (Some(s), Some(t)) => ref_added(s, t, commit_hash@, new_ref),
                (None, None) => true,
                _ => false,
            },
    {
        match &mut self.commit_list_state {
            Some(s) => s.add_ref_to_commit(commit_hash, new_ref),
            None => {},
        }
    }

    pub fn remove_ref_from_commit(&mut self, commit_hash: &CommitHash, tag_name: &str)
        requires
            old(self).state() matches Some(s) ==> s.wf(),
        ensures
            match (old(self).state(), final(self).state()) {
                (Some(s), Some(t)) => ref_removed(s, t, commit_hash@, tag_name@),
                (None, None) => true,
                _ => false,
            },
    {
        match &mut self.commit_list_state {
            Some(s) => s.remove_ref_from_commit(commit_hash, tag_name),
            None => {},
        }
    }
}

/// The input-line event for the query being typed.
fn query_event(s: &CommitListState, cursor: u16) -> (ev: Vec<AppEvent>)
    requires
        cursor < u16::MAX,
    ensures
        query_events(*s, cursor, ev@),
{
    let mut ev: Vec<AppEvent> = Vec::new();
    match s.search_query_string() {
        Some(q) => {
            let t = s.transient_message_string();
            ev.push(AppEvent::UpdateStatusInput(q, Some(cursor + 1), t));
        },
        None => {},
    }
    ev
}

/// The event reporting the applied search.
fn matched_event(s: &CommitListState) -> (ev: Vec<AppEvent>)
    ensures
        matched_events(*s, ev@),
{
    let mut ev: Vec<AppEvent> = Vec::new();
    match s.matched_query_string() {
        Some((msg, ok)) => {
            if ok {
                ev.push(AppEvent::NotifyInfo(msg));
            } else {
                ev.push(AppEvent::NotifyWarn(msg));
            }
        },
        None => {
            ev.push(AppEvent::ClearStatusLine);
        },
    }
    ev
}

fn handle_search_key(s: &mut CommitListState, event: UserEvent, input: &str, cursor: u16) -> (ev: Vec<AppEvent>)
    requires
        old(s).wf(),
        old(s).search() is Searching,
        cursor < u16::MAX,
    ensures
        list_search_step(*old(s), *final(s), UserEventWithCount { event, count: 1 }, input@, cursor, ev@),
        forall|n: usize| list_search_step(*old(s), *final(s), UserEventWithCount { event, count: n }, input@, cursor, ev@),
{
    match event {
        UserEvent::Confirm => {
            s.apply_search();
            matched_event(s)
        },
        UserEvent::Cancel => {
            s.cancel_search();
            let mut ev: Vec<AppEvent> = Vec::new();
            ev.push(AppEvent::ClearStatusLine);
            ev
        },
        UserEvent::IgnoreCaseToggle => {
            s.toggle_ignore_case();
            query_event(s, cursor)
        },
        UserEvent::FuzzyToggle => {
            s.toggle_fuzzy();
            query_event(s, cursor)
        },
        _ => {
            s.handle_search_input(input);
            query_event(s, cursor)
        },
    }
}

/// Applies `select_next` `n` times.
fn repeat_next(s: &mut CommitListState, n: usize)
    requires
        old(s).wf(),
        old(s).nav_ok(),
        old(s).total() + 2 * old(s).height() <= usize::MAX,
    ensures
        final(s).wf(),
        final(s).nav_ok(),
        moved(*old(s), *final(s), next_fn(old(s).total(), old(s).height()), n),
{
    let ghost o = *s;
    let ghost f = next_fn(old(s).total(), old(s).height());
    let mut i: usize = 0;
    while i < n
        invariant
            i <= n,
            s.wf(),
            s.nav_ok(),
            s.same_but_selection(&o),
            o.total() + 2 * o.height() <= usize::MAX,
            f == next_fn(o.total(), o.height()),
            s.pos() == iterate(f, o.pos(), i as nat),
        decreases n - i,
    {
        let ghost before = s.pos();
        
        s.select_next();
        proof {
            assert(s.pos() == f(before));
        }
        i += 1;
    }
}

/// Applies `select_prev` `n` times.
fn repeat_prev(s: &mut CommitListState, n: usize)
    requires
        old(s).wf(),
        old(s).nav_ok(),
        old(s).total() + 2 * old(s).height() <= usize::MAX,
    ensures
        final(s).wf(),
        final(s).nav_ok(),
        moved(*old(s), *final(s), prev_fn(), n),
{
    let ghost o = *s;
    let ghost f = prev_fn();
    let mut i: usize = 0;
    while i < n
        invariant
            i <= n,
            s.wf(),
            s.nav_ok(),
            s.same_but_selection(&o),
            o.total() + 2 * o.height() <= usize::MAX,
            f == prev_fn(),
            s.pos() == iterate(f, o.pos(), i as nat),
        decreases n - i,
    {
        let ghost before = s.pos();
        
        s.select_prev();
        proof {
            assert(s.pos() == f(before));
        }
        i += 1;
    }
}

/// Applies `select_parent` `n` times.
fn repeat_parent(s: &mut CommitListState, n: usize)
    requires
        old(s).wf(),
        old(s).nav_ok(),
        old(s).total() + 2 * old(s).height() <= usize::MAX,
    ensures
        final(s).wf(),
        final(s).nav_ok(),
        moved(*old(s), *final(s), parent_fn(old(s).commits_spec(), old(s).total(), old(s).height()), n),
{
    let ghost o = *s;
    let ghost f = parent_fn(old(s).commits_spec(), old(s).total(), old(s).height());
    let mut i: usize = 0;
    while i < n
        invariant
            i <= n,
            s.wf(),
            s.nav_ok(),
            s.same_but_selection(&o),
            o.total() + 2 * o.height() <= usize::MAX,
            f == parent_fn(o.commits_spec(), o.total(), o.height()),
            s.pos() == iterate(f, o.pos(), i as nat),
        decreases n - i,
    {
        let ghost before = s.pos();
        
        s.select_parent();
        proof {
            assert(s.pos() == f(before));
        }
        i += 1;
    }
}

/// Applies `scroll_down` `n` times.
fn repeat_scroll_down(s: &mut CommitListState, n: usize)
    requires
        old(s).wf(),
        old(s).nav_ok(),
        old(s).total() + 2 * old(s).height() <= usize::MAX,
    ensures
        final(s).wf(),
        final(s).nav_ok(),
        moved(*old(s), *final(s), scroll_down_fn(old(s).total(), old(s).height()), n),
{
    let ghost o = *s;
    let ghost f = scroll_down_fn(old(s).total(), old(s).height());
    let mut i: usize = 0;
    while i < n
        invariant
            i <= n,
            s.wf(),
            s.nav_ok(),
            s.same_but_selection(&o),
            o.total() + 2 * o.height() <= usize::MAX,
            f == scroll_down_fn(o.total(), o.height()),
            s.pos() == iterate(f, o.pos(), i as nat),
        decreases n - i,
    {
        let ghost before = s.pos();
        
        s.scroll_down();
        proof {
            assert(s.pos() == f(before));
        }
        i += 1;
    }
}

/// Applies `scroll_up` `n` times.
fn repeat_scroll_up(s: &mut CommitListState, n: usize)
    requires
        old(s).wf(),
        old(s).nav_ok(),
        old(s).total() + 2 * old(s).height() <= usize::MAX,
    ensures
        final(s).wf(),
        final(s).nav_ok(),
        moved(*old(s), *final(s), scroll_up_fn(old(s).height()), n),
{
    let ghost o = *s;
    let ghost f = scroll_up_fn(old(s).height());
    let mut i: usize = 0;
    while i < n
        invariant
            i <= n,
            s.wf(),
            s.nav_ok(),
            s.same_but_selection(&o),
            o.total() + 2 * o.height() <= usize::MAX,
            f == scroll_up_fn(o.height()),
            s.pos() == iterate(f, o.pos(), i as nat),
        decreases n - i,
    {
        let ghost before = s.pos();
        
        s.scroll_up();
        proof {
            assert(s.pos() == f(before));
        }
        i += 1;
    }
}

/// Applies `scroll_down_page` `n` times.
fn repeat_page_down(s: &mut CommitListState, n: usize)
    requires
        old(s).wf(),
        old(s).nav_ok(),
        old(s).total() + 2 * old(s).height() <= usize::MAX,
    ensures
        final(s).wf(),
        final(s).nav_ok(),
        moved(*old(s), *final(s), scroll_down_by_fn(old(s).total(), old(s).height(), old(s).height() as int), n),
{
    let ghost o = *s;
    let ghost f = scroll_down_by_fn(old(s).total(), old(s).height(), old(s).height() as int);
    let mut i: usize = 0;
    while i < n
        invariant
            i <= n,
            s.wf(),
            s.nav_ok(),
            s.same_but_selection(&o),
            o.total() + 2 * o.height() <= usize::MAX,
            f == scroll_down_by_fn(o.total(), o.height(), o.height() as int),
            s.pos() == iterate(f, o.pos(), i as nat),
        decreases n - i,
    {
        let ghost before = s.pos();
        
        s.scroll_down_page();
        proof {
            assert(s.pos() == f(before));
        }
        i += 1;
    }
}

/// Applies `scroll_up_page` `n` times.
fn repeat_page_up(s: &mut CommitListState, n: usize)
    requires
        old(s).wf(),
        old(s).nav_ok(),
        old(s).total() + 2 * old(s).height() <= usize::MAX,
    ensures
        final(s).wf(),
        final(s).nav_ok(),
        moved(*old(s), *final(s), scroll_up_by_fn(old(s).height() as int), n),
{
    let ghost o = *s;
    let ghost f = scroll_up_by_fn(old(s).height() as int);
    let mut i: usize = 0;
    while i < n
        invariant
            i <= n,
            s.wf(),
            s.nav_ok(),
            s.same_but_selection(&o),
            o.total() + 2 * o.height() <= usize::MAX,
            f == scroll_up_by_fn(o.height() as int),
            s.pos() == iterate(f, o.pos(), i as nat),
        decreases n - i,
    {
        let ghost before = s.pos();
        
        s.scroll_up_page();
        proof {
            assert(s.pos() == f(before));
        }
        i += 1;
    }
}

/// Applies `scroll_down_half` `n` times.
fn repeat_half_down(s: &mut CommitListState, n: usize)
    requires
        old(s).wf(),
        old(s).nav_ok(),
        old(s).total() + 2 * old(s).height() <= usize::MAX,
    ensures
        final(s).wf(),
        final(s).nav_ok(),
        moved(*old(s), *final(s), scroll_down_by_fn(old(s).total(), old(s).height(), old(s).height() as int / 2), n),
{
    let ghost o = *s;
    let ghost f = scroll_down_by_fn(old(s).total(), old(s).height(), old(s).height() as int / 2);
    let mut i: usize = 0;
    while i < n
        invariant
            i <= n,
            s.wf(),
            s.nav_ok(),
            s.same_but_selection(&o),
            o.total() + 2 * o.height() <= usize::MAX,
            f == scroll_down_by_fn(o.total(), o.height(), o.height() as int / 2),
            s.pos() == iterate(f, o.pos(), i as nat),
        decreases n - i,
    {
        let ghost before = s.pos();
        
        s.scroll_down_half();
        proof {
            assert(s.pos() == f(before));
        }
        i += 1;
    }
}

/// Applies `scroll_up_half` `n` times.
fn repeat_half_up(s: &mut CommitListState, n: usize)
    requires
        old(s).wf(),
        old(s).nav_ok(),
        old(s).total() + 2 * old(s).height() <= usize::MAX,
    ensures
        final(s).wf(),
        final(s).nav_ok(),
        moved(*old(s), *final(s), scroll_up_by_fn(old(s).height() as int / 2), n),
{
    let ghost o = *s;
    let ghost f = scroll_up_by_fn(old(s).height() as int / 2);
    let mut i: usize = 0;
    while i < n
        invariant
            i <= n,
            s.wf(),
            s.nav_ok(),
            s.same_but_selection(&o),
            o.total() + 2 * o.height() <= usize::MAX,
            f == scroll_up_by_fn(o.height() as int / 2),
            s.pos() == iterate(f, o.pos(), i as nat),
        decreases n - i,
    {
        let ghost before = s.pos();
        
        s.scroll_up_half();
        proof {
            assert(s.pos() == f(before));
        }
        i += 1;
    }
}

fn handle_normal_key(s: &mut CommitListState, e: UserEventWithCount, cursor: u16) -> (ev: Vec<AppEvent>)
    requires
        old(s).wf(),
        old(s).nav_ok(),
        !(old(s).search() is Searching),
        old(s).total() + 2 * old(s).height() <= usize::MAX,
        cursor < u16::MAX,
    ensures
        list_normal_step(*old(s), *final(s), e, cursor, ev@),
{
    let mut ev: Vec<AppEvent> = Vec::new();
    let n = e.count;
    match e.event {
        UserEvent::Quit => {
            ev.push(AppEvent::Quit);
        },
        UserEvent::NavigateDown | UserEvent::SelectDown => {
            repeat_next(s, n);
        },
        UserEvent::NavigateUp | UserEvent::SelectUp => {
            repeat_prev(s, n);
        },
        UserEvent::GoToParent => {
            repeat_parent(s, n);
        },
        UserEvent::GoToTop => {
            s.select_first();
        },
        UserEvent::GoToBottom => {
            s.select_last();
        },
        UserEvent::ScrollDown => {
            repeat_scroll_down(s, n);
        },
        UserEvent::ScrollUp => {
            repeat_scroll_up(s, n);
        },
        UserEvent::PageDown => {
            repeat_page_down(s, n);
        },
        UserEvent::PageUp => {
            repeat_page_up(s, n);
        },
        UserEvent::HalfPageDown => {
            repeat_half_down(s, n);
        },
        UserEvent::HalfPageUp => {
            repeat_half_up(s, n);
        },
        UserEvent::SelectTop => {
            s.select_high();
        },
        UserEvent::SelectMiddle => {
            s.select_middle();
        },
        UserEvent::SelectBottom => {
            s.select_low();
        },
        UserEvent::ShortCopy => {
            let value = s.selected_commit_hash().as_short_hash();
            ev.push(AppEvent::CopyToClipboard { name: "Commit SHA (short)".to_owned(), value });
        },
        UserEvent::FullCopy => {
            let value = s.selected_commit_hash().as_str().to_owned();
            ev.push(AppEvent::CopyToClipboard { name: "Commit SHA".to_owned(), value });
        },
        UserEvent::Search => {
            s.start_search();
            ev = query_event(s, cursor);
        },
        UserEvent::UserCommandViewToggle(k) => {
            ev.push(AppEvent::OpenUserCommand(k));
        },
        UserEvent::HelpToggle => {
            ev.push(AppEvent::OpenHelp);
        },
        UserEvent::Cancel => {
            s.cancel_search();
            ev.push(AppEvent::ClearStatusLine);
        },
        UserEvent::Confirm => {
            ev.push(AppEvent::OpenDetail);
        },
        UserEvent::RefListToggle => {
            ev.push(AppEvent::OpenRefs);
        },
        UserEvent::CreateTag => {
            ev.push(AppEvent::OpenCreateTag);
        },
        UserEvent::DeleteTag => {
            ev.push(AppEvent::OpenDeleteTag);
        },
        UserEvent::Refresh => {
            ev.push(AppEvent::Refresh(RefreshViewContext::List));
        },
        UserEvent::GoToNext => {
            let applied = match s.search_state() {
                SearchState::Applied { .. } => true,
                _ => false,
            };
            if applied {
                s.select_next_match();
                ev = matched_event(s);
            }
        },
        UserEvent::GoToPrevious => {
            let applied = match s.search_state() {
                SearchState::Applied { .. } => true,
                _ => false,
            };
            if applied {
                s.select_prev_match();
                ev = matched_event(s);
            }
        },
        _ => {},
    }
    ev
}

} // verus!
