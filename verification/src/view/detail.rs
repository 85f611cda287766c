use vstd::prelude::*;

use crate::event::{AppEvent, UserEvent, UserEventWithCount};
use crate::git::{prefix_upto, Commit, FileChange, Ref};
use crate::view::list::only;
use crate::view::views::RefreshViewContext;
use crate::widget::commit_detail::{repeat_sat_add, repeat_sat_sub, CommitDetailState};
use crate::widget::commit_list::CommitListState;

verus! {

/// The pane kept its height and moved to `offset`.
pub open spec fn scrolled(d0: CommitDetailState, d1: CommitDetailState, offset: int) -> bool {
    d1.height() == d0.height() && d1.offset() == offset
}

/// What a key does to the detail pane of a commit with hash `hash`.
pub open spec fn detail_step(d0: CommitDetailState, d1: CommitDetailState, e: UserEventWithCount, hash: Seq<char>, ev: Seq<AppEvent>) -> bool {
    let n = e.count;
    match e.event {
        UserEvent::NavigateDown => scrolled(d0, d1, repeat_sat_add(d0.offset() as int, 1, n as nat)) && ev.len() == 0,
        UserEvent::NavigateUp => scrolled(d0, d1, repeat_sat_sub(d0.offset() as int, 1, n as nat)) && ev.len() == 0,
        UserEvent::PageDown => scrolled(d0, d1, repeat_sat_add(d0.offset() as int, d0.height() as int, n as nat))
            && ev.len() == 0,
        UserEvent::PageUp => scrolled(d0, d1, repeat_sat_sub(d0.offset() as int, d0.height() as int, n as nat))
            && ev.len() == 0,
        UserEvent::HalfPageDown => scrolled(d0, d1, repeat_sat_add(d0.offset() as int, d0.height() as int / 2, n as nat))
            && ev.len() == 0,
        UserEvent::HalfPageUp => scrolled(d0, d1, repeat_sat_sub(d0.offset() as int, d0.height() as int / 2, n as nat))
            && ev.len() == 0,
        UserEvent::GoToTop => scrolled(d0, d1, 0) && ev.len() == 0,
        UserEvent::GoToBottom => scrolled(d0, d1, usize::MAX as int) && ev.len() == 0,
        UserEvent::SelectDown => d1 == d0 && only(ev, AppEvent::SelectOlderCommit),
        UserEvent::SelectUp => d1 == d0 && only(ev, AppEvent::SelectNewerCommit),
        UserEvent::GoToParent => d1 == d0 && only(ev, AppEvent::SelectParentCommit),
        UserEvent::HelpToggle => d1 == d0 && only(ev, AppEvent::OpenHelp),
        UserEvent::ShortCopy => d1 == d0 && ev.len() == 1 && (ev[0] matches AppEvent::CopyToClipboard { name, value }
            && name@ == "Commit SHA (short)"@ && value@ == prefix_upto(hash, 7)),
        UserEvent::FullCopy => d1 == d0 && ev.len() == 1 && (ev[0] matches AppEvent::CopyToClipboard { name, value }
            && name@ == "Commit SHA"@ && value@ == hash),
        UserEvent::UserCommandViewToggle(k) => d1 == d0 && only(ev, AppEvent::OpenUserCommand(k)),
        UserEvent::Confirm | UserEvent::Cancel | UserEvent::Close => d1 == d0 && ev.len() == 2 && ev[0] is ClearDetail
            && ev[1] is CloseDetail,
        UserEvent::Refresh => d1 == d0 && only(ev, AppEvent::Refresh(RefreshViewContext::Detail)),
        _ => d1 == d0 && ev.len() == 0,
    }
}

/// The list with the detail of the selected commit below it.
#[derive(Debug)]
pub struct DetailView {
    commit_list_state: Option<CommitListState>,
    commit_detail_state: CommitDetailState,
    commit: Commit,
    changes: Vec<FileChange>,
    refs: Vec<Ref>,
    clear: bool,
}

impl DetailView {
    pub closed spec fn list(&self) -> Option<CommitListState> {
        self.commit_list_state
    }

    pub closed spec fn pane(&self) -> CommitDetailState {
        self.commit_detail_state
    }

    pub closed spec fn commit_spec(&self) -> Commit {
        self.commit
    }

    pub closed spec fn refs_spec(&self) -> Seq<Ref> {
        self.refs@
    }

    pub closed spec fn changes_spec(&self) -> Seq<FileChange> {
        self.changes@
    }

    pub closed spec fn cleared(&self) -> bool {
        self.clear
    }

    pub fn new(commit_list_state: CommitListState, commit: Commit, changes: Vec<FileChange>, refs: Vec<Ref>) -> (v: DetailView)
        ensures
            v.list() == Some(commit_list_state),
            v.pane().offset() == 0,
            v.pane().height() == 0,
            v.commit_spec() == commit,
            v.changes_spec() == changes@,
            v.refs_spec() == refs@,
            !v.cleared(),
    {
        DetailView {
            commit_list_state: Some(commit_list_state),
            commit_detail_state: CommitDetailState::default(),
            commit,
            changes,
            refs,
            clear: false,
        }
    }

    /// Handles a key; returns what the application must do.
    pub fn handle_event(&mut self, event_with_count: UserEventWithCount) -> (ev: Vec<AppEvent>)
        ensures
            detail_step(old(self).pane(), final(self).pane(), event_with_count, old(self).commit_spec().commit_hash@, ev@),
            final(self).list() == old(self).list(),
            final(self).commit_spec() == old(self).commit_spec(),
            final(self).refs_spec() == old(self).refs_spec(),
            final(self).changes_spec() == old(self).changes_spec(),
            final(self).cleared() == old(self).cleared(),
    {
        let mut ev: Vec<AppEvent> = Vec::new();
        let n = event_with_count.count;
        match event_with_count.event {
            UserEvent::NavigateDown => scroll_down(&mut self.commit_detail_state, n),
            UserEvent::NavigateUp => scroll_up(&mut self.commit_detail_state, n),
            UserEvent::PageDown => scroll_page_down(&mut self.commit_detail_state, n),
            UserEvent::PageUp => scroll_page_up(&mut self.commit_detail_state, n),
            UserEvent::HalfPageDown => scroll_half_down(&mut self.commit_detail_state, n),
            UserEvent::HalfPageUp => scroll_half_up(&mut self.commit_detail_state, n),
            UserEvent::GoToTop => self.commit_detail_state.select_first(),
            UserEvent::GoToBottom => self.commit_detail_state.select_last(),
            UserEvent::SelectDown => ev.push(AppEvent::SelectOlderCommit),
            UserEvent::SelectUp => ev.push(AppEvent::SelectNewerCommit),
            UserEvent::GoToParent => ev.push(AppEvent::SelectParentCommit),
            UserEvent::HelpToggle => ev.push(AppEvent::OpenHelp),
            UserEvent::ShortCopy => {
                let value = self.commit.commit_hash.as_short_hash();
                ev.push(AppEvent::CopyToClipboard { name: "Commit SHA (short)".to_owned(), value });
            },
            UserEvent::FullCopy => {
                let value = self.commit.commit_hash.as_str().to_owned();
                ev.push(AppEvent::CopyToClipboard { name: "Commit SHA".to_owned(), value });
            },
            UserEvent::UserCommandViewToggle(k) => ev.push(AppEvent::OpenUserCommand(k)),
            UserEvent::Confirm | UserEvent::Cancel | UserEvent::Close => {
                ev.push(AppEvent::ClearDetail);
                ev.push(AppEvent::CloseDetail);
            },
            UserEvent::Refresh => ev.push(AppEvent::Refresh(RefreshViewContext::Detail)),
            _ => {},
        }
        ev
    }

    /// Hands the list state over to another view.
    pub fn take_list_state(&mut self) -> (r: Option<CommitListState>)
        ensures
            r == old(self).list(),
            final(self).list() is None,
    {
        self.commit_list_state.take()
    }

    /// The list state, for moving the selection and fitting it to the screen.
    pub fn list_state_mut(&mut self) -> (r: Option<&mut CommitListState>)
        ensures
            match (r, old(self).list()) {
                (Some(a), Some(b)) => *a == b && final(self).list() == Some(*final(a)),
                (None, None) => final(self).list() is None,
                _ => false,
            },
            final(self).pane() == old(self).pane(),
            final(self).commit_spec() == old(self).commit_spec(),
    {
        match &mut self.commit_list_state {
            Some(s) => Some(s),
            None => None,
        }
    }

    /// Shows another commit (after the list selection moved): its detail
    /// replaces the old one and the pane goes back to the top.
    pub fn set_commit(&mut self, commit: Commit, changes: Vec<FileChange>, refs: Vec<Ref>)
        ensures
            final(self).commit_spec() == commit,
            final(self).changes_spec() == changes@,
            final(self).refs_spec() == refs@,
            final(self).pane().offset() == 0,
            final(self).pane().height() == old(self).pane().height(),
            final(self).list() == old(self).list(),
    {
        self.commit = commit;
        self.changes = changes;
        self.refs = refs;
        self.commit_detail_state.select_first();
    }

    /// Blanks the pane at the next draw.
    pub fn clear(&mut self)
        ensures
            final(self).cleared(),
            final(self).list() == old(self).list(),
            final(self).pane() == old(self).pane(),
    {
        self.clear = true;
    }

    pub fn is_cleared(&self) -> (r: bool)
        ensures
            r == self.cleared(),
    {
        self.clear
    }

    pub fn commit(&self) -> (c: &Commit)
        ensures
            *c == self.commit_spec(),
    {
        &self.commit
    }

    pub fn changes(&self) -> (c: &Vec<FileChange>)
        ensures
            c@ == self.changes_spec(),
    {
        &self.changes
    }

    pub fn refs(&self) -> (r: &Vec<Ref>)
        ensures
            r@ == self.refs_spec(),
    {
        &self.refs
    }

    /// The pane state, for drawing.
    pub fn pane_state_mut(&mut self) -> (r: &mut CommitDetailState)
        ensures
            *r == old(self).pane(),
            final(self).pane() == *final(r),
            final(self).list() == old(self).list(),
    {
        &mut self.commit_detail_state
    }
}

/// Applies `scroll_down` `n` times.
fn scroll_down(s: &mut CommitDetailState, n: usize)
    ensures
        final(s).height() == old(s).height(),
        final(s).offset() == repeat_sat_add(old(s).offset() as int, 1, n as nat),
{
    let ghost o = *s;
    let mut i: usize = 0;
    while i < n
        invariant
            i <= n,
            s.height() == o.height(),
            s.offset() == repeat_sat_add(o.offset() as int, 1, i as nat),
        decreases n - i,
    {
        s.scroll_down();
        i += 1;
    }
}

/// Applies `scroll_up` `n` times.
fn scroll_up(s: &mut CommitDetailState, n: usize)
    ensures
        final(s).height() == old(s).height(),
        final(s).offset() == repeat_sat_sub(old(s).offset() as int, 1, n as nat),
{
    let ghost o = *s;
    let mut i: usize = 0;
    while i < n
        invariant
            i <= n,
            s.height() == o.height(),
            s.offset() == repeat_sat_sub(o.offset() as int, 1, i as nat),
        decreases n - i,
    {
        s.scroll_up();
        i += 1;
    }
}

/// Applies `scroll_page_down` `n` times.
fn scroll_page_down(s: &mut CommitDetailState, n: usize)
    ensures
        final(s).height() == old(s).height(),
        final(s).offset() == repeat_sat_add(old(s).offset() as int, old(s).height() as int, n as nat),
{
    let ghost o = *s;
    let mut i: usize = 0;
    while i < n
        invariant
            i <= n,
            s.height() == o.height(),
            s.offset() == repeat_sat_add(o.offset() as int, o.height() as int, i as nat),
        decreases n - i,
    {
        s.scroll_page_down();
        i += 1;
    }
}

/// Applies `scroll_page_up` `n` times.
fn scroll_page_up(s: &mut CommitDetailState, n: usize)
    ensures
        final(s).height() == old(s).height(),
        final(s).offset() == repeat_sat_sub(old(s).offset() as int, old(s).height() as int, n as nat),
{
    let ghost o = *s;
    let mut i: usize = 0;
    while i < n
        invariant
            i <= n,
            s.height() == o.height(),
            s.offset() == repeat_sat_sub(o.offset() as int, o.height() as int, i as nat),
        decreases n - i,
    {
        s.scroll_page_up();
        i += 1;
    }
}

/// Applies `scroll_half_page_down` `n` times.
fn scroll_half_down(s: &mut CommitDetailState, n: usize)
    ensures
        final(s).height() == old(s).height(),
        final(s).offset() == repeat_sat_add(old(s).offset() as int, old(s).height() as int / 2, n as nat),
{
    let ghost o = *s;
    let mut i: usize = 0;
    while i < n
        invariant
            i <= n,
            s.height() == o.height(),
            s.offset() == repeat_sat_add(o.offset() as int, o.height() as int / 2, i as nat),
        decreases n - i,
    {
        s.scroll_half_page_down();
        i += 1;
    }
}

/// Applies `scroll_half_page_up` `n` times.
fn scroll_half_up(s: &mut CommitDetailState, n: usize)
    ensures
        final(s).height() == old(s).height(),
        final(s).offset() == repeat_sat_sub(old(s).offset() as int, old(s).height() as int / 2, n as nat),
{
    let ghost o = *s;
    let mut i: usize = 0;
    while i < n
        invariant
            i <= n,
            s.height() == o.height(),
            s.offset() == repeat_sat_sub(o.offset() as int, o.height() as int / 2, i as nat),
        decreases n - i,
    {
        s.scroll_half_page_up();
        i += 1;
    }
}

} // verus!
