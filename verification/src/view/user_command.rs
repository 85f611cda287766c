use vstd::prelude::*;

use crate::event::{AppEvent, UserEvent, UserEventWithCount};
use crate::view::list::only;
use crate::view::views::RefreshViewContext;
use crate::widget::commit_detail::{repeat_sat_add, repeat_sat_sub};
use crate::widget::commit_list::CommitListState;
use crate::widget::commit_user_command::CommitUserCommandState;

verus! {

/// The pane kept its height and moved to `offset`.
pub open spec fn scrolled(d0: CommitUserCommandState, d1: CommitUserCommandState, offset: int) -> bool {
    d1.height() == d0.height() && d1.offset() == offset
}

/// What a key does to the output pane of user command `number`.
pub open spec fn user_command_step(
    d0: CommitUserCommandState,
    d1: CommitUserCommandState,
    e: UserEventWithCount,
    number: usize,
    ev: Seq<AppEvent>,
) -> bool {
    let n = e.count;
    match e.event {
        UserEvent::NavigateDown => scrolled(d0, d1, repeat_sat_add(d0.offset() as int, 1, n as nat)) && ev.len() == 0,
        UserEvent::NavigateUp => scrolled(d0, d1, repeat_sat_sub(d0.offset() as int, 1, n as nat)) && ev.len() == 0,
        UserEvent::PageDown => scrolled(d0, d1, repeat_sat_add(d0.offset() as int, d0.height() as int, n as nat))
            && ev.len() == 0,
        UserEvent::PageUp => scrolled(d0, d1, repeat_sat_sub(d0.offset() as int, d0.height() as int, n as nat))
            && ev.len() == 0,
        UserEvent::HalfPageDown => scrolled(d0, d1, repeat_sat_add(d0.offset() as int, d0.height() as int / 2, n as nat))
            && ev.len() == 0,
        UserEvent::HalfPageUp => scrolled(d0, d1, repeat_sat_sub(d0.offset() as int, d0.height() as int / 2, n as nat))
            && ev.len() == 0,
        UserEvent::GoToTop => scrolled(d0, d1, 0) && ev.len() == 0,
        UserEvent::GoToBottom => scrolled(d0, d1, usize::MAX as int) && ev.len() == 0,
        UserEvent::SelectDown => d1 == d0 && only(ev, AppEvent::SelectOlderCommit),
        UserEvent::SelectUp => d1 == d0 && only(ev, AppEvent::SelectNewerCommit),
        UserEvent::GoToParent => d1 == d0 && only(ev, AppEvent::SelectParentCommit),
        UserEvent::HelpToggle => d1 == d0 && only(ev, AppEvent::OpenHelp),
        UserEvent::UserCommandViewToggle(k) => d1 == d0 && if k == number {
            only(ev, AppEvent::CloseUserCommand)
        } else {
            only(ev, AppEvent::OpenUserCommand(k))
        },
        UserEvent::Confirm => d1 == d0 && only(ev, AppEvent::OpenDetail),
        UserEvent::Cancel | UserEvent::Close => d1 == d0 && only(ev, AppEvent::CloseUserCommand),
        UserEvent::Refresh => d1 == d0 && only(ev, AppEvent::Refresh(RefreshViewContext::UserCommand { n: number })),
        _ => d1 == d0 && ev.len() == 0,
    }
}

/// The list with the output of a user command below it.
#[derive(Debug)]
pub struct UserCommandView {
    commit_list_state: Option<CommitListState>,
    commit_user_command_state: CommitUserCommandState,
    user_command_number: usize,
}

impl UserCommandView {
    pub closed spec fn list(&self) -> Option<CommitListState> {
        self.commit_list_state
    }

    pub closed spec fn pane(&self) -> CommitUserCommandState {
        self.commit_user_command_state
    }

    pub closed spec fn number(&self) -> usize {
        self.user_command_number
    }

    pub fn new(commit_list_state: CommitListState, user_command_number: usize) -> (v: UserCommandView)
        ensures
            v.list() == Some(commit_list_state),
            v.pane().offset() == 0,
            v.pane().height() == 0,
            v.number() == user_command_number,
    {
        UserCommandView {
            commit_list_state: Some(commit_list_state),
            commit_user_command_state: CommitUserCommandState::default(),
            user_command_number,
        }
    }

    /// Handles a key; returns what the application must do.
    pub fn handle_event(&mut self, event_with_count: UserEventWithCount) -> (ev: Vec<AppEvent>)
        ensures
            user_command_step(old(self).pane(), final(self).pane(), event_with_count, old(self).number(), ev@),
            final(self).list() == old(self).list(),
            final(self).number() == old(self).number(),
    {
        let mut ev: Vec<AppEvent> = Vec::new();
        let n = event_with_count.count;
        match event_with_count.event {
            UserEvent::NavigateDown => scroll_down(&mut self.commit_user_command_state, n),
            UserEvent::NavigateUp => scroll_up(&mut self.commit_user_command_state, n),
            UserEvent::PageDown => scroll_page_down(&mut self.commit_user_command_state, n),
            UserEvent::PageUp => scroll_page_up(&mut self.commit_user_command_state, n),
            UserEvent::HalfPageDown => scroll_half_down(&mut self.commit_user_command_state, n),
            UserEvent::HalfPageUp => scroll_half_up(&mut self.commit_user_command_state, n),
            UserEvent::GoToTop => self.commit_user_command_state.select_first(),
            UserEvent::GoToBottom => self.commit_user_command_state.select_last(),
            UserEvent::SelectDown => ev.push(AppEvent::SelectOlderCommit),
            UserEvent::SelectUp => ev.push(AppEvent::SelectNewerCommit),
            UserEvent::GoToParent => ev.push(AppEvent::SelectParentCommit),
            UserEvent::HelpToggle => ev.push(AppEvent::OpenHelp),
            UserEvent::UserCommandViewToggle(k) => {
                if k == self.user_command_number {
                    ev.push(AppEvent::CloseUserCommand);
                } else {
                    ev.push(AppEvent::OpenUserCommand(k));
                }
            },
            UserEvent::Confirm => ev.push(AppEvent::OpenDetail),
            UserEvent::Cancel | UserEvent::Close => ev.push(AppEvent::CloseUserCommand),
            UserEvent::Refresh => ev.push(AppEvent::Refresh(RefreshViewContext::UserCommand { n: self.user_command_number })),
            _ => {},
        }
        ev
    }

    /// Hands the list state over to another view.
    pub fn take_list_state(&mut self) -> (r: Option<CommitListState>)
        ensures
            r == old(self).list(),
            final(self).list() is None,
    {
        self.commit_list_state.take()
    }

    /// The list state, for moving the selection and fitting it to the screen.
    pub fn list_state_mut(&mut self) -> (r: Option<&mut CommitListState>)
        ensures
            match (r, old(self).list()) {
                (Some(a), Some(b)) => *a == b && final(self).list() == Some(*final(a)),
                (None, None) => final(self).list() is None,
                _ => false,
            },
            final(self).pane() == old(self).pane(),
            final(self).number() == old(self).number(),
    {
        match &mut self.commit_list_state {
            Some(s) => Some(s),
            None => None,
        }
    }

    /// The command shown.
    pub fn user_command_number(&self) -> (r: usize)
        ensures
            r == self.number(),
    {
        self.user_command_number
    }

    /// Back to the top of the output (after another commit was selected).
    pub fn reset_scroll(&mut self)
        ensures
            final(self).pane().offset() == 0,
            final(self).pane().height() == old(self).pane().height(),
            final(self).list() == old(self).list(),
            final(self).number() == old(self).number(),
    {
        self.commit_user_command_state.select_first();
    }

    /// The pane state, for drawing.
    pub fn pane_state_mut(&mut self) -> (r: &mut CommitUserCommandState)
        ensures
            *r == old(self).pane(),
            final(self).pane() == *final(r),
            final(self).list() == old(self).list(),
            final(self).number() == old(self).number(),
    {
        &mut self.commit_user_command_state
    }
}

/// Applies `scroll_down` `n` times.
fn scroll_down(s: &mut CommitUserCommandState, n: usize)
    ensures
        final(s).height() == old(s).height(),
        final(s).offset() == repeat_sat_add(old(s).offset() as int, 1, n as nat),
{
    let ghost o = *s;
    let mut i: usize = 0;
    while i < n
        invariant
            i <= n,
            s.height() == o.height(),
            s.offset() == repeat_sat_add(o.offset() as int, 1, i as nat),
        decreases n - i,
    {
        s.scroll_down();
        i += 1;
    }
}

/// Applies `scroll_up` `n` times.
fn scroll_up(s: &mut CommitUserCommandState, n: usize)
    ensures
        final(s).height() == old(s).height(),
        final(s).offset() == repeat_sat_sub(old(s).offset() as int, 1, n as nat),
{
    let ghost o = *s;
    let mut i: usize = 0;
    while i < n
        invariant
            i <= n,
            s.height() == o.height(),
            s.offset() == repeat_sat_sub(o.offset() as int, 1, i as nat),
        decreases n - i,
    {
        s.scroll_up();
        i += 1;
    }
}

/// Applies `scroll_page_down` `n` times.
fn scroll_page_down(s: &mut CommitUserCommandState, n: usize)
    ensures
        final(s).height() == old(s).height(),
        final(s).offset() == repeat_sat_add(old(s).offset() as int, old(s).height() as int, n as nat),
{
    let ghost o = *s;
    let mut i: usize = 0;
    while i < n
        invariant
            i <= n,
            s.height() == o.height(),
            s.offset() == repeat_sat_add(o.offset() as int, o.height() as int, i as nat),
        decreases n - i,
    {
        s.scroll_page_down();
        i += 1;
    }
}

/// Applies `scroll_page_up` `n` times.
fn scroll_page_up(s: &mut CommitUserCommandState, n: usize)
    ensures
        final(s).height() == old(s).height(),
        final(s).offset() == repeat_sat_sub(old(s).offset() as int, old(s).height() as int, n as nat),
{
    let ghost o = *s;
    let mut i: usize = 0;
    while i < n
        invariant
            i <= n,
            s.height() == o.height(),
            s.offset() == repeat_sat_sub(o.offset() as int, o.height() as int, i as nat),
        decreases n - i,
    {
        s.scroll_page_up();
        i += 1;
    }
}

/// Applies `scroll_half_page_down` `n` times.
fn scroll_half_down(s: &mut CommitUserCommandState, n: usize)
    ensures
        final(s).height() == old(s).height(),
        final(s).offset() == repeat_sat_add(old(s).offset() as int, old(s).height() as int / 2, n as nat),
{
    let ghost o = *s;
    let mut i: usize = 0;
    while i < n
        invariant
            i <= n,
            s.height() == o.height(),
            s.offset() == repeat_sat_add(o.offset() as int, o.height() as int / 2, i as nat),
        decreases n - i,
    {
        s.scroll_half_page_down();
        i += 1;
    }
}

/// Applies `scroll_half_page_up` `n` times.
fn scroll_half_up(s: &mut CommitUserCommandState, n: usize)
    ensures
        final(s).height() == old(s).height(),
        final(s).offset() == repeat_sat_sub(old(s).offset() as int, old(s).height() as int / 2, n as nat),
{
    let ghost o = *s;
    let mut i: usize = 0;
    while i < n
        invariant
            i <= n,
            s.height() == o.height(),
            s.offset() == repeat_sat_sub(o.offset() as int, o.height() as int / 2, i as nat),
        decreases n - i,
    {
        s.scroll_half_page_up();
        i += 1;
    }
}

/// `s` with every tab replaced by `width` spaces.
pub open spec fn expand_tabs_spec(s: Seq<char>, width: nat) -> Seq<char>
    decreases s.len(),
{
    if s.len() == 0 {
        Seq::empty()
    } else {
        let prev = expand_tabs_spec(s.drop_last(), width);
        if s.last() == '\t' {
            prev + Seq::new(width, |_i: int| ' ')
        } else {
            prev.push(s.last())
        }
    }
}

/// A command's output prepared for display: tabs, which the terminal
/// widgets do not lay out, become `tab_width` spaces each.
pub fn expand_tabs(output: &str, tab_width: u16) -> (r: String)
    ensures
        r@ == expand_tabs_spec(output@, tab_width as nat),
{
    let chars = crate::text::chars_of(output);
    let mut out: Vec<char> = Vec::new();
    let mut i: usize = 0;
    while i < chars.len()
        invariant
            i <= chars@.len(),
            chars@ == output@,
            out@ == expand_tabs_spec(output@.take(i as int), tab_width as nat),
        decreases chars@.len() - i,
    {
        proof {
            assert(output@.take(i + 1).drop_last() == output@.take(i as int));
        }
        let c = chars[i];
        if c == '\t' {
            let ghost base = out@;
            let mut k: u16 = 0;
            while k < tab_width
                invariant
                    k <= tab_width,
                    out@ == base + Seq::new(k as nat, |_i: int| ' '),
                decreases tab_width - k,
            {
                out.push(' ');
                proof {
                    assert(out@ =~= base + Seq::new((k + 1) as nat, |_i: int| ' '));
                }
                k += 1;
            }
        } else {
            out.push(c);
        }
        i += 1;
    }
    proof {
        assert(output@.take(chars@.len() as int) == output@);
    }
    crate::text::string_from_chars(&out)
}

} // verus!
