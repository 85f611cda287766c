use vstd::prelude::*;

use crate::event::AppEvent;

verus! {

/// Which view the application shows. The help view remembers the view it
/// was opened over; a user command's output remembers whether it was opened
/// from the commit list or from the commit details.
#[derive(Debug)]
pub enum ViewKind {
    Default,
    List,
    Detail,
    UserCommand { number: usize, from_list: bool },
    Refs,
    Help { before: Box<ViewKind> },
    CreateTag,
    DeleteTag,
    DeleteRef,
}

/// The view shown after the application handles `event` while showing
/// `current`. Each event that opens a view does so only from the views
/// that offer it; each event that closes one does so only while it is
/// shown; every other case leaves the view as it is.
pub open spec fn view_after(current: ViewKind, event: AppEvent) -> ViewKind {
    match event {
        AppEvent::OpenDetail => if current is List { ViewKind::Detail } else { current },
        AppEvent::CloseDetail => if current is Detail { ViewKind::List } else { current },
        AppEvent::OpenUserCommand(n) => match current {
            ViewKind::List => ViewKind::UserCommand { number: n, from_list: true },
            ViewKind::Detail => ViewKind::UserCommand { number: n, from_list: false },
            ViewKind::UserCommand { number: _, from_list } => ViewKind::UserCommand { number: n, from_list },
            _ => current,
        },
        AppEvent::CloseUserCommand => match current {
            ViewKind::UserCommand { number: _, from_list } => if from_list {
                ViewKind::List
            } else {
                ViewKind::Detail
            },
            _ => current,
        },
        AppEvent::OpenRefs => if current is List { ViewKind::Refs } else { current },
        AppEvent::CloseRefs => if current is Refs { ViewKind::List } else { current },
        AppEvent::OpenHelp => ViewKind::Help { before: Box::new(current) },
        AppEvent::CloseHelp => match current {
            ViewKind::Help { before } => *before,
            _ => current,
        },
        AppEvent::OpenCreateTag => if current is List { ViewKind::CreateTag } else { current },
        AppEvent::CloseCreateTag => if current is CreateTag { ViewKind::List } else { current },
        AppEvent::OpenDeleteTag => if current is List { ViewKind::DeleteTag } else { current },
        AppEvent::CloseDeleteTag => if current is DeleteTag { ViewKind::List } else { current },
        AppEvent::CloseDeleteRef => if current is DeleteRef { ViewKind::Refs } else { current },
        _ => current,
    }
}

/// The view the application switches to when it handles `event` while
/// showing `current` (see `view_after`).
pub fn next_view(current: ViewKind, event: &AppEvent) -> (r: ViewKind)
    ensures
        r == view_after(current, *event),
{
    match event {
        AppEvent::OpenDetail => match current {
            ViewKind::List => ViewKind::Detail,
            _ => current,
        },
        AppEvent::CloseDetail => match current {
            ViewKind::Detail => ViewKind::List,
            _ => current,
        },
        AppEvent::OpenUserCommand(n) => match current {
            ViewKind::List => ViewKind::UserCommand { number: *n, from_list: true },
            ViewKind::Detail => ViewKind::UserCommand { number: *n, from_list: false },
            ViewKind::UserCommand { number: _, from_list } => ViewKind::UserCommand { number: *n, from_list },
            _ => current,
        },
        AppEvent::CloseUserCommand => match current {
            ViewKind::UserCommand { number: _, from_list } => if from_list {
                ViewKind::List
            } else {
                ViewKind::Detail
            },
            _ => current,
        },
        AppEvent::OpenRefs => match current {
            ViewKind::List => ViewKind::Refs,
            _ => current,
        },
        AppEvent::CloseRefs => match current {
            ViewKind::Refs => ViewKind::List,
            _ => current,
        },
        AppEvent::OpenHelp => ViewKind::Help { before: Box::new(current) },
        AppEvent::CloseHelp => match current {
            ViewKind::Help { before } => *before,
            _ => current,
        },
        AppEvent::OpenCreateTag => match current {
            ViewKind::List => ViewKind::CreateTag,
            _ => current,
        },
        AppEvent::CloseCreateTag => match current {
            ViewKind::CreateTag => ViewKind::List,
            _ => current,
        },
        AppEvent::OpenDeleteTag => match current {
            ViewKind::List => ViewKind::DeleteTag,
            _ => current,
        },
        AppEvent::CloseDeleteTag => match current {
            ViewKind::DeleteTag => ViewKind::List,
            _ => current,
        },
        AppEvent::CloseDeleteRef => match current {
            ViewKind::DeleteRef => ViewKind::Refs,
            _ => current,
        },
        _ => current,
    }
}

/// Closing a view brings back the view it was opened from: the details and
/// the refs over the commit list, a user command's output over the list or
/// the details, the help over any view, the tag dialogs over the list.
pub proof fn lemma_open_close_round_trip(v: ViewKind, n: usize)
    ensures
        view_after(view_after(v, AppEvent::OpenHelp), AppEvent::CloseHelp) == v,
        v is List ==> view_after(view_after(v, AppEvent::OpenDetail), AppEvent::CloseDetail) == v,
        v is List ==> view_after(view_after(v, AppEvent::OpenRefs), AppEvent::CloseRefs) == v,
        v is List ==> view_after(view_after(v, AppEvent::OpenCreateTag), AppEvent::CloseCreateTag) == v,
        v is List ==> view_after(view_after(v, AppEvent::OpenDeleteTag), AppEvent::CloseDeleteTag) == v,
        (v is List || v is Detail) ==> view_after(view_after(v, AppEvent::OpenUserCommand(n)), AppEvent::CloseUserCommand)
            == v,
{
}

/// Switching from one user command's output to another keeps the view it
/// returns to.
pub proof fn lemma_user_command_switch_keeps_origin(v: ViewKind, n: usize, m: usize)
    requires
        v is List || v is Detail,
    ensures
        view_after(
            view_after(view_after(v, AppEvent::OpenUserCommand(n)), AppEvent::OpenUserCommand(m)),
            AppEvent::CloseUserCommand,
        ) == v,
        view_after(view_after(v, AppEvent::OpenUserCommand(n)), AppEvent::OpenUserCommand(m))
            == view_after(v, AppEvent::OpenUserCommand(m)),
{
}

} // verus!
