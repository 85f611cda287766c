use vstd::prelude::*;

use crate::event::{AppEvent, UserEvent};
use crate::widget::ref_list::{selected_branch, selected_tag};

verus! {

/// A move of the selection in the refs tree.
#[derive(Debug, Clone, Copy, PartialEq, Eq, Structural)]
pub enum TreeMove {
    Next,
    Prev,
    First,
    Last,
    Open,
    Close,
}

/// The selected path names a branch (local or remote) or a tag.
pub open spec fn names_ref(selected: Seq<String>) -> bool {
    selected.len() > 1 && (selected[0]@ == "__branches__"@ || selected[0]@ == "__remotes__"@ || selected[0]@
        == "__tags__"@)
}

/// `e` copies the name of the ref at the selected path: a branch name or a
/// tag name, labelled as such.
pub open spec fn copies_ref_name(e: AppEvent, selected: Seq<String>) -> bool {
    e matches AppEvent::CopyToClipboard { name, value } && selected.len() > 1 && value@ == selected.last()@ && if
    selected[0]@ == "__branches__"@ || selected[0]@ == "__remotes__"@ {
        name@ == "Branch Name"@
    } else {
        selected[0]@ == "__tags__"@ && name@ == "Tag Name"@
    }
}

/// The copy the refs view asks for with the selected path `selected`: the
/// name of a selected branch, else of a selected tag, else nothing.
pub fn copy_ref_name(selected: &Vec<String>) -> (r: Option<AppEvent>)
    ensures
        match r {
            Some(e) => copies_ref_name(e, selected@),
            None => !names_ref(selected@),
        },
{
    match selected_branch(selected) {
        Some(value) => Some(AppEvent::CopyToClipboard { name: String::from_str("Branch Name"), value }),
        None => match selected_tag(selected) {
            Some(value) => Some(AppEvent::CopyToClipboard { name: String::from_str("Tag Name"), value }),
            None => None,
        },
    }
}

/// Handles a key in the refs view, the tree's selected path being
/// `selected`: the events to send, and the move of the tree's selection to
/// make (after which the commit list follows the selected ref).
pub fn handle_refs_event(event: UserEvent, selected: &Vec<String>) -> (r: (Vec<AppEvent>, Option<TreeMove>))
    ensures
        match event {
            UserEvent::Quit => r.0@.len() == 1 && r.0@[0] is Quit && r.1 is None,
            UserEvent::Cancel | UserEvent::Close | UserEvent::RefListToggle => r.0@.len() == 1 && r.0@[0] is CloseRefs
                && r.1 is None,
            UserEvent::NavigateDown => r.0@.len() == 0 && r.1 == Some(TreeMove::Next),
            UserEvent::NavigateUp => r.0@.len() == 0 && r.1 == Some(TreeMove::Prev),
            UserEvent::GoToTop => r.0@.len() == 0 && r.1 == Some(TreeMove::First),
            UserEvent::GoToBottom => r.0@.len() == 0 && r.1 == Some(TreeMove::Last),
            UserEvent::NavigateRight => r.0@.len() == 0 && r.1 == Some(TreeMove::Open),
            UserEvent::NavigateLeft => r.0@.len() == 0 && r.1 == Some(TreeMove::Close),
            UserEvent::ShortCopy | UserEvent::FullCopy => r.1 is None && if names_ref(selected@) {
                r.0@.len() == 1 && copies_ref_name(r.0@[0], selected@)
            } else {
                r.0@.len() == 0
            },
            UserEvent::HelpToggle => r.0@.len() == 1 && r.0@[0] is OpenHelp && r.1 is None,
            _ => r.0@.len() == 0 && r.1 is None,
        },
{
    let mut evs: Vec<AppEvent> = Vec::new();
    match event {
        UserEvent::Quit => {
            evs.push(AppEvent::Quit);
            (evs, None)
        },
        UserEvent::Cancel | UserEvent::Close | UserEvent::RefListToggle => {
            evs.push(AppEvent::CloseRefs);
            (evs, None)
        },
        UserEvent::NavigateDown => (evs, Some(TreeMove::Next)),
        UserEvent::NavigateUp => (evs, Some(TreeMove::Prev)),
        UserEvent::GoToTop => (evs, Some(TreeMove::First)),
        UserEvent::GoToBottom => (evs, Some(TreeMove::Last)),
        UserEvent::NavigateRight => (evs, Some(TreeMove::Open)),
        UserEvent::NavigateLeft => (evs, Some(TreeMove::Close)),
        UserEvent::ShortCopy | UserEvent::FullCopy => {
            match copy_ref_name(selected) {
                Some(e) => {
                    evs.push(e);
                },
                None => {},
            }
            (evs, None)
        },
        UserEvent::HelpToggle => {
            evs.push(AppEvent::OpenHelp);
            (evs, None)
        },
        _ => (evs, None),
    }
}

} // verus!
