use serie::event::AppEvent;
use serie::view::navigation::{next_view, ViewKind};

fn is_list(v: &ViewKind) -> bool {
    matches!(v, ViewKind::List)
}

#[test]
fn detail_opens_from_the_list_and_closes_back() {
    let v = next_view(ViewKind::List, &AppEvent::OpenDetail);
    assert!(matches!(v, ViewKind::Detail));
    let v = next_view(v, &AppEvent::CloseDetail);
    assert!(is_list(&v));
}

#[test]
fn detail_does_not_open_from_refs() {
    let v = next_view(ViewKind::Refs, &AppEvent::OpenDetail);
    assert!(matches!(v, ViewKind::Refs));
}

#[test]
fn user_command_returns_where_it_was_opened() {
    let v = next_view(ViewKind::Detail, &AppEvent::OpenUserCommand(2));
    assert!(matches!(v, ViewKind::UserCommand { number: 2, from_list: false }));
    let v = next_view(v, &AppEvent::OpenUserCommand(3));
    assert!(matches!(v, ViewKind::UserCommand { number: 3, from_list: false }));
    let v = next_view(v, &AppEvent::CloseUserCommand);
    assert!(matches!(v, ViewKind::Detail));

    let v = next_view(ViewKind::List, &AppEvent::OpenUserCommand(1));
    assert!(matches!(v, ViewKind::UserCommand { number: 1, from_list: true }));
    assert!(is_list(&next_view(v, &AppEvent::CloseUserCommand)));
}

#[test]
fn help_remembers_the_view_below() {
    let v = next_view(ViewKind::Refs, &AppEvent::OpenHelp);
    match &v {
        ViewKind::Help { before } => assert!(matches!(**before, ViewKind::Refs)),
        _ => panic!("help not opened"),
    }
    assert!(matches!(next_view(v, &AppEvent::CloseHelp), ViewKind::Refs));
}

#[test]
fn tag_dialogs_open_over_the_list() {
    let v = next_view(ViewKind::List, &AppEvent::OpenCreateTag);
    assert!(matches!(v, ViewKind::CreateTag));
    assert!(is_list(&next_view(v, &AppEvent::CloseCreateTag)));
    let v = next_view(ViewKind::List, &AppEvent::OpenDeleteTag);
    assert!(matches!(v, ViewKind::DeleteTag));
    assert!(is_list(&next_view(v, &AppEvent::CloseDeleteTag)));
    assert!(matches!(next_view(ViewKind::DeleteRef, &AppEvent::CloseDeleteRef), ViewKind::Refs));
}

#[test]
fn other_events_keep_the_view() {
    assert!(is_list(&next_view(ViewKind::List, &AppEvent::NotifyInfo("x".into()))));
    assert!(matches!(next_view(ViewKind::Detail, &AppEvent::CloseRefs), ViewKind::Detail));
}
