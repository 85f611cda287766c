use serie::event::{AppEvent, UserEvent};
use serie::git::{CommitHash, RefOperation};
use serie::keybind::KeyCode;
use serie::view::create_tag::{trim_white_space, CreateTagDialog, CreateTagKeyAction, FocusedField};
use serie::view::delete_ref::RefJobStep;

#[test]
fn trim_white_space_matches_str_trim() {
    for s in ["  a b  ", "\t\nx\u{3000}", "", "   ", "abc"] {
        assert_eq!(trim_white_space(s), s.trim());
    }
}

#[test]
fn create_tag_focus_cycles_and_checkbox_toggles() {
    let mut d = CreateTagDialog::new();
    assert_eq!(d.focused_field, FocusedField::TagName);
    assert_eq!(d.handle_event(UserEvent::Unknown, KeyCode::Tab), CreateTagKeyAction::Nothing);
    assert_eq!(d.focused_field, FocusedField::Message);
    d.handle_event(UserEvent::NavigateDown, KeyCode::Down);
    assert_eq!(d.focused_field, FocusedField::PushCheckbox);
    d.handle_event(UserEvent::NavigateLeft, KeyCode::Left);
    assert!(!d.push_to_remote);
    d.handle_event(UserEvent::Unknown, KeyCode::Char(' '));
    assert!(d.push_to_remote);
    d.handle_event(UserEvent::Unknown, KeyCode::BackTab);
    assert_eq!(d.focused_field, FocusedField::Message);
    assert_eq!(d.handle_event(UserEvent::Unknown, KeyCode::Char('x')), CreateTagKeyAction::EditMessage);
    assert_eq!(d.handle_event(UserEvent::Cancel, KeyCode::Esc), CreateTagKeyAction::Close);
    assert_eq!(d.handle_event(UserEvent::Confirm, KeyCode::Enter), CreateTagKeyAction::Submit);
}

#[test]
fn create_tag_submit_validates_and_runs() {
    let d = CreateTagDialog::new();
    let h = CommitHash::new("abc123");
    match d.submit(&h, "   ", "msg") {
        Err(AppEvent::NotifyError(m)) => assert_eq!(m, "Tag name cannot be empty"),
        other => panic!("unexpected {other:?}"),
    }
    let job = d.submit(&h, " v1.0 ", "  ").unwrap();
    assert_eq!(job.tag_name, "v1.0");
    assert!(job.message.is_none());
    let op = job.first();
    assert_eq!(op.args().unwrap(), vec!["tag", "v1.0", "abc123"]);
    let op2 = match job.step(1, Ok(())) {
        RefJobStep::Run(op) => op,
        s => panic!("unexpected {s:?}"),
    };
    assert!(matches!(op2, RefOperation::PushTag { ref name } if name == "v1.0"));
    match job.step(2, Ok(())) {
        RefJobStep::Done(evs) => {
            assert!(matches!(&evs[1], AppEvent::NotifySuccess(m) if m == "Tag 'v1.0' created and pushed to origin"));
            assert!(matches!(evs[2], AppEvent::CloseCreateTag));
        }
        s => panic!("unexpected {s:?}"),
    }
    let annotated = d.submit(&h, "v2", " note ").unwrap();
    assert_eq!(annotated.first().args().unwrap(), vec!["tag", "-a", "-m", "note", "v2", "abc123"]);
    match annotated.step(1, Err("exists".to_string())) {
        RefJobStep::Done(evs) => {
            assert_eq!(evs.len(), 1);
            assert!(matches!(&evs[0], AppEvent::NotifyError(m) if m == "exists"));
        }
        s => panic!("unexpected {s:?}"),
    }
}
