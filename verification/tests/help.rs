use serie::config::CoreUserCommandConfig;
use serie::event::{AppEvent, UserEvent, UserEventWithCount};
use serie::keybind::KeyBind;
use serie::view::help::{build_lines, HelpKeyLine, HelpScroll};

fn keybind(pairs: &[(UserEvent, &str)]) -> KeyBind {
    let v: Vec<(UserEvent, String)> = pairs.iter().map(|(e, s)| (*e, s.to_string())).collect();
    KeyBind::from_event_keys(&v).unwrap()
}

fn key_text(l: &HelpKeyLine) -> String {
    match l {
        HelpKeyLine::Title(t) => format!("#{t}"),
        HelpKeyLine::Keys(ks) => ks.iter().map(|k| format!("<{k}>")).collect::<Vec<_>>().join(" "),
        HelpKeyLine::Blank => String::new(),
    }
}

#[test]
fn help_lines_list_keys_beside_descriptions() {
    let kb = keybind(&[
        (UserEvent::Quit, "q"),
        (UserEvent::ForceQuit, "ctrl-c"),
        (UserEvent::HelpToggle, "?"),
        (UserEvent::NavigateDown, "j"),
        (UserEvent::NavigateDown, "down"),
        (UserEvent::UserCommandViewToggle(1), "d"),
        (UserEvent::UserCommandViewToggle(2), "e"),
    ]);
    let config = CoreUserCommandConfig::default();
    let (keys, values) = build_lines(&kb, &config);
    assert_eq!(keys.len(), values.len());
    // Common block.
    assert_eq!(key_text(&keys[0]), "#Common:");
    assert_eq!(values[0], "");
    assert_eq!(key_text(&keys[1]), "<Ctrl-c> <q>");
    assert_eq!(values[1], "Quit app");
    assert_eq!(key_text(&keys[2]), "<?>");
    assert_eq!(values[2], "Open help");
    assert_eq!(key_text(&keys[3]), "");
    assert!(matches!(keys[3], HelpKeyLine::Blank));
    assert_eq!(key_text(&keys[4]), "#Help:");
    assert_eq!(key_text(&keys[6]), "<Down> <j>");
    assert_eq!(values[6], "Scroll down");
    // The toggle of command 1 is listed (command 2 is not configured).
    let toggles: Vec<&String> = values.iter().filter(|v| v.starts_with("Toggle user command")).collect();
    assert_eq!(toggles.len(), 3);
    assert!(toggles.iter().all(|v| v.as_str() == "Toggle user command 1 - git diff"));
    // Six blocks, five blank lines between them.
    assert_eq!(keys.iter().filter(|k| matches!(k, HelpKeyLine::Blank)).count(), 5);
    assert_eq!(keys.iter().filter(|k| matches!(k, HelpKeyLine::Title(_))).count(), 6);
}

#[test]
fn toggle_numbers_are_ascending_and_distinct() {
    let kb = keybind(&[
        (UserEvent::UserCommandViewToggle(3), "c"),
        (UserEvent::UserCommandViewToggle(1), "a"),
        (UserEvent::UserCommandViewToggle(3), "x"),
    ]);
    assert_eq!(kb.user_command_view_toggle_event_numbers(), vec![1, 3]);
}

#[test]
fn help_scroll_moves_and_closes() {
    let mut s = HelpScroll::new();
    s.update_state(10, 100);
    let ev = |e: UserEvent, n: usize| UserEventWithCount::new(e, n);
    assert!(s.handle_event(ev(UserEvent::NavigateDown, 3)).is_empty());
    assert_eq!(s.offset, 3);
    s.handle_event(ev(UserEvent::PageDown, 2));
    assert_eq!(s.offset, 23);
    s.handle_event(ev(UserEvent::HalfPageUp, 1));
    assert_eq!(s.offset, 18);
    s.handle_event(ev(UserEvent::NavigateUp, 100));
    assert_eq!(s.offset, 0);
    s.handle_event(ev(UserEvent::GoToBottom, 1));
    assert_eq!(s.offset, usize::MAX);
    s.update_state(10, 100);
    assert_eq!(s.offset, 99);
    let evs = s.handle_event(ev(UserEvent::Close, 1));
    assert!(matches!(evs[0], AppEvent::ClearHelp));
    assert!(matches!(evs[1], AppEvent::CloseHelp));
    let evs = s.handle_event(ev(UserEvent::Quit, 1));
    assert!(matches!(evs[0], AppEvent::Quit));
}
