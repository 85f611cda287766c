use serie::event::UserEvent;
use serie::keybind::{
    key_event_to_string, parse_key_event, KeyBind, KeyBindError, KeyCode, KeyEvent, KeyModifiers,
};

fn mods(shift: bool, control: bool, alt: bool) -> KeyModifiers {
    KeyModifiers { shift, control, alt, super_key: false, hyper: false, meta: false }
}

#[test]
fn test_key_event_to_string() {
    let key_event = KeyEvent::new(KeyCode::Char('k'), KeyModifiers::empty());
    assert_eq!(key_event_to_string(key_event), "k");

    let key_event = KeyEvent::new(KeyCode::Char('j'), KeyModifiers::empty());
    assert_eq!(key_event_to_string(key_event), "j");

    let key_event = KeyEvent::new(KeyCode::Down, KeyModifiers::empty());
    assert_eq!(key_event_to_string(key_event), "Down");

    let key_event = KeyEvent::new(KeyCode::Char('h'), mods(false, true, false));
    assert_eq!(key_event_to_string(key_event), "Ctrl-h");

    let key_event = KeyEvent::new(KeyCode::Char('h'), mods(true, false, false));
    assert_eq!(key_event_to_string(key_event), "H");

    let key_event = KeyEvent::new(KeyCode::Char('H'), mods(true, false, false));
    assert_eq!(key_event_to_string(key_event), "H");

    let key_event = KeyEvent::new(KeyCode::Left, mods(true, false, false));
    assert_eq!(key_event_to_string(key_event), "Shift-Left");

    let key_event = KeyEvent::new(KeyCode::Char('h'), mods(false, false, true));
    assert_eq!(key_event_to_string(key_event), "Alt-h");

    let key_event = KeyEvent::new(KeyCode::Char('l'), mods(true, true, false));
    assert_eq!(key_event_to_string(key_event), "Ctrl-Shift-l");

    let key_event = KeyEvent::new(KeyCode::Char('l'), mods(true, true, true));
    assert_eq!(key_event_to_string(key_event), "Ctrl-Shift-Alt-l");

    let key_event = KeyEvent::new(KeyCode::Esc, KeyModifiers::empty());
    assert_eq!(key_event_to_string(key_event), "Esc");

    let key_event = KeyEvent::new(KeyCode::F(12), KeyModifiers::empty());
    assert_eq!(key_event_to_string(key_event), "F12");
}

fn pairs(list: &[(UserEvent, &str)]) -> Vec<(UserEvent, String)> {
    list.iter().map(|(e, s)| (*e, s.to_string())).collect()
}

#[test]
fn from_event_keys_reads_key_texts() {
    let p = pairs(&[
        (UserEvent::NavigateUp, "k"),
        (UserEvent::NavigateDown, "j"),
        (UserEvent::NavigateDown, "down"),
        (UserEvent::NavigateLeft, "ctrl-h"),
        (UserEvent::NavigateLeft, "shift-h"),
        (UserEvent::NavigateLeft, "alt-h"),
        (UserEvent::NavigateRight, "ctrl-shift-l"),
        (UserEvent::NavigateRight, "alt-shift-ctrl-l"),
        (UserEvent::Quit, "esc"),
        (UserEvent::Quit, "f12"),
    ]);
    let kb = KeyBind::from_event_keys(&p).unwrap();
    let expect = [
        (KeyEvent::new(KeyCode::Char('k'), KeyModifiers::empty()), UserEvent::NavigateUp),
        (KeyEvent::new(KeyCode::Char('j'), KeyModifiers::empty()), UserEvent::NavigateDown),
        (KeyEvent::new(KeyCode::Down, KeyModifiers::empty()), UserEvent::NavigateDown),
        (KeyEvent::new(KeyCode::Char('h'), mods(false, true, false)), UserEvent::NavigateLeft),
        (KeyEvent::new(KeyCode::Char('H'), mods(true, false, false)), UserEvent::NavigateLeft),
        (KeyEvent::new(KeyCode::Char('h'), mods(false, false, true)), UserEvent::NavigateLeft),
        (KeyEvent::new(KeyCode::Char('L'), mods(true, true, false)), UserEvent::NavigateRight),
        (KeyEvent::new(KeyCode::Char('L'), mods(true, true, true)), UserEvent::NavigateRight),
        (KeyEvent::new(KeyCode::Esc, KeyModifiers::empty()), UserEvent::Quit),
        (KeyEvent::new(KeyCode::F(12), KeyModifiers::empty()), UserEvent::Quit),
    ];
    for (k, e) in expect {
        assert_eq!(kb.get(&k), Some(e));
    }
    assert_eq!(kb.get(&KeyEvent::new(KeyCode::Char('x'), KeyModifiers::empty())), None);
    assert_eq!(kb.keys_for_event(UserEvent::NavigateDown), vec!["Down".to_string(), "j".to_string()]);
    assert_eq!(kb.keys_for_event(UserEvent::Quit), vec!["F12".to_string(), "Esc".to_string()]);
}

#[test]
fn from_event_keys_refuses_bad_key_text() {
    let p = pairs(&[(UserEvent::Quit, "q"), (UserEvent::Quit, "ctrl-nope")]);
    match KeyBind::from_event_keys(&p) {
        Err(KeyBindError::InvalidKey { raw, reason }) => {
            assert_eq!(raw, "ctrl-nope");
            assert_eq!(reason, "Unable to parse nope");
        }
        other => panic!("unexpected {other:?}"),
    }
}

#[test]
fn from_event_keys_refuses_key_bound_twice() {
    let p = pairs(&[(UserEvent::Quit, "q"), (UserEvent::Close, "Q ")]);
    match KeyBind::from_event_keys(&p) {
        Err(KeyBindError::Conflict { key, event, existing }) => {
            assert_eq!(key, KeyEvent::new(KeyCode::Char('q'), KeyModifiers::empty()));
            assert_eq!(event, UserEvent::Close);
            assert_eq!(existing, UserEvent::Quit);
        }
        other => panic!("unexpected {other:?}"),
    }
}

#[test]
fn parse_key_event_named_and_backtab() {
    assert_eq!(
        parse_key_event("BackTab").unwrap(),
        KeyEvent::new(KeyCode::BackTab, mods(true, false, false))
    );
    assert_eq!(parse_key_event("space").unwrap(), KeyEvent::new(KeyCode::Char(' '), KeyModifiers::empty()));
    assert_eq!(parse_key_event("minus").unwrap(), KeyEvent::new(KeyCode::Char('-'), KeyModifiers::empty()));
    assert_eq!(parse_key_event("f13").unwrap_err(), "Unable to parse f13");
}

#[test]
fn keybind_new_lays_patch_over_default() {
    let default = KeyBind::from_event_keys(&pairs(&[(UserEvent::Quit, "q"), (UserEvent::HelpToggle, "?")])).unwrap();
    let patch = KeyBind::from_event_keys(&pairs(&[(UserEvent::Close, "q")])).unwrap();
    let kb = KeyBind::new(default, Some(patch));
    let q = KeyEvent::new(KeyCode::Char('q'), KeyModifiers::empty());
    let help = KeyEvent::new(KeyCode::Char('?'), KeyModifiers::empty());
    assert_eq!(kb.get(&q), Some(UserEvent::Close));
    assert_eq!(kb.get(&help), Some(UserEvent::HelpToggle));
}

/// Reads a `[keybind]` table the way the configuration is read: each action
/// name with its key texts.
fn keybind_from_toml(text: &str) -> KeyBind {
    let table: toml::Table = toml::from_str(text).unwrap();
    let mut list: Vec<(UserEvent, String)> = Vec::new();
    for (name, keys) in table {
        let event = serie::event::user_event_from_name(&name).unwrap();
        for key in keys.as_array().unwrap() {
            list.push((event, key.as_str().unwrap().to_string()));
        }
    }
    KeyBind::from_event_keys(&list).unwrap()
}

#[test]
fn test_deserialize_keybind() {
    let toml = r#"
            navigate_up = ["k"]
            navigate_down = ["j", "down"]
            navigate_left = ["ctrl-h", "shift-h", "alt-h"]
            navigate_right = ["ctrl-shift-l", "alt-shift-ctrl-l"]
            quit = ["esc", "f12"]
        "#;
    let actual = keybind_from_toml(toml);
    // a shifted letter is held in upper case, the form the terminal reports
    let expected = [
        (KeyEvent::new(KeyCode::Char('k'), KeyModifiers::empty()), UserEvent::NavigateUp),
        (KeyEvent::new(KeyCode::Char('j'), KeyModifiers::empty()), UserEvent::NavigateDown),
        (KeyEvent::new(KeyCode::Down, KeyModifiers::empty()), UserEvent::NavigateDown),
        (KeyEvent::new(KeyCode::Char('h'), mods(false, true, false)), UserEvent::NavigateLeft),
        (KeyEvent::new(KeyCode::Char('H'), mods(true, false, false)), UserEvent::NavigateLeft),
        (KeyEvent::new(KeyCode::Char('h'), mods(false, false, true)), UserEvent::NavigateLeft),
        (KeyEvent::new(KeyCode::Char('L'), mods(true, true, false)), UserEvent::NavigateRight),
        (KeyEvent::new(KeyCode::Char('L'), mods(true, true, true)), UserEvent::NavigateRight),
        (KeyEvent::new(KeyCode::Esc, KeyModifiers::empty()), UserEvent::Quit),
        (KeyEvent::new(KeyCode::F(12), KeyModifiers::empty()), UserEvent::Quit),
    ];
    for (k, e) in expected {
        assert_eq!(actual.get(&k), Some(e));
    }
    // nothing else is bound
    let counts = [
        (UserEvent::NavigateUp, 1),
        (UserEvent::NavigateDown, 2),
        (UserEvent::NavigateLeft, 3),
        (UserEvent::NavigateRight, 2),
        (UserEvent::Quit, 2),
    ];
    for (e, n) in counts {
        assert_eq!(actual.keys_for_event(e).len(), n);
    }
    let others = [
        UserEvent::ForceQuit, UserEvent::HelpToggle, UserEvent::Cancel, UserEvent::Close, UserEvent::SelectUp,
        UserEvent::SelectDown, UserEvent::GoToTop, UserEvent::GoToBottom, UserEvent::GoToParent, UserEvent::ScrollUp,
        UserEvent::ScrollDown, UserEvent::PageUp, UserEvent::PageDown, UserEvent::HalfPageUp, UserEvent::HalfPageDown,
        UserEvent::SelectTop, UserEvent::SelectMiddle, UserEvent::SelectBottom, UserEvent::GoToNext,
        UserEvent::GoToPrevious, UserEvent::Confirm, UserEvent::RefListToggle, UserEvent::Search, UserEvent::Filter,
        UserEvent::IgnoreCaseToggle, UserEvent::FuzzyToggle, UserEvent::ShortCopy, UserEvent::FullCopy,
        UserEvent::UserCommandViewToggle(1), UserEvent::CreateTag, UserEvent::DeleteTag, UserEvent::Refresh,
        UserEvent::Unknown,
    ];
    for e in others {
        assert!(actual.keys_for_event(e).is_empty());
    }
}
