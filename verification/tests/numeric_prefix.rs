use serie::keybind::{KeyCode, KeyEvent, KeyModifiers};
use serie::event::{parse_usize, simulate_numeric_input};

#[test]
fn test_numeric_prefix_single_digit() {
    assert_eq!(simulate_numeric_input(&['5']), "5");
    assert_eq!(simulate_numeric_input(&['1']), "1");
    assert_eq!(simulate_numeric_input(&['9']), "9");
}

#[test]
fn test_numeric_prefix_multiple_digits() {
    assert_eq!(simulate_numeric_input(&['1', '2', '3']), "123");
    assert_eq!(simulate_numeric_input(&['4', '2']), "42");
    assert_eq!(simulate_numeric_input(&['9', '9', '9']), "999");
}

#[test]
fn test_numeric_prefix_zero_rules() {
    // Zero should not be accepted as the first character
    assert_eq!(simulate_numeric_input(&['0']), "");

    // But zero should be accepted after other digits
    assert_eq!(simulate_numeric_input(&['1', '0']), "10");
    assert_eq!(simulate_numeric_input(&['2', '0', '5']), "205");
}

#[test]
fn test_numeric_prefix_stops_at_non_digit() {
    assert_eq!(simulate_numeric_input(&['5', 'j']), "5");
    assert_eq!(simulate_numeric_input(&['1', '2', 'k']), "12");
    assert_eq!(simulate_numeric_input(&['3', ' ']), "3");
}

#[test]
fn test_numeric_prefix_empty_for_non_numeric_start() {
    assert_eq!(simulate_numeric_input(&['j']), "");
    assert_eq!(simulate_numeric_input(&['k']), "");
    assert_eq!(simulate_numeric_input(&[' ']), "");
}

#[test]
fn test_numeric_prefix_parsing() {
    assert_eq!(parse_usize("5").unwrap_or(1), 5);
    assert_eq!(parse_usize("42").unwrap_or(1), 42);
    assert_eq!(parse_usize("999").unwrap_or(1), 999);
    assert_eq!(parse_usize("").unwrap_or(1), 1);
    assert_eq!(parse_usize("abc").unwrap_or(1), 1);
}

#[test]
fn test_key_event_digit_detection() {
    let digit_events = [
        KeyEvent::new(KeyCode::Char('0'), KeyModifiers::empty()),
        KeyEvent::new(KeyCode::Char('1'), KeyModifiers::empty()),
        KeyEvent::new(KeyCode::Char('5'), KeyModifiers::empty()),
        KeyEvent::new(KeyCode::Char('9'), KeyModifiers::empty()),
    ];

    for event in digit_events {
        if let KeyCode::Char(c) = event.code {
            assert!(c.is_ascii_digit());
            assert!(serie::event::is_valid_numeric_prefix_char(c, "1"));
        }
    }

    let non_digit_events = [
        KeyEvent::new(KeyCode::Char('j'), KeyModifiers::empty()),
        KeyEvent::new(KeyCode::Char('k'), KeyModifiers::empty()),
        KeyEvent::new(KeyCode::Enter, KeyModifiers::empty()),
        KeyEvent::new(KeyCode::Esc, KeyModifiers::empty()),
    ];

    for event in non_digit_events {
        if let KeyCode::Char(c) = event.code {
            assert!(!c.is_ascii_digit());
            assert!(!serie::event::is_valid_numeric_prefix_char(c, "1"));
        }
    }
}
