use serie::status::{status_line_spans, StatusLine, StatusStyle};

fn texts(v: &[(String, StatusStyle)]) -> Vec<(&str, StatusStyle)> {
    v.iter().map(|(s, st)| (s.as_str(), *st)).collect()
}

#[test]
fn status_line_shows_prefix_notifications_and_input() {
    let s = status_line_spans(&StatusLine::Empty, "", 40).unwrap();
    assert_eq!(texts(&s), vec![("", StatusStyle::Plain)]);
    let s = status_line_spans(&StatusLine::Empty, "12", 40).unwrap();
    assert_eq!(texts(&s), vec![("12", StatusStyle::Transient)]);
    let s = status_line_spans(&StatusLine::NotificationError("boom".to_string()), "", 40).unwrap();
    assert_eq!(texts(&s), vec![("ERROR: boom", StatusStyle::Error)]);
    let s = status_line_spans(&StatusLine::NotificationWarn("w".to_string()), "", 40).unwrap();
    assert_eq!(texts(&s), vec![("w", StatusStyle::Warn)]);
    let input = StatusLine::Input("/abc".to_string(), Some(4), Some("[1/3]".to_string()));
    let s = status_line_spans(&input, "", 20).unwrap();
    assert_eq!(
        texts(&s),
        vec![("/abc", StatusStyle::Input), ("         ", StatusStyle::Plain), ("[1/3]", StatusStyle::Transient)]
    );
    assert!(status_line_spans(&input, "", 10).is_none());
    let plain = StatusLine::Input("/x".to_string(), None, None);
    assert_eq!(texts(&status_line_spans(&plain, "", 1).unwrap()), vec![("/x", StatusStyle::Input)]);
}
