use serie::protocol::{auto_detect, ImageProtocol};
use serie::watch::{watch_interval, watch_tick, WatchTick};

#[test]
fn auto_detect_picks_kitty_for_kitty_and_ghostty() {
    assert_eq!(auto_detect(true, None, false), ImageProtocol::Kitty);
    assert_eq!(auto_detect(false, Some("xterm-ghostty"), false), ImageProtocol::Kitty);
    assert_eq!(auto_detect(false, Some("xterm-256color"), true), ImageProtocol::Kitty);
}

#[test]
fn auto_detect_falls_back_to_box_drawing() {
    assert_eq!(auto_detect(false, None, false), ImageProtocol::Ascii);
    assert_eq!(auto_detect(false, Some("xterm-256color"), false), ImageProtocol::Ascii);
}

#[test]
fn watch_interval_defaults_and_clamps() {
    assert_eq!(watch_interval(None, false), None);
    assert_eq!(watch_interval(Some(None), false), Some(30));
    assert_eq!(watch_interval(Some(Some(2)), false), Some(5));
    assert_eq!(watch_interval(Some(Some(12)), true), Some(12));
    assert_eq!(watch_interval(None, true), Some(30));
}

#[test]
fn watch_tick_waits_skips_and_refreshes() {
    assert_eq!(watch_tick(3, 5, false), WatchTick::Wait);
    assert_eq!(watch_tick(5, 5, true), WatchTick::Skip);
    assert_eq!(watch_tick(7, 5, false), WatchTick::Refresh);
}

#[test]
fn iterm2_image_carries_standard_base64() {
    let p = ImageProtocol::Iterm2.prepare_image(b"ab", 2, 7);
    assert_eq!(p.cells.len(), 2);
    assert_eq!(
        p.cells[0].symbol,
        "\u{1b}]1337;File=size=2;width=2;height=1;preserveAspectRatio=0;inline=1:YWI=\u{7}"
    );
    let p = ImageProtocol::Iterm2.prepare_image(b"abcd", 1, 7);
    assert!(p.cells[0].symbol.ends_with(":YWJjZA==\u{7}"));
    assert!(p.cells.len() == 1);
}
