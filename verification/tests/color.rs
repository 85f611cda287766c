use serie::color::{padding_bg, parse_rgba_color, GraphColor, PaddingShade, TermColor};

#[test]
fn padding_bg_lighter_lifts_reset_and_black() {
    assert_eq!(padding_bg(TermColor::Reset, PaddingShade::Lighter), TermColor::Rgb(96, 96, 96));
    assert_eq!(padding_bg(TermColor::Black, PaddingShade::Lighter), TermColor::Rgb(96, 96, 96));
}

#[test]
fn padding_bg_darker_reset_is_black() {
    assert_eq!(padding_bg(TermColor::Reset, PaddingShade::Darker), TermColor::Black);
}

#[test]
fn padding_bg_shifts_rgb_both_ways() {
    let src = TermColor::Rgb(16, 16, 24);
    assert_eq!(padding_bg(src, PaddingShade::Lighter), TermColor::Rgb(112, 112, 120));
    assert_eq!(padding_bg(src, PaddingShade::Darker), TermColor::Rgb(0, 0, 0));
    assert_eq!(
        padding_bg(TermColor::Rgb(240, 240, 240), PaddingShade::Darker),
        TermColor::Rgb(144, 144, 144)
    );
    assert_eq!(
        padding_bg(TermColor::Rgb(240, 240, 240), PaddingShade::Lighter),
        TermColor::Rgb(255, 255, 255)
    );
}

#[test]
fn test_parse_rgba_color_cases() {
    assert_eq!(parse_rgba_color("#ff0000"), Some(GraphColor::from_rgba(255, 0, 0, 255)));
    assert_eq!(
        parse_rgba_color("#AABBCCDD"),
        Some(GraphColor::from_rgba(170, 187, 204, 221))
    );
    assert_eq!(parse_rgba_color("#ff000"), None);
    assert_eq!(parse_rgba_color("#fff"), None);
    assert_eq!(parse_rgba_color("000000"), None);
    assert_eq!(parse_rgba_color("##123456"), None);
}
