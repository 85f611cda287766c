use serie::check::{decide_cell_width_type_from, GraphWidthType};
use serie::graph::image::CellWidthType;

#[test]
fn auto_extra_shrinks_padding_to_fit_single() {
    // max_pos_x=69 → single image width 70, required 72.
    // padding 20 on 80x24 clamps to 20 (remaining 40); extra-shrink until 72 fits.
    let result = decide_cell_width_type_from(69, 80, 24, Some(GraphWidthType::Auto), 20);
    assert_eq!(result.unwrap(), CellWidthType::Single);
}

#[test]
fn auto_picks_double_when_it_fits_padded_area() {
    let result = decide_cell_width_type_from(10, 80, 24, Some(GraphWidthType::Auto), 2);
    assert_eq!(result.unwrap(), CellWidthType::Double);
}

#[test]
fn explicit_double_errors_with_real_term_size_when_unpadded_too_small() {
    let err = decide_cell_width_type_from(50, 80, 24, Some(GraphWidthType::Double), 2)
        .unwrap_err()
        .message();
    assert!(err.contains("80x24"), "{err}");
    assert!(err.contains("104 columns"), "{err}");
}

#[test]
fn error_mentions_full_terminal_width_not_remaining() {
    let err = decide_cell_width_type_from(50, 80, 24, Some(GraphWidthType::Double), 20)
        .unwrap_err()
        .message();
    assert!(err.contains("80x24"), "{err}");
    assert!(!err.contains("40x"), "{err}");
}

#[test]
fn too_small_message_is_exact() {
    let err = decide_cell_width_type_from(50, 80, 24, Some(GraphWidthType::Double), 2).unwrap_err();
    assert_eq!(
        err.message(),
        "Terminal too small (80x24 characters). The current graph needs at least 104 columns to display properly."
    );
}

#[test]
fn explicit_single_fits_and_none_means_auto() {
    assert_eq!(
        decide_cell_width_type_from(10, 80, 24, Some(GraphWidthType::Single), 0).unwrap(),
        CellWidthType::Single
    );
    assert_eq!(
        decide_cell_width_type_from(10, 80, 24, None, 0).unwrap(),
        CellWidthType::Double
    );
}
