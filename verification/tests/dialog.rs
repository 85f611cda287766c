use serie::git::RefType;
use serie::padding::{split_for_pane, Rect};
use serie::widget::dialog::{
    checkbox, delete_ref_option, delete_ref_title, delete_tag_dialog_height, dialog_area, input_display_text,
    refs_pane_width, tag_selection_lines,
};

#[test]
fn dialog_is_centred_in_a_large_area() {
    let r = dialog_area(Rect::new(0, 0, 100, 40), 50, 10);
    assert_eq!(r, Rect::new(25, 15, 50, 10));
}

#[test]
fn dialog_shrinks_in_a_small_area() {
    let r = dialog_area(Rect::new(2, 3, 30, 7), 50, 10);
    assert_eq!(r, Rect::new(4, 4, 26, 5));
    let r = dialog_area(Rect::new(0, 0, 3, 1), 50, 10);
    assert_eq!(r, Rect::new(1, 0, 0, 0));
}

#[test]
fn delete_tag_dialog_grows_with_tags_up_to_eight_rows() {
    assert_eq!(delete_tag_dialog_height(0), 6);
    assert_eq!(delete_tag_dialog_height(3), 9);
    assert_eq!(delete_tag_dialog_height(20), 14);
}

#[test]
fn tag_lines_mark_the_selected_tag() {
    let tags = vec!["v1.0.0".to_string(), "v2.0.0".to_string()];
    let lines = tag_selection_lines(&tags, 1);
    assert_eq!(lines, vec![("  v1.0.0".to_string(), false), ("> v2.0.0".to_string(), true)]);
}

#[test]
fn delete_ref_dialog_texts() {
    assert_eq!(checkbox(true), "[x]");
    assert_eq!(checkbox(false), "[ ]");
    assert_eq!(delete_ref_title(RefType::RemoteBranch), " Delete Remote Branch ");
    assert_eq!(
        delete_ref_option(RefType::Branch, false, true),
        Some(("[x]".to_string(), " Force delete (-D)".to_string()))
    );
    assert_eq!(
        delete_ref_option(RefType::Tag, false, true),
        Some(("[ ]".to_string(), " Delete from origin".to_string()))
    );
    assert_eq!(delete_ref_option(RefType::RemoteBranch, true, true), None);
}

#[test]
fn input_field_shows_the_end_of_a_long_value() {
    assert_eq!(input_display_text("v1.2.3", 20), " v1.2.3");
    assert_eq!(input_display_text("release-2024", 8), " e-2024");
    assert_eq!(input_display_text("abc", 1), " ");
}

#[test]
fn refs_pane_takes_what_the_graph_leaves() {
    assert_eq!(refs_pane_width(100, 9, 26), 26);
    assert_eq!(refs_pane_width(30, 9, 26), 20);
    assert_eq!(refs_pane_width(5, 9, 26), 0);
}

#[test]
fn pane_leaves_the_list_a_row() {
    assert_eq!(split_for_pane(40, 20), (20, 20));
    assert_eq!(split_for_pane(10, 20), (1, 9));
    assert_eq!(split_for_pane(1, 20), (1, 0));
}
