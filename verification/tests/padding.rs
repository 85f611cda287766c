use serie::padding::{clamp_uniform, inset_rect, shrink_to_fit_graph, Rect};

#[test]
fn clamp_uniform_cases() {
    assert_eq!(clamp_uniform(0, 80, 24), 0);
    assert_eq!(clamp_uniform(2, 80, 24), 2);
    assert_eq!(clamp_uniform(50, 20, 8), 2);
    assert_eq!(clamp_uniform(50, 8, 8), 0);
}

#[test]
fn inset_rect_shrinks_when_it_fits() {
    assert_eq!(inset_rect(Rect::new(0, 0, 80, 24), 2), Rect::new(2, 2, 76, 20));
}

#[test]
fn inset_rect_keeps_area_when_pad_does_not_fit() {
    let area = Rect::new(0, 0, 5, 5);
    assert_eq!(inset_rect(area, 10), area);
}

#[test]
fn shrink_to_fit_graph_cases() {
    assert_eq!(shrink_to_fit_graph(20, 80, 72), 4);
    assert_eq!(shrink_to_fit_graph(2, 80, 24), 2);
    assert_eq!(shrink_to_fit_graph(10, 80, 100), 0);
}
