use serie::graph::calc::{calc_graph, Edge, EdgeType};

fn has(edges: &[Edge], t: EdgeType, x: usize) -> bool {
    edges.iter().any(|e| e.edge_type == t && e.pos_x == x)
}

// Row 1 merges row 3, but row 2 sits in row 3's column between them, so
// the merge line detours to the right instead of running through row 2.
#[test]
fn merge_detours_around_a_commit_in_its_column() {
    let parents = vec![vec![Some(2)], vec![Some(2), Some(3)], vec![Some(3)], vec![]];
    let g = calc_graph(&parents);
    let px = g.columns[3];
    let cx = g.columns[1];
    assert_ne!(px, cx);
    assert_eq!(g.columns[2], px);
    assert!(has(&g.edges[3], EdgeType::Right, px));
    assert!(g.edges[3].iter().any(|e| e.edge_type == EdgeType::RightBottom && e.pos_x > px));
    assert!(g.edges[2].iter().any(|e| e.edge_type == EdgeType::Vertical && e.pos_x > px));
}

// A commit whose second parent stays in its column is joined by a plain
// vertical line.
#[test]
fn second_parent_in_the_same_column_is_joined_straight() {
    let parents = vec![vec![Some(1), Some(2)], vec![Some(2)], vec![]];
    let g = calc_graph(&parents);
    assert_eq!(g.columns, vec![0, 0, 0]);
    assert_eq!(g.max_pos_x, 0);
    assert!(has(&g.edges[1], EdgeType::Vertical, 0));
    assert!(!g.edges.iter().flatten().any(|e| e.edge_type == EdgeType::RightBottom));
}

#[test]
fn empty_graph_has_no_columns() {
    let g = calc_graph(&vec![]);
    assert_eq!(g.max_pos_x, 0);
    assert!(g.edges.is_empty());
}
