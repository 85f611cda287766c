use serie::color::GraphColorSet;
use serie::config::GraphColorConfig;
use serie::graph::calc::{Edge, EdgeType};
use serie::graph::image::{
    ascii_symbol, edge_directions, render_ascii_row, AsciiDirections, CellWidthType, GraphStyle,
    ImageParams,
};
use serie::protocol::PreparedImage;

fn ascii_image_params() -> ImageParams {
    let graph_color_config = GraphColorConfig::default();
    let graph_color_set = GraphColorSet::new(&graph_color_config);
    ImageParams::new(&graph_color_set, CellWidthType::Single)
}

fn symbols(image: &PreparedImage) -> String {
    image.cells.iter().map(|c| c.symbol()).collect()
}

fn branch_source_edges() -> Vec<Edge> {
    vec![
        Edge::new(EdgeType::LeftBottom, 0, 0),
        Edge::new(EdgeType::Left, 1, 0),
        Edge::new(EdgeType::Down, 1, 1),
        Edge::new(EdgeType::Right, 1, 3),
        Edge::new(EdgeType::Horizontal, 2, 3),
        Edge::new(EdgeType::RightBottom, 3, 3),
    ]
}

fn merge_from_left_edges() -> Vec<Edge> {
    vec![
        Edge::new(EdgeType::LeftTop, 0, 0),
        Edge::new(EdgeType::Horizontal, 1, 0),
        Edge::new(EdgeType::Left, 2, 0),
        Edge::new(EdgeType::Up, 2, 2),
        Edge::new(EdgeType::Down, 2, 2),
    ]
}

#[test]
fn test_edge_directions_all_types() {
    let cases = [
        (EdgeType::Vertical, (true, true, false, false)),
        (EdgeType::Horizontal, (false, false, true, true)),
        (EdgeType::Up, (true, false, false, false)),
        (EdgeType::Down, (false, true, false, false)),
        (EdgeType::Left, (false, false, true, false)),
        (EdgeType::Right, (false, false, false, true)),
        (EdgeType::LeftTop, (false, true, false, true)),
        (EdgeType::RightTop, (false, true, true, false)),
        (EdgeType::LeftBottom, (true, false, false, true)),
        (EdgeType::RightBottom, (true, false, true, false)),
    ];
    for (edge, expected) in cases {
        let d = edge_directions(edge);
        assert_eq!((d.up, d.down, d.left, d.right), expected);
    }
}

fn dirs(up: bool, down: bool, left: bool, right: bool) -> AsciiDirections {
    AsciiDirections { up, down, left, right }
}

#[test]
fn test_ascii_symbol_all_shapes() {
    let cases = [
        (dirs(true, true, true, true), GraphStyle::Rounded, '┼'),
        (dirs(true, true, true, false), GraphStyle::Rounded, '┤'),
        (dirs(true, true, false, true), GraphStyle::Rounded, '├'),
        (dirs(true, false, true, true), GraphStyle::Rounded, '┴'),
        (dirs(false, true, true, true), GraphStyle::Rounded, '┬'),
        (dirs(true, true, false, false), GraphStyle::Rounded, '│'),
        (dirs(false, false, true, true), GraphStyle::Rounded, '─'),
        (dirs(true, false, false, true), GraphStyle::Rounded, '╰'),
        (dirs(true, false, true, false), GraphStyle::Rounded, '╯'),
        (dirs(false, true, false, true), GraphStyle::Rounded, '╭'),
        (dirs(false, true, true, false), GraphStyle::Rounded, '╮'),
        (dirs(true, false, false, true), GraphStyle::Angular, '└'),
        (dirs(true, false, true, false), GraphStyle::Angular, '┘'),
        (dirs(false, true, false, true), GraphStyle::Angular, '┌'),
        (dirs(false, true, true, false), GraphStyle::Angular, '┐'),
        (dirs(true, false, false, false), GraphStyle::Rounded, '│'),
        (dirs(false, true, false, false), GraphStyle::Rounded, '│'),
        (dirs(false, false, true, false), GraphStyle::Rounded, '─'),
        (dirs(false, false, false, true), GraphStyle::Rounded, '─'),
        (dirs(false, false, false, false), GraphStyle::Rounded, ' '),
    ];
    for (d, style, expected) in cases {
        assert_eq!(ascii_symbol(d, style), expected);
    }
}

#[test]
fn test_render_ascii_row_single_width_simple_branch() {
    let edges = branch_source_edges();
    let params = ascii_image_params();
    let image = render_ascii_row(1, 4, &edges, &params, GraphStyle::Rounded, CellWidthType::Single);
    assert_eq!(symbols(&image), "╰●─╯");
}

#[test]
fn test_render_ascii_row_single_width_angular_corners() {
    let edges = branch_source_edges();
    let params = ascii_image_params();
    let image = render_ascii_row(1, 4, &edges, &params, GraphStyle::Angular, CellWidthType::Single);
    assert_eq!(symbols(&image), "└●─┘");
}

#[test]
fn test_render_ascii_row_single_width_straight_vertical() {
    let edges = vec![
        Edge::new(EdgeType::Vertical, 0, 0),
        Edge::new(EdgeType::Up, 3, 3),
        Edge::new(EdgeType::Down, 3, 3),
    ];
    let params = ascii_image_params();
    let image = render_ascii_row(3, 4, &edges, &params, GraphStyle::Rounded, CellWidthType::Single);
    assert_eq!(symbols(&image), "│  ●");
}

#[test]
fn test_render_ascii_row_branch_source_stays_solid_dot() {
    let edges = branch_source_edges();
    let params = ascii_image_params();
    let image = render_ascii_row(1, 4, &edges, &params, GraphStyle::Rounded, CellWidthType::Single);
    assert_eq!(image.cells[1].symbol(), "●");
}

#[test]
fn test_render_ascii_row_merge_uses_open_circle() {
    let edges = merge_from_left_edges();
    let params = ascii_image_params();
    let image = render_ascii_row(2, 3, &edges, &params, GraphStyle::Rounded, CellWidthType::Single);
    assert_eq!(symbols(&image), "╭─○");
}

#[test]
fn test_render_ascii_row_double_width_branch_source() {
    let edges = branch_source_edges();
    let params = ascii_image_params();
    let image = render_ascii_row(1, 4, &edges, &params, GraphStyle::Rounded, CellWidthType::Double);
    assert_eq!(symbols(&image), "╰─●───╯ ");
}

#[test]
fn test_render_ascii_row_double_width_merge_left_arrow() {
    let edges = merge_from_left_edges();
    let params = ascii_image_params();
    let image = render_ascii_row(2, 3, &edges, &params, GraphStyle::Rounded, CellWidthType::Double);
    assert_eq!(symbols(&image), "╭──>○ ");
}

#[test]
fn test_render_ascii_row_double_width_merge_right_arrow() {
    let edges = vec![
        Edge::new(EdgeType::Right, 0, 2),
        Edge::new(EdgeType::Horizontal, 1, 2),
        Edge::new(EdgeType::RightTop, 2, 2),
        Edge::new(EdgeType::Up, 0, 0),
        Edge::new(EdgeType::Down, 0, 0),
    ];
    let params = ascii_image_params();
    let image = render_ascii_row(0, 3, &edges, &params, GraphStyle::Rounded, CellWidthType::Double);
    assert_eq!(symbols(&image), "○<──╮ ");
}

#[test]
fn render_ascii_row_colors_commit_and_leaves_empty_cells_plain() {
    let edges = vec![
        Edge::new(EdgeType::Vertical, 0, 0),
        Edge::new(EdgeType::Up, 3, 3),
        Edge::new(EdgeType::Down, 3, 3),
    ];
    let params = ascii_image_params();
    let image = render_ascii_row(3, 4, &edges, &params, GraphStyle::Rounded, CellWidthType::Single);
    assert_eq!(image.cell_width, 4);
    assert!(image.upload_data.is_none());
    assert!(image.cells[1].fg.is_none());
    assert!(image.cells[3].fg.is_some());
}
