use serie::color::{GraphColor, GraphColorSet};
use serie::config::GraphColorConfig;
use serie::graph::calc::{Edge, EdgeType};
use serie::graph::canvas::Canvas;
use serie::graph::image::{CellWidthType, GraphStyle, ImageParams};
use serie::graph::pixels::{calc_circle_drawing_pixels, DrawingPixels, Pixels};
use serie::graph::row_image::{calc_graph_row_canvas, encode_row_image};

fn params(t: CellWidthType) -> ImageParams {
    ImageParams::new(&GraphColorSet::new(&GraphColorConfig::default()), t)
}

fn contains(p: &Pixels, q: (i32, i32)) -> bool {
    p.contains(q)
}

#[test]
fn circle_pixels_are_a_filled_disc() {
    let ip = params(CellWidthType::Double);
    let c = calc_circle_drawing_pixels(&ip, 3);
    // Midpoint circle of radius 3 centred on (25, 25): rows 0, ±1, ±2, ±3 reach 3, 3, 2, 1.
    assert!(contains(&c, (25, 25)));
    assert!(contains(&c, (28, 25)));
    assert!(contains(&c, (25, 22)));
    assert!(contains(&c, (27, 27)));
    assert!(!contains(&c, (29, 25)));
    assert!(!contains(&c, (28, 28)));
    assert!(contains(&c, (26, 28)));
    assert!(!contains(&c, (27, 28)));
    assert_eq!(c.len(), 37);
}

#[test]
fn drawing_pixels_lie_in_their_cell() {
    for t in [CellWidthType::Double, CellWidthType::Single] {
        let ip = params(t);
        let dp = DrawingPixels::new(&ip);
        let all = [
            &dp.circle,
            &dp.circle_edge,
            &dp.vertical_edge,
            &dp.horizontal_edge,
            &dp.up_edge,
            &dp.down_edge,
            &dp.left_edge,
            &dp.right_edge,
            &dp.right_top_edge,
            &dp.left_top_edge,
            &dp.right_bottom_edge,
            &dp.left_bottom_edge,
        ];
        for p in all {
            assert!(p.len() > 0);
            for &(x, y) in p.points() {
                assert!(0 <= x && x < ip.width as i32, "{x}");
                assert!(0 <= y && y < ip.height as i32, "{y}");
            }
        }
        assert_eq!(dp.vertical_edge.len(), (ip.line_width as usize) * (ip.height as usize));
        for q in dp.circle.points() {
            assert!(!dp.circle_edge.contains(*q));
        }
    }
}

#[test]
fn row_canvas_paints_circle_and_edges() {
    let ip = params(CellWidthType::Double);
    let dp = DrawingPixels::new(&ip);
    let edges = vec![Edge::new(EdgeType::Up, 0, 0), Edge::new(EdgeType::Vertical, 1, 1)];
    let (canvas, groups) = calc_graph_row_canvas(0, 2, &edges, &ip, &dp, GraphStyle::Rounded);
    assert!(groups.is_empty());
    assert_eq!(canvas.width(), 100);
    assert_eq!(canvas.height(), 50);
    let bytes = canvas.to_rgba_bytes();
    let at = |x: usize, y: usize| -> [u8; 4] {
        let i = 4 * (y * 100 + x);
        [bytes[i], bytes[i + 1], bytes[i + 2], bytes[i + 3]]
    };
    let c0 = ip.edge_colors[0].to_image_color();
    let c1 = ip.edge_colors[1].to_image_color();
    assert_eq!(at(25, 25), c0);
    assert_eq!(at(25, 2), c0);
    assert_eq!(at(75, 25), c1);
    assert_eq!(at(5, 5), [0, 0, 0, 0]);
    let img = encode_row_image(&canvas, 2);
    assert_eq!(img.cell_count, 2);
    assert_eq!(&img.bytes[1..4], b"PNG");
}

#[test]
fn angular_rows_leave_corners_to_diagonals() {
    let ip = params(CellWidthType::Single);
    let dp = DrawingPixels::new(&ip);
    let edges = vec![
        Edge::new(EdgeType::Right, 0, 2),
        Edge::new(EdgeType::Horizontal, 1, 2),
        Edge::new(EdgeType::RightTop, 2, 2),
        Edge::new(EdgeType::Up, 0, 0),
        Edge::new(EdgeType::Left, 3, 4),
    ];
    let (_, groups) = calc_graph_row_canvas(0, 4, &edges, &ip, &dp, GraphStyle::Angular);
    assert_eq!(groups.len(), 2);
    assert_eq!(groups[0].len(), 3);
    assert_eq!(groups[1], vec![Edge::new(EdgeType::Left, 3, 4)]);
    let _ = GraphColor::transparent();
    let _ = Canvas::new(1, 1);
}
