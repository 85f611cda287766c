use vstd::prelude::*;

use crate::color::GraphColor;
use crate::graph::calc::{vertically_related, Edge, EdgeType};
use crate::graph::canvas::{hits, in_bounds, rgba_bytes, Canvas};
use crate::graph::image::{GraphRowImage, GraphStyle, ImageParams};
use crate::graph::pixels::DrawingPixels;

verus! {

/// One coat of paint on a row image: the whole image (when `.0` holds), or
/// the positions of `.1` moved right by `.2`; in colour `.3`.
pub type Layer = (bool, Set<(i32, i32)>, int, GraphColor);

/// The colour at `(x, y)` after the layers are painted in order on `base`.
pub open spec fn paint(base: GraphColor, layers: Seq<Layer>, x: int, y: int) -> GraphColor
    decreases layers.len(),
{
    if layers.len() == 0 {
        base
    } else {
        let l = layers.last();
        if l.0 || hits(l.1, l.2, x, y) {
            l.3
        } else {
            paint(base, layers.drop_last(), x, y)
        }
    }
}

/// The pixels of a shape.
pub open spec fn edge_set(dp: &DrawingPixels, t: EdgeType) -> Set<(i32, i32)> {
    match t {
        EdgeType::Vertical => dp.vertical_edge.set(),
        EdgeType::Horizontal => dp.horizontal_edge.set(),
        EdgeType::Up => dp.up_edge.set(),
        EdgeType::Down => dp.down_edge.set(),
        EdgeType::Left => dp.left_edge.set(),
        EdgeType::Right => dp.right_edge.set(),
        EdgeType::RightTop => dp.right_top_edge.set(),
        EdgeType::RightBottom => dp.right_bottom_edge.set(),
        EdgeType::LeftTop => dp.left_top_edge.set(),
        EdgeType::LeftBottom => dp.left_bottom_edge.set(),
    }
}

/// The colour of graph column `i`.
pub open spec fn column_color(p: &ImageParams, i: int) -> GraphColor {
    p.edge_colors@[i % p.edge_colors@.len() as int]
}

/// The layer of one edge: its shape in its cell, in the colour of its line.
pub open spec fn edge_layer(p: &ImageParams, dp: &DrawingPixels, e: Edge) -> Layer {
    (false, edge_set(dp, e.edge_type), e.pos_x * p.width, column_color(p, e.associated_line_pos_x as int))
}

/// The layers of the edges drawn as they are: all of them with rounded
/// corners, only the vertical ones with angular corners (the others are
/// drawn as diagonals).
pub open spec fn edge_layers(p: &ImageParams, dp: &DrawingPixels, edges: Seq<Edge>, style: GraphStyle) -> Seq<Layer>
    decreases edges.len(),
{
    if edges.len() == 0 {
        Seq::empty()
    } else {
        let prev = edge_layers(p, dp, edges.drop_last(), style);
        if style == GraphStyle::Rounded || vertically_related(edges.last().edge_type) {
            prev.push(edge_layer(p, dp, edges.last()))
        } else {
            prev
        }
    }
}

/// The layers of a row image: the background unless it is transparent, the
/// commit circle in the colour of its column, its ring unless that is
/// transparent, then the edges.
pub open spec fn row_layers(p: &ImageParams, dp: &DrawingPixels, pos_x: int, edges: Seq<Edge>, style: GraphStyle) -> Seq<Layer> {
    let bg: Seq<Layer> = if p.background_color.rgba().3 != 0 {
        seq![(true, Set::<(i32, i32)>::empty(), 0int, p.background_color)]
    } else {
        Seq::empty()
    };
    let circle: Seq<Layer> = seq![(false, dp.circle.set(), pos_x * p.width, column_color(p, pos_x))];
    let ring: Seq<Layer> = if p.circle_edge_color.rgba().3 != 0 {
        seq![(false, dp.circle_edge.set(), pos_x * p.width, p.circle_edge_color)]
    } else {
        Seq::empty()
    };
    bg + circle + ring + edge_layers(p, dp, edges, style)
}

/// The edges that are not vertical, grouped by the line they belong to, in
/// the order each line first appears.
pub open spec fn diagonal_groups(edges: Seq<Edge>) -> Seq<Seq<Edge>>
    decreases edges.len(),
{
    if edges.len() == 0 {
        Seq::empty()
    } else {
        let prev = diagonal_groups(edges.drop_last());
        let e = edges.last();
        if vertically_related(e.edge_type) {
            prev
        } else if exists|i: int| 0 <= i < prev.len() && prev[i][0].associated_line_pos_x == e.associated_line_pos_x {
            let i = choose|i: int| 0 <= i < prev.len() && prev[i][0].associated_line_pos_x == e.associated_line_pos_x;
            prev.update(i, prev[i].push(e))
        } else {
            prev.push(seq![e])
        }
    }
}

pub open spec fn groups_view(g: Seq<Vec<Edge>>) -> Seq<Seq<Edge>> {
    g.map_values(|v: Vec<Edge>| v@)
}

fn color_of(image_params: &ImageParams, index: usize) -> (c: GraphColor)
    requires
        image_params.edge_colors@.len() > 0,
    ensures
        c == column_color(image_params, index as int),
{
    image_params.edge_color(index)
}

/// Paints the row image of a commit in column `commit_pos_x`, `cell_count`
/// columns wide, and returns it with the groups of edges still to be drawn
/// as diagonals (none with rounded corners).
pub fn calc_graph_row_canvas(
    commit_pos_x: usize,
    cell_count: usize,
    edges: &Vec<Edge>,
    image_params: &ImageParams,
    drawing_pixels: &DrawingPixels,
    graph_style: GraphStyle,
) -> (r: (Canvas, Vec<Vec<Edge>>))
    requires
        commit_pos_x < cell_count,
        forall|i: int| 0 <= i < edges@.len() ==> #[trigger] edges@[i].pos_x < cell_count,
        image_params.width * cell_count <= u32::MAX,
        image_params.width * cell_count * image_params.height <= usize::MAX,
        image_params.edge_colors@.len() > 0,
    ensures
        r.0.wf(),
        r.0.w() == image_params.width * cell_count,
        r.0.h() == image_params.height,
        forall|x: int, y: int| in_bounds(r.0.w(), r.0.h(), x, y) ==> #[trigger] r.0.at(x, y) == paint(
            GraphColor::clear_color(),
            row_layers(image_params, drawing_pixels, commit_pos_x as int, edges@, graph_style),
            x,
            y,
        ),
        graph_style == GraphStyle::Rounded ==> r.1@.len() == 0,
        graph_style == GraphStyle::Angular ==> groups_view(r.1@) == diagonal_groups(edges@),
{
    proof {
        assert(image_params.width * cell_count <= u32::MAX);
        assert(commit_pos_x * image_params.width <= image_params.width * cell_count) by (nonlinear_arith)
            requires
                commit_pos_x < cell_count,
        ;
    }
    let image_width = (image_params.width as usize * cell_count) as u32;
    let image_height = image_params.height as u32;
    let mut canvas = Canvas::new(image_width, image_height);
    let ghost base = GraphColor::clear_color();
    let ghost layers = row_layers(image_params, drawing_pixels, commit_pos_x as int, edges@, graph_style);
    let ghost bg: Seq<Layer> = if image_params.background_color.rgba().3 != 0 {
        seq![(true, Set::<(i32, i32)>::empty(), 0int, image_params.background_color)]
    } else {
        Seq::empty()
    };
    if image_params.background_color.to_image_color()[3] != 0 {
        canvas.fill(image_params.background_color);
    }
    proof {
        assert forall|x: int, y: int| in_bounds(canvas.w(), canvas.h(), x, y) implies #[trigger] canvas.at(x, y) == paint(
            base,
            bg,
            x,
            y,
        ) by {
            if bg.len() > 0 {
                assert(bg.drop_last().len() == 0);
            }
        }
    }
    let x_offset = (commit_pos_x * image_params.width as usize) as i64;
    let circle_color = color_of(image_params, commit_pos_x);
    let ghost c0 = canvas;
    canvas.draw_pixels(&drawing_pixels.circle, x_offset, circle_color);
    let ghost circle_layer: Layer = (false, drawing_pixels.circle.set(), commit_pos_x * image_params.width, circle_color);
    proof {
        assert forall|x: int, y: int| in_bounds(canvas.w(), canvas.h(), x, y) implies #[trigger] canvas.at(x, y) == paint(
            base,
            bg.push(circle_layer),
            x,
            y,
        ) by {
            assert(bg.push(circle_layer).drop_last() == bg);
            assert(c0.at(x, y) == paint(base, bg, x, y));
        }
    }
    let ghost ring: Seq<Layer> = if image_params.circle_edge_color.rgba().3 != 0 {
        seq![(false, drawing_pixels.circle_edge.set(), commit_pos_x * image_params.width, image_params.circle_edge_color)]
    } else {
        Seq::empty()
    };
    let ghost c1 = canvas;
    if image_params.circle_edge_color.to_image_color()[3] != 0 {
        canvas.draw_pixels(&drawing_pixels.circle_edge, x_offset, image_params.circle_edge_color);
    }
    let ghost head = bg + seq![circle_layer] + ring;
    proof {
        assert(bg.push(circle_layer) == bg + seq![circle_layer]);
        assert forall|x: int, y: int| in_bounds(canvas.w(), canvas.h(), x, y) implies #[trigger] canvas.at(x, y) == paint(
            base,
            head,
            x,
            y,
        ) by {
            assert(c1.at(x, y) == paint(base, bg + seq![circle_layer], x, y));
            if ring.len() > 0 {
                assert(head.drop_last() == bg + seq![circle_layer]);
            } else {
                assert(head == bg + seq![circle_layer]);
            }
        }
    }
    let mut groups: Vec<Vec<Edge>> = Vec::new();
    let mut i: usize = 0;
    while i < edges.len()
        invariant
            i <= edges@.len(),
            canvas.wf(),
            canvas.w() == image_params.width * cell_count,
            canvas.h() == image_params.height,
            image_params.width * cell_count <= u32::MAX,
            image_params.edge_colors@.len() > 0,
            forall|k: int| 0 <= k < edges@.len() ==> #[trigger] edges@[k].pos_x < cell_count,
            forall|x: int, y: int| in_bounds(canvas.w(), canvas.h(), x, y) ==> #[trigger] canvas.at(x, y) == paint(
                base,
                head + edge_layers(image_params, drawing_pixels, edges@.take(i as int), graph_style),
                x,
                y,
            ),
            graph_style == GraphStyle::Rounded ==> groups@.len() == 0,
            graph_style == GraphStyle::Angular ==> groups_view(groups@) == diagonal_groups(edges@.take(i as int)),
            forall|g: int| 0 <= g < groups@.len() ==> (#[trigger] groups@[g])@.len() > 0,
            forall|a: int, b: int|
                0 <= a < b < groups@.len() ==> (#[trigger] groups@[a])@[0].associated_line_pos_x != (
                #[trigger] groups@[b])@[0].associated_line_pos_x,
        decreases edges@.len() - i,
    {
        let e = edges[i];
        let ghost prefix = edges@.take(i as int);
        proof {
            assert(edges@.take(i + 1).drop_last() == prefix);
            assert(edges@.take(i + 1).last() == e);
        }
        let ghost before = canvas;
        if graph_style == GraphStyle::Rounded || e.edge_type.is_vertically_related() {
            let pixels = match e.edge_type {
                EdgeType::Vertical => &drawing_pixels.vertical_edge,
                EdgeType::Horizontal => &drawing_pixels.horizontal_edge,
                EdgeType::Up => &drawing_pixels.up_edge,
                EdgeType::Down => &drawing_pixels.down_edge,
                EdgeType::Left => &drawing_pixels.left_edge,
                EdgeType::Right => &drawing_pixels.right_edge,
                EdgeType::RightTop => &drawing_pixels.right_top_edge,
                EdgeType::RightBottom => &drawing_pixels.right_bottom_edge,
                EdgeType::LeftTop => &drawing_pixels.left_top_edge,
                EdgeType::LeftBottom => &drawing_pixels.left_bottom_edge,
            };
            proof {
                assert(e.pos_x * image_params.width <= image_params.width * cell_count) by (nonlinear_arith)
                    requires
                        e.pos_x < cell_count,
                ;
            }
            let ex = (e.pos_x * image_params.width as usize) as i64;
            let color = color_of(image_params, e.associated_line_pos_x);
            canvas.draw_pixels(pixels, ex, color);
            proof {
                let ls = head + edge_layers(image_params, drawing_pixels, edges@.take(i + 1), graph_style);
                let prev = head + edge_layers(image_params, drawing_pixels, prefix, graph_style);
                assert(ls == prev.push(edge_layer(image_params, drawing_pixels, e)));
                assert(pixels.set() == edge_set(drawing_pixels, e.edge_type));
                assert(ex == e.pos_x * image_params.width);
                assert forall|x: int, y: int| in_bounds(canvas.w(), canvas.h(), x, y) implies #[trigger] canvas.at(x, y)
                    == paint(base, ls, x, y) by {
                    assert(ls.drop_last() == prev);
                    assert(before.at(x, y) == paint(base, prev, x, y));
                }
            }
        } else {
            proof {
                assert(edge_layers(image_params, drawing_pixels, edges@.take(i + 1), graph_style) == edge_layers(
                    image_params,
                    drawing_pixels,
                    prefix,
                    graph_style,
                ));
            }
            let ghost gprev = groups@;
            let mut g: usize = 0;
            while g < groups.len() && groups[g][0].associated_line_pos_x != e.associated_line_pos_x
                invariant
                    g <= groups@.len(),
                    forall|k: int| 0 <= k < groups@.len() ==> (#[trigger] groups@[k])@.len() > 0,
                    forall|k: int| 0 <= k < g ==> (#[trigger] groups@[k])@[0].associated_line_pos_x != e.associated_line_pos_x,
                decreases groups@.len() - g,
            {
                g += 1;
            }
            if g < groups.len() {
                let mut grp = groups.remove(g);
                grp.push(e);
                groups.insert(g, grp);
                proof {
                    let pv = groups_view(gprev);
                    assert forall|k: int| 0 <= k < pv.len() && pv[k][0].associated_line_pos_x == e.associated_line_pos_x implies k
                        == g by {
                        if k < g {
                            assert(gprev[k]@[0].associated_line_pos_x != e.associated_line_pos_x);
                        } else if k > g {
                            assert(gprev[g as int]@[0].associated_line_pos_x != gprev[k]@[0].associated_line_pos_x);
                        }
                    }
                    assert forall|k: int| 0 <= k < groups@.len() implies groups@[k]@[0] == gprev[k]@[0] by {
                        if k == g {
                            assert(groups@[k]@ == gprev[k]@.push(e));
                        }
                    }
                    assert(pv[g as int][0].associated_line_pos_x == e.associated_line_pos_x);
                    assert(groups_view(groups@) =~= pv.update(g as int, pv[g as int].push(e)));
                }
            } else {
                let mut grp: Vec<Edge> = Vec::new();
                grp.push(e);
                groups.push(grp);
                proof {
                    let pv = groups_view(gprev);
                    assert(!(exists|k: int| 0 <= k < pv.len() && pv[k][0].associated_line_pos_x == e.associated_line_pos_x)) by {
                        assert forall|k: int| 0 <= k < pv.len() implies pv[k][0].associated_line_pos_x != e.associated_line_pos_x by {
                            assert(gprev[k]@[0].associated_line_pos_x != e.associated_line_pos_x);
                        }
                    }
                    assert(groups_view(groups@) =~= pv.push(seq![e]));
                }
            }
        }
        i += 1;
    }
    proof {
        assert(edges@.take(i as int) == edges@);
        assert(head + edge_layers(image_params, drawing_pixels, edges@, graph_style) == layers);
    }
    (canvas, groups)
}

/// The PNG file that `image::write_buffer_with_format` writes for an RGBA
/// image of `width` x `height` pixels.
pub uninterp spec fn png_encoding(rgba: Seq<u8>, width: u32, height: u32) -> Seq<u8>;

/// Calls `image::write_buffer_with_format` to write the RGBA bytes as a PNG
/// file into memory. What the file holds is only named: how the encoder
/// compresses and chunks the data is its own. The encoder fails only on an
/// empty image or a buffer that is not four bytes per pixel (writing into a
/// vector does not fail), and both are ruled out here.
#[verifier::external_body]
fn build_image(img_buf: &[u8], image_width: u32, image_height: u32) -> (bytes: Vec<u8>)
    requires
        image_width > 0,
        image_height > 0,
        img_buf@.len() == image_width * image_height * 4,
    ensures
        bytes@ == png_encoding(img_buf@, image_width, image_height),
{
    let mut bytes = std::io::Cursor::new(Vec::new());
    image::write_buffer_with_format(
        &mut bytes,
        img_buf,
        image_width,
        image_height,
        image::ColorType::Rgba8,
        image::ImageFormat::Png,
    ).unwrap();
    bytes.into_inner()
}

/// The row image of a finished canvas, `cell_count` graph columns wide.
pub fn encode_row_image(canvas: &Canvas, cell_count: usize) -> (r: GraphRowImage)
    requires
        canvas.wf(),
        canvas.w() > 0,
        canvas.h() > 0,
        canvas.w() * canvas.h() * 4 <= usize::MAX,
    ensures
        r.cell_count == cell_count,
        r.bytes@ == png_encoding(rgba_bytes(canvas.colors()), canvas.w() as u32, canvas.h() as u32),
{
    proof {
        assert(canvas.colors().len() == canvas.w() * canvas.h()) by {
            canvas.lemma_at(0, 0);
        }
    }
    let rgba = canvas.to_rgba_bytes();
    let bytes = build_image(rgba.as_slice(), canvas.width(), canvas.height());
    GraphRowImage { bytes, cell_count }
}

} // verus!
