use vstd::prelude::*;

use crate::color::{GraphColor, GraphColorSet, TermColor};
use crate::graph::calc::{vertically_related, Edge, EdgeType, Graph};
use crate::protocol::{ImageProtocol, PreparedImage, PreparedImageCell};

verus! {

/// How many terminal cells one graph column occupies.
#[derive(Debug, Clone, Copy, PartialEq, Eq, Structural)]
pub enum CellWidthType {
    /// Two cells per column.
    Double,
    /// One cell per column.
    Single,
}

/// The shape of the graph's corners.
#[derive(Debug, Clone, Copy, PartialEq, Eq, Structural)]
pub enum GraphStyle {
    Rounded,
    Angular,
}

/// Whether each row image is as wide as that row needs or as the widest row.
#[derive(Debug, Clone, Copy, PartialEq, Eq, Structural)]
pub enum GraphImageWidthMode {
    Compact,
    Fixed,
}

/// The geometry and colours of graph images.
#[derive(Debug)]
pub struct ImageParams {
    pub width: u16,
    pub height: u16,
    pub line_width: u16,
    pub circle_inner_radius: u16,
    pub circle_outer_radius: u16,
    pub edge_colors: Vec<GraphColor>,
    pub circle_edge_color: GraphColor,
    pub background_color: GraphColor,
}

impl ImageParams {
    /// The sizes for the cell width (a 50 x 50 pixel cell for double width, 25
    /// x 50 for single) and the colours of the colour set.
    pub fn new(graph_color_set: &GraphColorSet, cell_width_type: CellWidthType) -> (p: ImageParams)
        ensures
            cell_width_type == CellWidthType::Double ==> p.width == 50 && p.height == 50 && p.line_width == 5
                && p.circle_inner_radius == 10 && p.circle_outer_radius == 13,
            cell_width_type == CellWidthType::Single ==> p.width == 25 && p.height == 50 && p.line_width == 3
                && p.circle_inner_radius == 7 && p.circle_outer_radius == 10,
            p.edge_colors@ == graph_color_set.colors@,
            p.circle_edge_color == graph_color_set.edge_color,
            p.background_color == graph_color_set.background_color,
    {
        let (width, height, line_width, circle_inner_radius, circle_outer_radius) = match cell_width_type {
            CellWidthType::Double => (50u16, 50u16, 5u16, 10u16, 13u16),
            CellWidthType::Single => (25u16, 50u16, 3u16, 7u16, 10u16),
        };
        let mut edge_colors: Vec<GraphColor> = Vec::new();
        let mut i: usize = 0;
        while i < graph_color_set.colors.len()
            invariant
                i <= graph_color_set.colors@.len(),
                edge_colors@ == graph_color_set.colors@.take(i as int),
            decreases graph_color_set.colors@.len() - i,
        {
            edge_colors.push(graph_color_set.colors[i]);
            proof {
                assert(graph_color_set.colors@.take(i + 1) == graph_color_set.colors@.take(i as int).push(
                    graph_color_set.colors@[i as int],
                ));
            }
            i += 1;
        }
        proof {
            assert(graph_color_set.colors@.take(i as int) == graph_color_set.colors@);
        }
        ImageParams {
            width,
            height,
            line_width,
            circle_inner_radius,
            circle_outer_radius,
            edge_colors,
            circle_edge_color: graph_color_set.edge_color,
            background_color: graph_color_set.background_color,
        }
    }

    /// The colour of graph column `index`, cycling through the colours.
    pub fn edge_color(&self, index: usize) -> (c: GraphColor)
        requires
            self.edge_colors@.len() > 0,
        ensures
            c == self.edge_colors@[index as int % self.edge_colors@.len() as int],
    {
        self.edge_colors[index % self.edge_colors.len()]
    }

    /// The radius of a corner: half the smaller side of the cell.
    pub fn corner_radius(&self) -> (r: u16)
        ensures
            r == if self.width < self.height { self.width / 2 } else { self.height / 2 },
    {
        if self.width < self.height {
            self.width / 2
        } else {
            self.height / 2
        }
    }
}

/// The sides of a cell that lines leave it by.
#[derive(Debug, Clone, Copy, PartialEq, Eq, Structural)]
pub struct AsciiDirections {
    pub up: bool,
    pub down: bool,
    pub left: bool,
    pub right: bool,
}

/// The sides of its cell that a shape leaves by.
pub open spec fn directions_of(t: EdgeType) -> AsciiDirections {
    match t {
        EdgeType::Vertical => AsciiDirections { up: true, down: true, left: false, right: false },
        EdgeType::Horizontal => AsciiDirections { up: false, down: false, left: true, right: true },
        EdgeType::Up => AsciiDirections { up: true, down: false, left: false, right: false },
        EdgeType::Down => AsciiDirections { up: false, down: true, left: false, right: false },
        EdgeType::Left => AsciiDirections { up: false, down: false, left: true, right: false },
        EdgeType::Right => AsciiDirections { up: false, down: false, left: false, right: true },
        EdgeType::LeftTop => AsciiDirections { up: false, down: true, left: false, right: true },
        EdgeType::RightTop => AsciiDirections { up: false, down: true, left: true, right: false },
        EdgeType::LeftBottom => AsciiDirections { up: true, down: false, left: false, right: true },
        EdgeType::RightBottom => AsciiDirections { up: true, down: false, left: true, right: false },
    }
}

/// The sides a shape leaves its cell by: a corner named after the corner of
/// the cell it bends through (the `LeftTop` curve joins the bottom and the
/// right side).
pub fn edge_directions(edge_type: EdgeType) -> (d: AsciiDirections)
    ensures
        d == directions_of(edge_type),
{
    let mut d = AsciiDirections { up: false, down: false, left: false, right: false };
    match edge_type {
        EdgeType::Vertical => {
            d.up = true;
            d.down = true;
        },
        EdgeType::Horizontal => {
            d.left = true;
            d.right = true;
        },
        EdgeType::Up => d.up = true,
        EdgeType::Down => d.down = true,
        EdgeType::Left => d.left = true,
        EdgeType::Right => d.right = true,
        EdgeType::LeftTop => {
            d.down = true;
            d.right = true;
        },
        EdgeType::RightTop => {
            d.down = true;
            d.left = true;
        },
        EdgeType::LeftBottom => {
            d.up = true;
            d.right = true;
        },
        EdgeType::RightBottom => {
            d.up = true;
            d.left = true;
        },
    }
    d
}

/// The box-drawing character joining the sides `d`: crosses and T-junctions
/// alike in both styles, corners rounded or square, a single side drawn as
/// the full line through the cell, and a space for no side.
pub open spec fn symbol_of(d: AsciiDirections, style: GraphStyle) -> char {
    let rounded = style == GraphStyle::Rounded;
    match (d.up, d.down, d.left, d.right) {
        (true, true, true, true) => '\u{253C}',
        (true, true, true, false) => '\u{2524}',
        (true, true, false, true) => '\u{251C}',
        (true, false, true, true) => '\u{2534}',
        (false, true, true, true) => '\u{252C}',
        (true, true, false, false) => '\u{2502}',
        (false, false, true, true) => '\u{2500}',
        (true, false, false, true) => if rounded { '\u{2570}' } else { '\u{2514}' },
        (true, false, true, false) => if rounded { '\u{256F}' } else { '\u{2518}' },
        (false, true, false, true) => if rounded { '\u{256D}' } else { '\u{250C}' },
        (false, true, true, false) => if rounded { '\u{256E}' } else { '\u{2510}' },
        (true, false, false, false) => '\u{2502}',
        (false, true, false, false) => '\u{2502}',
        (false, false, true, false) => '\u{2500}',
        (false, false, false, true) => '\u{2500}',
        (false, false, false, false) => ' ',
    }
}

pub fn ascii_symbol(d: AsciiDirections, style: GraphStyle) -> (c: char)
    ensures
        c == symbol_of(d, style),
{
    let (top_left, top_right, bottom_left, bottom_right) = match style {
        GraphStyle::Rounded => ('\u{256D}', '\u{256E}', '\u{2570}', '\u{256F}'),
        GraphStyle::Angular => ('\u{250C}', '\u{2510}', '\u{2514}', '\u{2518}'),
    };
    match (d.up, d.down, d.left, d.right) {
        (true, true, true, true) => '\u{253C}',
        (true, true, true, false) => '\u{2524}',
        (true, true, false, true) => '\u{251C}',
        (true, false, true, true) => '\u{2534}',
        (false, true, true, true) => '\u{252C}',
        (true, true, false, false) => '\u{2502}',
        (false, false, true, true) => '\u{2500}',
        (true, false, false, true) => bottom_left,
        (true, false, true, false) => bottom_right,
        (false, true, false, true) => top_left,
        (false, true, true, false) => top_right,
        (true, false, false, false) => '\u{2502}',
        (false, true, false, false) => '\u{2502}',
        (false, false, true, false) => '\u{2500}',
        (false, false, false, true) => '\u{2500}',
        (false, false, false, false) => ' ',
    }
}

/// The sides of either.
pub open spec fn dirs_or(a: AsciiDirections, b: AsciiDirections) -> AsciiDirections {
    AsciiDirections { up: a.up || b.up, down: a.down || b.down, left: a.left || b.left, right: a.right || b.right }
}

/// The sides that the first `n` edges in column `x` leave their cell by.
pub open spec fn column_dirs(edges: Seq<Edge>, x: int, n: int) -> AsciiDirections
    decreases n,
{
    if n <= 0 {
        AsciiDirections { up: false, down: false, left: false, right: false }
    } else {
        let d = column_dirs(edges, x, n - 1);
        if edges[n - 1].pos_x == x {
            dirs_or(d, directions_of(edges[n - 1].edge_type))
        } else {
            d
        }
    }
}

/// The line whose colour column `x` takes, from its first `n` edges: the
/// last vertically running one, else the first one.
pub open spec fn column_color(edges: Seq<Edge>, x: int, n: int) -> Option<usize>
    decreases n,
{
    if n <= 0 {
        None
    } else {
        let c = column_color(edges, x, n - 1);
        if edges[n - 1].pos_x == x && (c is None || vertically_related(edges[n - 1].edge_type)) {
            Some(edges[n - 1].associated_line_pos_x)
        } else {
            c
        }
    }
}

/// A line of the row comes up from a parent below into the commit: a
/// merge.
pub open spec fn is_merge_row(edges: Seq<Edge>) -> bool {
    exists|i: int|
        0 <= i < edges.len() && (#[trigger] edges[i].edge_type == EdgeType::LeftTop || edges[i].edge_type
            == EdgeType::RightTop)
}

/// The terminal colour of graph line `i`.
pub open spec fn line_color(colors: Seq<GraphColor>, i: usize) -> TermColor {
    let c = colors[i as int % colors.len() as int].rgba();
    TermColor::Rgb(c.0, c.1, c.2)
}

/// The foreground of a column that takes the colour of line `idx`, if any.
pub open spec fn line_fg(colors: Seq<GraphColor>, idx: Option<usize>) -> Option<TermColor> {
    match idx {
        Some(i) => Some(line_color(colors, i)),
        None => None,
    }
}

/// The mark of the commit: an open circle on a merge row, else a dot.
pub open spec fn commit_mark(edges: Seq<Edge>) -> Seq<char> {
    if is_merge_row(edges) {
        seq!['\u{25CB}']
    } else {
        seq!['\u{25CF}']
    }
}

/// `cell` shows `text` in colour `fg` and is drawn.
pub open spec fn shows(cell: PreparedImageCell, text: Seq<char>, fg: Option<TermColor>) -> bool {
    cell.symbol@ == text && cell.fg == fg && !cell.skip
}

/// The symbol cell of column `x` (cells are `w` per column): the commit
/// mark in the commit's colour for the commit column, else the box-drawing
/// character of the column's edges in the colour of its line.
pub open spec fn symbol_cell_ok(
    cells: Seq<PreparedImageCell>,
    x: int,
    w: int,
    pos_x: int,
    edges: Seq<Edge>,
    colors: Seq<GraphColor>,
    style: GraphStyle,
) -> bool {
    let n = edges.len() as int;
    if x == pos_x {
        shows(cells[x * w], commit_mark(edges), Some(line_color(colors, pos_x as usize)))
    } else {
        shows(cells[x * w], seq![symbol_of(column_dirs(edges, x, n), style)], line_fg(colors, column_color(edges, x, n)))
    }
}

/// The filler cell after column `x` in double width: an arrow pointing into
/// a merge commit next to it, a line where a horizontal line crosses the gap
/// (in the colour of the column, else of the next one), or a space.
pub open spec fn filler_cell_ok(
    cells: Seq<PreparedImageCell>,
    x: int,
    pos_x: int,
    cell_count: int,
    edges: Seq<Edge>,
    colors: Seq<GraphColor>,
) -> bool {
    let n = edges.len() as int;
    let here = column_dirs(edges, x, n);
    let merge = is_merge_row(edges);
    let commit_fg = Some(line_color(colors, pos_x as usize));
    if merge && column_dirs(edges, pos_x, n).left && x + 1 == pos_x {
        shows(cells[x * 2 + 1], seq!['>'], commit_fg)
    } else if merge && column_dirs(edges, pos_x, n).right && x == pos_x {
        shows(cells[x * 2 + 1], seq!['<'], commit_fg)
    } else if here.right || (x + 1 < cell_count && column_dirs(edges, x + 1, n).left) {
        shows(
            cells[x * 2 + 1],
            seq!['\u{2500}'],
            line_fg(
                colors,
                if column_color(edges, x, n) is Some {
                    column_color(edges, x, n)
                } else if x + 1 < cell_count {
                    column_color(edges, x + 1, n)
                } else {
                    None
                },
            ),
        )
    } else {
        shows(cells[x * 2 + 1], seq![' '], None)
    }
}

/// The terminal cells one graph column takes.
pub open spec fn cell_span(cell_width_type: CellWidthType) -> int {
    if cell_width_type == CellWidthType::Double {
        2
    } else {
        1
    }
}

/// The cells of a text row of the graph for the commit in column `pos_x`:
/// one symbol cell per column, each followed by a filler cell in double
/// width.
pub open spec fn ascii_row_ok(
    cells: Seq<PreparedImageCell>,
    pos_x: int,
    cell_count: int,
    edges: Seq<Edge>,
    colors: Seq<GraphColor>,
    style: GraphStyle,
    cell_width_type: CellWidthType,
) -> bool {
    &&& cells.len() == cell_count * cell_span(cell_width_type)
    &&& forall|x: int|
        0 <= x < cell_count ==> #[trigger] symbol_cell_ok(cells, x, cell_span(cell_width_type), pos_x, edges, colors, style)
    &&& cell_width_type == CellWidthType::Double ==> forall|x: int|
        0 <= x < cell_count ==> #[trigger] filler_cell_ok(cells, x, pos_x, cell_count, edges, colors)
}

/// The sides and the colour of one column.
fn column_of(edges: &[Edge], x: usize) -> (r: (AsciiDirections, Option<usize>))
    ensures
        r.0 == column_dirs(edges@, x as int, edges@.len() as int),
        r.1 == column_color(edges@, x as int, edges@.len() as int),
{
    let mut d = AsciiDirections { up: false, down: false, left: false, right: false };
    let mut c: Option<usize> = None;
    let mut i: usize = 0;
    while i < edges.len()
        invariant
            i <= edges@.len(),
            d == column_dirs(edges@, x as int, i as int),
            c == column_color(edges@, x as int, i as int),
        decreases edges@.len() - i,
    {
        let e = edges[i];
        if e.pos_x == x {
            let ed = edge_directions(e.edge_type);
            d = AsciiDirections { up: d.up || ed.up, down: d.down || ed.down, left: d.left || ed.left, right: d.right || ed.right };
            if c.is_none() || e.edge_type.is_vertically_related() {
                c = Some(e.associated_line_pos_x);
            }
        }
        i += 1;
    }
    (d, c)
}

fn merge_row(edges: &[Edge]) -> (r: bool)
    ensures
        r == is_merge_row(edges@),
{
    let mut i: usize = 0;
    while i < edges.len()
        invariant
            i <= edges@.len(),
            forall|j: int| 0 <= j < i ==> !(#[trigger] edges@[j].edge_type == EdgeType::LeftTop || edges@[j].edge_type == EdgeType::RightTop),
        decreases edges@.len() - i,
    {
        if edges[i].edge_type == EdgeType::LeftTop || edges[i].edge_type == EdgeType::RightTop {
            return true;
        }
        i += 1;
    }
    false
}

fn text_of(c: char) -> (s: String)
    ensures
        s@ == seq![c],
{
    let v: Vec<char> = vec![c];
    crate::text::string_from_chars(&v)
}

fn line_fg_exec(params: &ImageParams, idx: Option<usize>) -> (fg: Option<TermColor>)
    requires
        params.edge_colors@.len() > 0,
    ensures
        fg == line_fg(params.edge_colors@, idx),
{
    match idx {
        Some(i) => Some(params.edge_color(i).to_ratatui_color()),
        None => None,
    }
}

/// Draws one row of the graph with box-drawing characters.
pub fn render_ascii_row(
    pos_x: usize,
    cell_count: usize,
    edges: &[Edge],
    image_params: &ImageParams,
    graph_style: GraphStyle,
    cell_width_type: CellWidthType,
) -> (img: PreparedImage)
    requires
        pos_x < cell_count,
        cell_count <= usize::MAX / 2,
        image_params.edge_colors@.len() > 0,
    ensures
        ascii_row_ok(img.cells@, pos_x as int, cell_count as int, edges@, image_params.edge_colors@, graph_style, cell_width_type),
        img.cell_width == img.cells@.len(),
        img.upload_data is None,
{
    let n = edges.len();
    let mut columns: Vec<(AsciiDirections, Option<usize>)> = Vec::new();
    let mut x: usize = 0;
    while x < cell_count
        invariant
            x <= cell_count,
            n == edges@.len(),
            columns@.len() == x,
            forall|k: int|
                0 <= k < x ==> (#[trigger] columns@[k]).0 == column_dirs(edges@, k, n as int) && columns@[k].1
                    == column_color(edges@, k, n as int),
        decreases cell_count - x,
    {
        columns.push(column_of(edges, x));
        x += 1;
    }
    let merge = merge_row(edges);
    let commit_left = merge && columns[pos_x].0.left;
    let commit_right = merge && columns[pos_x].0.right;
    let commit_fg = Some(image_params.edge_color(pos_x).to_ratatui_color());
    let double = cell_width_type == CellWidthType::Double;
    let ghost w: int = if double { 2 } else { 1 };
    let mut cells: Vec<PreparedImageCell> = Vec::new();
    let mut x: usize = 0;
    while x < cell_count
        invariant
            x <= cell_count,
            cell_count <= usize::MAX / 2,
            pos_x < cell_count,
            n == edges@.len(),
            image_params.edge_colors@.len() > 0,
            columns@.len() == cell_count,
            forall|k: int|
                0 <= k < cell_count ==> (#[trigger] columns@[k]).0 == column_dirs(edges@, k, n as int) && columns@[k].1
                    == column_color(edges@, k, n as int),
            merge == is_merge_row(edges@),
            commit_left == (merge && column_dirs(edges@, pos_x as int, n as int).left),
            commit_right == (merge && column_dirs(edges@, pos_x as int, n as int).right),
            commit_fg == Some(line_color(image_params.edge_colors@, pos_x)),
            double == (cell_width_type == CellWidthType::Double),
            w == if double { 2int } else { 1int },
            cells@.len() == x * w,
            forall|k: int| 0 <= k < x ==> #[trigger] symbol_cell_ok(cells@, k, w, pos_x as int, edges@, image_params.edge_colors@, graph_style),
            double ==> forall|k: int| 0 <= k < x ==> #[trigger] filler_cell_ok(cells@, k, pos_x as int, cell_count as int, edges@, image_params.edge_colors@),
        decreases cell_count - x,
    {
        let ghost before = cells@;
        let col = columns[x];
        if x == pos_x {
            let mark = if merge { '\u{25CB}' } else { '\u{25CF}' };
            cells.push(PreparedImageCell::new(text_of(mark), commit_fg));
        } else {
            let symbol = ascii_symbol(col.0, graph_style);
            cells.push(PreparedImageCell::new(text_of(symbol), line_fg_exec(image_params, col.1)));
        }
        if double {
            if commit_left && x + 1 == pos_x {
                cells.push(PreparedImageCell::new(text_of('>'), commit_fg));
            } else if commit_right && x == pos_x {
                cells.push(PreparedImageCell::new(text_of('<'), commit_fg));
            } else if col.0.right || (x + 1 < cell_count && columns[x + 1].0.left) {
                let idx = if col.1.is_some() {
                    col.1
                } else if x + 1 < cell_count {
                    columns[x + 1].1
                } else {
                    None
                };
                cells.push(PreparedImageCell::new(text_of('\u{2500}'), line_fg_exec(image_params, idx)));
            } else {
                cells.push(PreparedImageCell::new(text_of(' '), None));
            }
        }
        proof {
            assert forall|k: int| 0 <= k < x + 1 implies #[trigger] symbol_cell_ok(cells@, k, w, pos_x as int, edges@, image_params.edge_colors@, graph_style) by {
                if k < x {
                    assert(symbol_cell_ok(before, k, w, pos_x as int, edges@, image_params.edge_colors@, graph_style));
                    assert(cells@[k * w] == before[k * w]);
                } else {
                    assert(cells@[k * w] == cells@[x * w]);
                }
            }
            if double {
                assert forall|k: int| 0 <= k < x + 1 implies #[trigger] filler_cell_ok(cells@, k, pos_x as int, cell_count as int, edges@, image_params.edge_colors@) by {
                    if k < x {
                        assert(filler_cell_ok(before, k, pos_x as int, cell_count as int, edges@, image_params.edge_colors@));
                        assert(cells@[k * 2 + 1] == before[k * 2 + 1]);
                    }
                }
            }
        }
        x += 1;
    }
    PreparedImage::from_cells(cells)
}

/// The rightmost column used by the first `n` edges, or `from` if larger.
pub open spec fn max_edge_column(edges: Seq<Edge>, from: int, n: int) -> int
    decreases n,
{
    if n <= 0 {
        from
    } else {
        let m = max_edge_column(edges, from, n - 1);
        if edges[n - 1].pos_x > m {
            edges[n - 1].pos_x as int
        } else {
            m
        }
    }
}

/// The number of columns of the image of row `row`: up to the rightmost
/// column of the row in compact mode, of the whole graph in fixed mode.
pub open spec fn row_cell_count(graph: Graph, row: int, mode: GraphImageWidthMode) -> int {
    let pos_x = graph.columns@[row] as int;
    let edges = graph.edges@[row]@;
    match mode {
        GraphImageWidthMode::Compact => max_edge_column(edges, pos_x, edges.len() as int) + 1,
        GraphImageWidthMode::Fixed => graph.max_pos_x + 1,
    }
}

/// The text row of the graph for the commit of row `row`.
pub fn build_ascii_prepared_image(
    graph: &Graph,
    image_params: &ImageParams,
    image_width_mode: GraphImageWidthMode,
    graph_style: GraphStyle,
    cell_width_type: CellWidthType,
    row: usize,
) -> (img: PreparedImage)
    requires
        row < graph.columns@.len(),
        row < graph.edges@.len(),
        image_width_mode == GraphImageWidthMode::Fixed ==> graph.columns@[row as int] <= graph.max_pos_x,
        graph.max_pos_x < usize::MAX / 2,
        forall|j: int| 0 <= j < graph.edges@[row as int]@.len() ==> (#[trigger] graph.edges@[row as int]@[j]).pos_x < usize::MAX / 2,
        graph.columns@[row as int] < usize::MAX / 2,
        image_params.edge_colors@.len() > 0,
    ensures
        ascii_row_ok(
            img.cells@,
            graph.columns@[row as int] as int,
            row_cell_count(*graph, row as int, image_width_mode),
            graph.edges@[row as int]@,
            image_params.edge_colors@,
            graph_style,
            cell_width_type,
        ),
{
    let pos_x = graph.columns[row];
    let edges = &graph.edges[row];
    let max_pos_x = match image_width_mode {
        GraphImageWidthMode::Compact => {
            let mut m = pos_x;
            let mut i: usize = 0;
            while i < edges.len()
                invariant
                    i <= edges@.len(),
                    m == max_edge_column(edges@, pos_x as int, i as int),
                    m < usize::MAX / 2,
                    forall|j: int| 0 <= j < edges@.len() ==> (#[trigger] edges@[j]).pos_x < usize::MAX / 2,
                decreases edges@.len() - i,
            {
                if edges[i].pos_x > m {
                    m = edges[i].pos_x;
                }
                i += 1;
            }
            m
        },
        GraphImageWidthMode::Fixed => graph.max_pos_x,
    };
    proof {
        if image_width_mode == GraphImageWidthMode::Compact {
            lemma_max_edge_column_ge(edges@, pos_x as int, edges@.len() as int);
        }
    }
    render_ascii_row(pos_x, max_pos_x + 1, edges.as_slice(), image_params, graph_style, cell_width_type)
}

proof fn lemma_max_edge_column_ge(edges: Seq<Edge>, from: int, n: int)
    ensures
        max_edge_column(edges, from, n) >= from,
    decreases n,
{
    if n > 0 {
        lemma_max_edge_column_ge(edges, from, n - 1);
    }
}

/// The PNG image of one graph row and the number of graph columns it spans.
#[derive(Debug)]
pub struct GraphRowImage {
    pub bytes: Vec<u8>,
    pub cell_count: usize,
}

/// The terminal cells a row image spans.
pub open spec fn image_cell_width(cell_count: int, cell_width_type: CellWidthType) -> int {
    match cell_width_type {
        CellWidthType::Double => cell_count * 2,
        CellWidthType::Single => cell_count,
    }
}

/// The width of the list's graph column for a graph whose rightmost
/// column is `max_pos_x`: one or two cells per graph column, the column
/// count taken as a 16-bit number.
pub fn graph_cell_width(max_pos_x: usize, cell_width_type: CellWidthType) -> (w: u16)
    requires
        max_pos_x < usize::MAX,
        cell_width_type == CellWidthType::Double ==> ((max_pos_x + 1) % 0x10000) * 2 <= u16::MAX,
    ensures
        w == image_cell_width((max_pos_x + 1) % 0x10000, cell_width_type),
{
    let columns = ((max_pos_x + 1) % 0x10000) as u16;
    match cell_width_type {
        CellWidthType::Double => columns * 2,
        CellWidthType::Single => columns,
    }
}

impl GraphRowImage {
    /// The cells that show this image with the given protocol.
    pub fn prepare(&self, cell_width_type: CellWidthType, image_protocol: ImageProtocol, image_id: u32) -> (p: PreparedImage)
        requires
            self.cell_count <= usize::MAX / 2,
            self.bytes@.len() <= usize::MAX / 4 * 3,
            image_protocol != ImageProtocol::Ascii,
            image_protocol == ImageProtocol::KittyUnicode ==> image_cell_width(self.cell_count as int, cell_width_type) <= 297,
        ensures
            p.cell_width == image_cell_width(self.cell_count as int, cell_width_type),
    {
        let image_cell_width = match cell_width_type {
            CellWidthType::Double => self.cell_count * 2,
            CellWidthType::Single => self.cell_count,
        };
        image_protocol.prepare_image(self.bytes.as_slice(), image_cell_width, image_id)
    }
}

} // verus!
