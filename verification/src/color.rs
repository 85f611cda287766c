use vstd::prelude::*;

use crate::config::GraphColorConfig;
use crate::text::chars_of;

verus! {

/// Whether the page-padding band is lighter or darker than the content background.
#[derive(Debug, Clone, Copy, PartialEq, Eq, Structural)]
pub enum PaddingShade {
    Lighter,
    Darker,
}

impl Default for PaddingShade {
    fn default() -> (s: PaddingShade)
        ensures
            s == PaddingShade::Lighter,
    {
        PaddingShade::Lighter
    }
}

/// A terminal colour: the terminal default, one of the sixteen named
/// colours, a 24-bit colour, or an entry of the 256-colour palette.
#[derive(Debug, Clone, Copy, PartialEq, Eq, Structural)]
pub enum TermColor {
    Reset,
    Black,
    Red,
    Green,
    Yellow,
    Blue,
    Magenta,
    Cyan,
    Gray,
    DarkGray,
    LightRed,
    LightGreen,
    LightYellow,
    LightBlue,
    LightMagenta,
    LightCyan,
    White,
    Rgb(u8, u8, u8),
    Indexed(u8),
}

/// A colour of the graph, with alpha.
#[derive(Debug, Clone, Copy, PartialEq, Eq, Structural)]
pub struct GraphColor {
    r: u8,
    g: u8,
    b: u8,
    a: u8,
}

impl GraphColor {
    /// The red, green, blue and alpha channels.
    pub closed spec fn rgba(self) -> (u8, u8, u8, u8) {
        (self.r, self.g, self.b, self.a)
    }

    pub fn from_rgba(r: u8, g: u8, b: u8, a: u8) -> (c: GraphColor)
        ensures
            c.rgba() == (r, g, b, a),
    {
        GraphColor { r, g, b, a }
    }

    pub fn from_rgb(r: u8, g: u8, b: u8) -> (c: GraphColor)
        ensures
            c.rgba() == (r, g, b, 255u8),
    {
        Self::from_rgba(r, g, b, 255)
    }

    /// The RGBA bytes of the colour.
    pub fn to_image_color(self) -> (px: [u8; 4])
        ensures
            px@ == seq![self.rgba().0, self.rgba().1, self.rgba().2, self.rgba().3],
    {
        [self.r, self.g, self.b, self.a]
    }

    /// The colour as a 24-bit terminal colour (alpha dropped).
    pub fn to_ratatui_color(self) -> (c: TermColor)
        ensures
            c == TermColor::Rgb(self.rgba().0, self.rgba().1, self.rgba().2),
    {
        TermColor::Rgb(self.r, self.g, self.b)
    }

    /// Transparent black.
    pub closed spec fn clear_color() -> GraphColor {
        GraphColor { r: 0, g: 0, b: 0, a: 0 }
    }

    pub fn transparent() -> (c: GraphColor)
        ensures
            c.rgba() == (0u8, 0u8, 0u8, 0u8),
            c == GraphColor::clear_color(),
    {
        Self::from_rgba(0, 0, 0, 0)
    }
}

/// Value of a hexadecimal digit, if `c` is one.
pub open spec fn hex_value(c: char) -> Option<int> {
    if '0' <= c <= '9' {
        Some(c as int - '0' as int)
    } else if 'a' <= c <= 'f' {
        Some(c as int - 'a' as int + 10)
    } else if 'A' <= c <= 'F' {
        Some(c as int - 'A' as int + 10)
    } else {
        None
    }
}

/// The byte written by the two hex digits at `s[i]`, `s[i + 1]`.
pub open spec fn hex_byte(s: Seq<char>, i: int) -> Option<u8> {
    match (hex_value(s[i]), hex_value(s[i + 1])) {
        (Some(h), Some(l)) => Some((h * 16 + l) as u8),
        _ => None,
    }
}

/// The colour written as `#RRGGBB` or `#RRGGBBAA` (hex digits of either case).
pub open spec fn parse_color_spec(s: Seq<char>) -> Option<(u8, u8, u8, u8)> {
    if s.len() != 7 && s.len() != 9 || s[0] != '#' {
        None
    } else {
        match (hex_byte(s, 1), hex_byte(s, 3), hex_byte(s, 5)) {
            (Some(r), Some(g), Some(b)) => if s.len() == 7 {
                Some((r, g, b, 255u8))
            } else {
                match hex_byte(s, 7) {
                    Some(a) => Some((r, g, b, a)),
                    None => None,
                }
            },
            _ => None,
        }
    }
}

fn hex_digit(c: char) -> (r: Option<u8>)
    ensures
        match hex_value(c) {
            Some(v) => r == Some(v as u8),
            None => r is None,
        },
{
    if '0' <= c && c <= '9' {
        Some((c as u32 - '0' as u32) as u8)
    } else if 'a' <= c && c <= 'f' {
        Some((c as u32 - 'a' as u32 + 10) as u8)
    } else if 'A' <= c && c <= 'F' {
        Some((c as u32 - 'A' as u32 + 10) as u8)
    } else {
        None
    }
}

fn parse_hex_byte(s: &Vec<char>, i: usize) -> (r: Option<u8>)
    requires
        i + 1 < s@.len(),
    ensures
        r == hex_byte(s@, i as int),
{
    let n = s.len();
    assert(i + 1 < n);
    match (hex_digit(s[i]), hex_digit(s[i + 1])) {
        (Some(h), Some(l)) => Some(h * 16 + l),
        _ => None,
    }
}

/// Parses a colour written as `#RRGGBB` or `#RRGGBBAA`.
pub fn parse_rgba_color(s: &str) -> (r: Option<GraphColor>)
    ensures
        match parse_color_spec(s@) {
            Some(v) => r is Some && r->0.rgba() == v,
            None => r is None,
        },
{
    let cs = chars_of(s);
    if cs.len() != 7 && cs.len() != 9 || cs[0] != '#' {
        return None;
    }
    let r = parse_hex_byte(&cs, 1)?;
    let g = parse_hex_byte(&cs, 3)?;
    let b = parse_hex_byte(&cs, 5)?;
    if cs.len() == 7 {
        Some(GraphColor::from_rgb(r, g, b))
    } else {
        let a = parse_hex_byte(&cs, 7)?;
        Some(GraphColor::from_rgba(r, g, b, a))
    }
}

/// The colours the graph is drawn with.
#[derive(Debug, Clone)]
pub struct GraphColorSet {
    pub colors: Vec<GraphColor>,
    pub edge_color: GraphColor,
    pub background_color: GraphColor,
}

/// The branch colours that parse, in order.
pub open spec fn parsed_colors(ss: Seq<String>) -> Seq<(u8, u8, u8, u8)>
    decreases ss.len(),
{
    if ss.len() == 0 {
        Seq::empty()
    } else {
        let rest = parsed_colors(ss.drop_last());
        match parse_color_spec(ss.last()@) {
            Some(c) => rest.push(c),
            None => rest,
        }
    }
}

pub open spec fn color_or_transparent(s: Seq<char>) -> (u8, u8, u8, u8) {
    match parse_color_spec(s) {
        Some(c) => c,
        None => (0u8, 0u8, 0u8, 0u8),
    }
}

impl GraphColorSet {
    /// Builds the colour set from the configuration: branch colours that do not
    /// parse are skipped; an unparsable edge or background colour is transparent.
    pub fn new(config: &GraphColorConfig) -> (set: GraphColorSet)
        ensures
            set.colors@.map_values(|c: GraphColor| c.rgba()) == parsed_colors(config.branches@),
            set.edge_color.rgba() == color_or_transparent(config.edge@),
            set.background_color.rgba() == color_or_transparent(config.background@),
    {
        let mut colors: Vec<GraphColor> = Vec::new();
        let mut i: usize = 0;
        while i < config.branches.len()
            invariant
                i <= config.branches@.len(),
                colors@.map_values(|c: GraphColor| c.rgba()) == parsed_colors(config.branches@.take(i as int)),
            decreases config.branches@.len() - i,
        {
            proof {
                assert(config.branches@.take(i + 1).drop_last() == config.branches@.take(i as int));
            }
            if let Some(c) = parse_rgba_color(config.branches[i].as_str()) {
                colors.push(c);
                proof {
                    assert(colors@.map_values(|c: GraphColor| c.rgba()) == parsed_colors(config.branches@.take(i as int)).push(c.rgba()));
                }
            }
            i += 1;
        }
        proof {
            assert(config.branches@.take(i as int) == config.branches@);
        }
        let edge_color = match parse_rgba_color(config.edge.as_str()) {
            Some(c) => c,
            None => GraphColor::transparent(),
        };
        let background_color = match parse_rgba_color(config.background.as_str()) {
            Some(c) => c,
            None => GraphColor::transparent(),
        };
        GraphColorSet { colors, edge_color, background_color }
    }

    /// The colour of graph column `index`, cycling through the branch colours.
    pub fn get(&self, index: usize) -> (c: GraphColor)
        requires
            self.colors@.len() > 0,
        ensures
            c == self.colors@[index as int % self.colors@.len() as int],
    {
        self.colors[index % self.colors.len()]
    }
}

/// Step by which the padding band is shifted from the background.
pub const PADDING_STEP: u8 = 96;

pub open spec fn lift_spec(c: u8, d: u8) -> u8 {
    if c + d > 255 { 255u8 } else { (c + d) as u8 }
}

pub open spec fn drop_spec(c: u8, d: u8) -> u8 {
    if c < d { 0u8 } else { (c - d) as u8 }
}

/// `c + d`, saturating at 255.
pub fn lift(c: u8, d: u8) -> (r: u8)
    ensures
        r == lift_spec(c, d),
{
    c.saturating_add(d)
}

/// `c - d`, saturating at 0.
pub fn drop(c: u8, d: u8) -> (r: u8)
    ensures
        r == drop_spec(c, d),
{
    c.saturating_sub(d)
}

/// Cube level of the 256-colour palette.
pub open spec fn cube_level(v: int) -> int {
    if v == 0 { 0 } else { 55 + 40 * v }
}

/// RGB value of entry `i` of the 256-colour palette.
pub open spec fn indexed_rgb_spec(i: u8) -> (u8, u8, u8) {
    if i == 0 { (0u8, 0u8, 0u8) }
    else if i == 1 { (128u8, 0u8, 0u8) }
    else if i == 2 { (0u8, 128u8, 0u8) }
    else if i == 3 { (128u8, 128u8, 0u8) }
    else if i == 4 { (0u8, 0u8, 128u8) }
    else if i == 5 { (128u8, 0u8, 128u8) }
    else if i == 6 { (0u8, 128u8, 128u8) }
    else if i == 7 { (192u8, 192u8, 192u8) }
    else if i == 8 { (128u8, 128u8, 128u8) }
    else if i == 9 { (255u8, 0u8, 0u8) }
    else if i == 10 { (0u8, 255u8, 0u8) }
    else if i == 11 { (255u8, 255u8, 0u8) }
    else if i == 12 { (0u8, 0u8, 255u8) }
    else if i == 13 { (255u8, 0u8, 255u8) }
    else if i == 14 { (0u8, 255u8, 255u8) }
    else if i == 15 { (255u8, 255u8, 255u8) }
    else if i <= 231 {
        let n = i - 16;
        (cube_level(n / 36) as u8, cube_level((n / 6) % 6) as u8, cube_level(n % 6) as u8)
    } else {
        let v = 8 + (i - 232) * 10;
        (v as u8, v as u8, v as u8)
    }
}

fn cube(v: u8) -> (r: u8)
    requires
        v < 6,
    ensures
        r == cube_level(v as int),
{
    if v == 0 { 0 } else { 55 + 40 * v }
}

/// RGB value of entry `i` of the 256-colour palette: the sixteen system
/// colours, the 6x6x6 colour cube, then the grey ramp.
pub fn indexed_rgb(i: u8) -> (r: (u8, u8, u8))
    ensures
        r == indexed_rgb_spec(i),
{
    match i {
        0 => (0, 0, 0),
        1 => (128, 0, 0),
        2 => (0, 128, 0),
        3 => (128, 128, 0),
        4 => (0, 0, 128),
        5 => (128, 0, 128),
        6 => (0, 128, 128),
        7 => (192, 192, 192),
        8 => (128, 128, 128),
        9 => (255, 0, 0),
        10 => (0, 255, 0),
        11 => (255, 255, 0),
        12 => (0, 0, 255),
        13 => (255, 0, 255),
        14 => (0, 255, 255),
        15 => (255, 255, 255),
        16..=231 => {
            let n = i - 16;
            (cube(n / 36), cube((n / 6) % 6), cube(n % 6))
        },
        _ => {
            let v = 8 + (i - 232) * 10;
            (v, v, v)
        },
    }
}

pub open spec fn rgb_of_spec(color: TermColor) -> Option<(u8, u8, u8)> {
    match color {
        TermColor::Reset => None,
        TermColor::Black => Some((0u8, 0u8, 0u8)),
        TermColor::Red => Some((128u8, 0u8, 0u8)),
        TermColor::Green => Some((0u8, 128u8, 0u8)),
        TermColor::Yellow => Some((128u8, 128u8, 0u8)),
        TermColor::Blue => Some((0u8, 0u8, 128u8)),
        TermColor::Magenta => Some((128u8, 0u8, 128u8)),
        TermColor::Cyan => Some((0u8, 128u8, 128u8)),
        TermColor::Gray => Some((192u8, 192u8, 192u8)),
        TermColor::DarkGray => Some((128u8, 128u8, 128u8)),
        TermColor::LightRed => Some((255u8, 0u8, 0u8)),
        TermColor::LightGreen => Some((0u8, 255u8, 0u8)),
        TermColor::LightYellow => Some((255u8, 255u8, 0u8)),
        TermColor::LightBlue => Some((0u8, 0u8, 255u8)),
        TermColor::LightMagenta => Some((255u8, 0u8, 255u8)),
        TermColor::LightCyan => Some((0u8, 255u8, 255u8)),
        TermColor::White => Some((255u8, 255u8, 255u8)),
        TermColor::Rgb(r, g, b) => Some((r, g, b)),
        TermColor::Indexed(i) => Some(indexed_rgb_spec(i)),
    }
}

/// The RGB value of a colour; `None` for the terminal default.
pub fn rgb_of(color: TermColor) -> (r: Option<(u8, u8, u8)>)
    ensures
        r == rgb_of_spec(color),
{
    match color {
        TermColor::Reset => None,
        TermColor::Black => Some((0, 0, 0)),
        TermColor::Red => Some((128, 0, 0)),
        TermColor::Green => Some((0, 128, 0)),
        TermColor::Yellow => Some((128, 128, 0)),
        TermColor::Blue => Some((0, 0, 128)),
        TermColor::Magenta => Some((128, 0, 128)),
        TermColor::Cyan => Some((0, 128, 128)),
        TermColor::Gray => Some((192, 192, 192)),
        TermColor::DarkGray => Some((128, 128, 128)),
        TermColor::LightRed => Some((255, 0, 0)),
        TermColor::LightGreen => Some((0, 255, 0)),
        TermColor::LightYellow => Some((255, 255, 0)),
        TermColor::LightBlue => Some((0, 0, 255)),
        TermColor::LightMagenta => Some((255, 0, 255)),
        TermColor::LightCyan => Some((0, 255, 255)),
        TermColor::White => Some((255, 255, 255)),
        TermColor::Rgb(r, g, b) => Some((r, g, b)),
        TermColor::Indexed(i) => Some(indexed_rgb(i)),
    }
}

pub open spec fn padding_bg_spec(bg: TermColor, shade: PaddingShade) -> TermColor {
    match rgb_of_spec(bg) {
        None => match shade {
            PaddingShade::Lighter => TermColor::Rgb(PADDING_STEP, PADDING_STEP, PADDING_STEP),
            PaddingShade::Darker => TermColor::Black,
        },
        Some((r, g, b)) => match shade {
            PaddingShade::Lighter => TermColor::Rgb(
                lift_spec(r, PADDING_STEP),
                lift_spec(g, PADDING_STEP),
                lift_spec(b, PADDING_STEP),
            ),
            PaddingShade::Darker => TermColor::Rgb(
                drop_spec(r, PADDING_STEP),
                drop_spec(g, PADDING_STEP),
                drop_spec(b, PADDING_STEP),
            ),
        },
    }
}

/// Background of the page-padding band: `bg` shifted by `PADDING_STEP` toward
/// white (lighter) or black (darker), each channel saturating.
pub fn padding_bg(bg: TermColor, shade: PaddingShade) -> (c: TermColor)
    ensures
        c == padding_bg_spec(bg, shade),
{
    match rgb_of(bg) {
        None => match shade {
            PaddingShade::Lighter => TermColor::Rgb(PADDING_STEP, PADDING_STEP, PADDING_STEP),
            PaddingShade::Darker => TermColor::Black,
        },
        Some((r, g, b)) => match shade {
            PaddingShade::Lighter => TermColor::Rgb(
                lift(r, PADDING_STEP),
                lift(g, PADDING_STEP),
                lift(b, PADDING_STEP),
            ),
            PaddingShade::Darker => TermColor::Rgb(
                drop(r, PADDING_STEP),
                drop(g, PADDING_STEP),
                drop(b, PADDING_STEP),
            ),
        },
    }
}

/// A lighter band is never darker than the background in any channel, and a
/// darker band never lighter.
pub proof fn lemma_padding_bg_direction(bg: TermColor)
    ensures
        rgb_of_spec(bg) matches Some((r, g, b)) ==> {
            &&& padding_bg_spec(bg, PaddingShade::Lighter) matches TermColor::Rgb(lr, lg, lb)
            &&& lr >= r && lg >= g && lb >= b
            &&& padding_bg_spec(bg, PaddingShade::Darker) matches TermColor::Rgb(dr, dg, db)
            &&& dr <= r && dg <= g && db <= b
        },
{
}

/// The lower-case hex digit of a value below 16.
pub open spec fn hex_digit_of(d: int) -> char {
    if d < 10 {
        ('0' as int + d) as char
    } else {
        ('a' as int + d - 10) as char
    }
}

/// A byte written as two hex digits, high nibble first.
pub open spec fn hex_pair(v: u8) -> Seq<char> {
    seq![hex_digit_of(v as int / 16), hex_digit_of(v as int % 16)]
}

proof fn lemma_hex_digit_of(d: int)
    requires
        0 <= d < 16,
    ensures
        hex_value(hex_digit_of(d)) == Some(d),
{
}

proof fn lemma_hex_pair(v: u8, pre: Seq<char>, post: Seq<char>)
    ensures
        hex_byte(pre + hex_pair(v) + post, pre.len() as int) == Some(v),
{
    let s = pre + hex_pair(v) + post;
    let i = pre.len() as int;
    lemma_hex_digit_of(v as int / 16);
    lemma_hex_digit_of(v as int % 16);
    assert(s[i] == hex_digit_of(v as int / 16));
    assert(s[i + 1] == hex_digit_of(v as int % 16));
    assert((v as int / 16) * 16 + v as int % 16 == v as int);
}

/// A colour read back from its own `#RRGGBB` or `#RRGGBBAA` text is the
/// colour written: each byte is two hex digits, the high nibble first, and
/// an absent alpha is opaque.
pub proof fn lemma_color_text_round_trip(r: u8, g: u8, b: u8, a: u8)
    ensures
        parse_color_spec(seq!['#'] + hex_pair(r) + hex_pair(g) + hex_pair(b)) == Some((r, g, b, 255u8)),
        parse_color_spec(seq!['#'] + hex_pair(r) + hex_pair(g) + hex_pair(b) + hex_pair(a)) == Some((r, g, b, a)),
{
    let s7 = seq!['#'] + hex_pair(r) + hex_pair(g) + hex_pair(b);
    let s9 = s7 + hex_pair(a);
    assert(s7 == seq!['#'] + hex_pair(r) + (hex_pair(g) + hex_pair(b)));
    lemma_hex_pair(r, seq!['#'], hex_pair(g) + hex_pair(b));
    assert(s7 == (seq!['#'] + hex_pair(r)) + hex_pair(g) + hex_pair(b));
    lemma_hex_pair(g, seq!['#'] + hex_pair(r), hex_pair(b));
    lemma_hex_pair(b, seq!['#'] + hex_pair(r) + hex_pair(g), Seq::empty());
    assert(s7 == seq!['#'] + hex_pair(r) + hex_pair(g) + hex_pair(b) + Seq::<char>::empty());
    assert(s9 == seq!['#'] + hex_pair(r) + (hex_pair(g) + hex_pair(b) + hex_pair(a)));
    lemma_hex_pair(r, seq!['#'], hex_pair(g) + hex_pair(b) + hex_pair(a));
    assert(s9 == (seq!['#'] + hex_pair(r)) + hex_pair(g) + (hex_pair(b) + hex_pair(a)));
    lemma_hex_pair(g, seq!['#'] + hex_pair(r), hex_pair(b) + hex_pair(a));
    assert(s9 == (seq!['#'] + hex_pair(r) + hex_pair(g)) + hex_pair(b) + hex_pair(a));
    lemma_hex_pair(b, seq!['#'] + hex_pair(r) + hex_pair(g), hex_pair(a));
    assert(s9 == s7 + hex_pair(a) + Seq::<char>::empty());
    lemma_hex_pair(a, s7, Seq::empty());
}

} // verus!
