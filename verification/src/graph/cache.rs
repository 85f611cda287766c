use vstd::prelude::*;

use crate::graph::calc::{Edge, EdgeType};
use crate::text::{decimal, decimal_string};
use sha1::Digest;
use vstd::string::StringSliceAdditionalSpecFns;

verus! {

/// What a cache directory of graph images is keyed by: the image geometry
/// and the colours.
#[derive(Debug)]
pub struct ImageCacheDirKey {
    pub width: u16,
    pub height: u16,
    pub line_width: u16,
    pub circle_inner_radius: u16,
    pub circle_outer_radius: u16,
    pub edge_colors: Vec<[u8; 4]>,
}

/// What a cached graph row image is keyed by: the commit's column, the
/// row's width and its edges (shape number, column, line column).
#[derive(Debug)]
pub struct ImageCacheFileKey {
    pub pos_x: usize,
    pub cell_count: usize,
    pub edges: Vec<[usize; 3]>,
}

/// The number of a shape, in the order the shapes are declared.
pub open spec fn edge_type_number(t: EdgeType) -> usize {
    match t {
        EdgeType::Vertical => 0,
        EdgeType::Horizontal => 1,
        EdgeType::Up => 2,
        EdgeType::Down => 3,
        EdgeType::Left => 4,
        EdgeType::Right => 5,
        EdgeType::RightTop => 6,
        EdgeType::RightBottom => 7,
        EdgeType::LeftTop => 8,
        EdgeType::LeftBottom => 9,
    }
}

fn edge_type_code(t: EdgeType) -> (n: usize)
    ensures
        n == edge_type_number(t),
{
    match t {
        EdgeType::Vertical => 0,
        EdgeType::Horizontal => 1,
        EdgeType::Up => 2,
        EdgeType::Down => 3,
        EdgeType::Left => 4,
        EdgeType::Right => 5,
        EdgeType::RightTop => 6,
        EdgeType::RightBottom => 7,
        EdgeType::LeftTop => 8,
        EdgeType::LeftBottom => 9,
    }
}

impl ImageCacheDirKey {
    pub fn new(
        width: u16,
        height: u16,
        line_width: u16,
        circle_inner_radius: u16,
        circle_outer_radius: u16,
        edge_colors: Vec<[u8; 4]>,
    ) -> (k: ImageCacheDirKey)
        ensures
            k.width == width,
            k.height == height,
            k.line_width == line_width,
            k.circle_inner_radius == circle_inner_radius,
            k.circle_outer_radius == circle_outer_radius,
            k.edge_colors@ == edge_colors@,
    {
        ImageCacheDirKey { width, height, line_width, circle_inner_radius, circle_outer_radius, edge_colors }
    }
}

impl ImageCacheFileKey {
    /// The key of a row: each edge as its shape number, column and line
    /// column.
    pub fn new(pos_x: usize, cell_count: usize, edges: Vec<Edge>) -> (k: ImageCacheFileKey)
        ensures
            k.pos_x == pos_x,
            k.cell_count == cell_count,
            k.edges@.len() == edges@.len(),
            forall|i: int| 0 <= i < edges@.len() ==> (#[trigger] k.edges@[i])@ == seq![
                edge_type_number(edges@[i].edge_type),
                edges@[i].pos_x,
                edges@[i].associated_line_pos_x,
            ],
    {
        let mut v: Vec<[usize; 3]> = Vec::new();
        let mut i: usize = 0;
        while i < edges.len()
            invariant
                i <= edges@.len(),
                v@.len() == i,
                forall|j: int| 0 <= j < i ==> (#[trigger] v@[j])@ == seq![
                    edge_type_number(edges@[j].edge_type),
                    edges@[j].pos_x,
                    edges@[j].associated_line_pos_x,
                ],
            decreases edges@.len() - i,
        {
            let e = edges[i];
            let a = [edge_type_code(e.edge_type), e.pos_x, e.associated_line_pos_x];
            proof {
                assert(a@ =~= seq![edge_type_number(e.edge_type), e.pos_x, e.associated_line_pos_x]);
            }
            v.push(a);
            i += 1;
        }
        ImageCacheFileKey { pos_x, cell_count, edges: v }
    }
}

/// Numbers written in decimal, separated by commas, in brackets.
pub open spec fn json_array(ns: Seq<nat>) -> Seq<char> {
    seq!['['] + json_items(ns) + seq![']']
}

pub open spec fn json_items(ns: Seq<nat>) -> Seq<char>
    decreases ns.len(),
{
    if ns.len() == 0 {
        Seq::empty()
    } else if ns.len() == 1 {
        decimal(ns[0])
    } else {
        json_items(ns.drop_last()) + seq![','] + decimal(ns.last())
    }
}

/// Arrays written one after the other, separated by commas, in brackets.
pub open spec fn json_nested(arrays: Seq<Seq<nat>>) -> Seq<char> {
    seq!['['] + json_nested_items(arrays) + seq![']']
}

pub open spec fn json_nested_items(arrays: Seq<Seq<nat>>) -> Seq<char>
    decreases arrays.len(),
{
    if arrays.len() == 0 {
        Seq::empty()
    } else if arrays.len() == 1 {
        json_array(arrays[0])
    } else {
        json_nested_items(arrays.drop_last()) + seq![','] + json_array(arrays.last())
    }
}

/// The canonical JSON text of a directory key: no white space, keys in
/// order.
pub open spec fn dir_key_json(k: ImageCacheDirKey) -> Seq<char> {
    "{\"circle_inner_radius\":"@ + decimal(k.circle_inner_radius as nat) + ",\"circle_outer_radius\":"@ + decimal(
        k.circle_outer_radius as nat,
    ) + ",\"edge_colors\":"@ + json_nested(
        k.edge_colors@.map_values(|c: [u8; 4]| c@.map_values(|b: u8| b as nat)),
    ) + ",\"height\":"@ + decimal(k.height as nat) + ",\"line_width\":"@ + decimal(k.line_width as nat)
        + ",\"width\":"@ + decimal(k.width as nat) + "}"@
}

/// The canonical JSON text of a file key.
pub open spec fn file_key_json(k: ImageCacheFileKey) -> Seq<char> {
    "{\"cell_count\":"@ + decimal(k.cell_count as nat) + ",\"edges\":"@ + json_nested(
        k.edges@.map_values(|e: [usize; 3]| e@.map_values(|n: usize| n as nat)),
    ) + ",\"pos_x\":"@ + decimal(k.pos_x as nat) + "}"@
}

fn append_array(out: &mut String, ns: &Vec<u64>)
    ensures
        final(out)@ == old(out)@ + json_array(ns@.map_values(|n: u64| n as nat)),
{
    crate::text::push_char(out, '[');
    let ghost start = out@;
    let mut i: usize = 0;
    while i < ns.len()
        invariant
            i <= ns@.len(),
            out@ == start + json_items(ns@.take(i as int).map_values(|n: u64| n as nat)),
        decreases ns@.len() - i,
    {
        let ghost before = out@;
        if i > 0 {
            crate::text::push_char(out, ',');
        }
        out.append(decimal_string(ns[i]).as_str());
        proof {
            let m = ns@.take(i + 1).map_values(|n: u64| n as nat);
            assert(m.drop_last() =~= ns@.take(i as int).map_values(|n: u64| n as nat));
            assert(m.last() == ns@[i as int] as nat);
            if i == 0 {
                assert(m.len() == 1);
                assert(json_items(ns@.take(0).map_values(|n: u64| n as nat)) =~= Seq::<char>::empty());
            }
            assert(out@ =~= start + json_items(m));
        }
        i += 1;
    }
    crate::text::push_char(out, ']');
    proof {
        assert(ns@.take(i as int) == ns@);
    }
}

fn append_nested(out: &mut String, arrays: &Vec<Vec<u64>>)
    ensures
        final(out)@ == old(out)@ + json_nested(arrays@.map_values(|a: Vec<u64>| a@.map_values(|n: u64| n as nat))),
{
    let ghost views = arrays@.map_values(|a: Vec<u64>| a@.map_values(|n: u64| n as nat));
    crate::text::push_char(out, '[');
    let ghost start = out@;
    let mut i: usize = 0;
    while i < arrays.len()
        invariant
            i <= arrays@.len(),
            views == arrays@.map_values(|a: Vec<u64>| a@.map_values(|n: u64| n as nat)),
            out@ == start + json_nested_items(views.take(i as int)),
        decreases arrays@.len() - i,
    {
        if i > 0 {
            crate::text::push_char(out, ',');
        }
        append_array(out, &arrays[i]);
        proof {
            let m = views.take(i + 1);
            assert(m.drop_last() =~= views.take(i as int));
            assert(m.last() == views[i as int]);
            if i == 0 {
                assert(m.len() == 1);
                assert(json_nested_items(views.take(0)) =~= Seq::<char>::empty());
            }
            assert(out@ =~= start + json_nested_items(m));
        }
        i += 1;
    }
    crate::text::push_char(out, ']');
    proof {
        assert(views.take(i as int) == views);
    }
}

impl ImageCacheDirKey {
    /// The key as canonical JSON.
    pub fn canonical_json(&self) -> (s: String)
        ensures
            s@ == dir_key_json(*self),
    {
        let mut colors: Vec<Vec<u64>> = Vec::new();
        let mut i: usize = 0;
        while i < self.edge_colors.len()
            invariant
                i <= self.edge_colors@.len(),
                colors@.len() == i,
                forall|j: int| 0 <= j < i ==> (#[trigger] colors@[j])@.map_values(|n: u64| n as nat) == self.edge_colors@[j]@.map_values(
                    |b: u8| b as nat,
                ),
            decreases self.edge_colors@.len() - i,
        {
            let c = self.edge_colors[i];
            let mut v: Vec<u64> = Vec::new();
            v.push(c[0] as u64);
            v.push(c[1] as u64);
            v.push(c[2] as u64);
            v.push(c[3] as u64);
            proof {
                assert(v@.map_values(|n: u64| n as nat) =~= c@.map_values(|b: u8| b as nat));
            }
            colors.push(v);
            i += 1;
        }
        let mut s = String::from_str("{\"circle_inner_radius\":");
        s.append(decimal_string(self.circle_inner_radius as u64).as_str());
        s.append(",\"circle_outer_radius\":");
        s.append(decimal_string(self.circle_outer_radius as u64).as_str());
        s.append(",\"edge_colors\":");
        proof {
            assert(colors@.map_values(|a: Vec<u64>| a@.map_values(|n: u64| n as nat)) =~= self.edge_colors@.map_values(
                |c: [u8; 4]| c@.map_values(|b: u8| b as nat),
            ));
        }
        append_nested(&mut s, &colors);
        s.append(",\"height\":");
        s.append(decimal_string(self.height as u64).as_str());
        s.append(",\"line_width\":");
        s.append(decimal_string(self.line_width as u64).as_str());
        s.append(",\"width\":");
        s.append(decimal_string(self.width as u64).as_str());
        s.append("}");
        s
    }
}

impl ImageCacheFileKey {
    /// The key as canonical JSON.
    pub fn canonical_json(&self) -> (s: String)
        ensures
            s@ == file_key_json(*self),
    {
        let mut edges: Vec<Vec<u64>> = Vec::new();
        let mut i: usize = 0;
        while i < self.edges.len()
            invariant
                i <= self.edges@.len(),
                edges@.len() == i,
                forall|j: int| 0 <= j < i ==> (#[trigger] edges@[j])@.map_values(|n: u64| n as nat) == self.edges@[j]@.map_values(
                    |n: usize| n as nat,
                ),
            decreases self.edges@.len() - i,
        {
            let e = self.edges[i];
            let mut v: Vec<u64> = Vec::new();
            v.push(e[0] as u64);
            v.push(e[1] as u64);
            v.push(e[2] as u64);
            proof {
                assert(v@.map_values(|n: u64| n as nat) =~= e@.map_values(|n: usize| n as nat));
            }
            edges.push(v);
            i += 1;
        }
        let mut s = String::from_str("{\"cell_count\":");
        s.append(decimal_string(self.cell_count as u64).as_str());
        s.append(",\"edges\":");
        proof {
            assert(edges@.map_values(|a: Vec<u64>| a@.map_values(|n: u64| n as nat)) =~= self.edges@.map_values(
                |e: [usize; 3]| e@.map_values(|n: usize| n as nat),
            ));
        }
        append_nested(&mut s, &edges);
        s.append(",\"pos_x\":");
        s.append(decimal_string(self.pos_x as u64).as_str());
        s.append("}");
        s
    }
}

/// The SHA-1 digest of `data`.
pub uninterp spec fn sha1_digest(data: Seq<u8>) -> Seq<u8>;

/// Calls `sha1::Sha1::digest`; the digest is named, and it is 20 bytes
/// long.
#[verifier::external_body]
fn sha1(data: &[u8]) -> (d: Vec<u8>)
    ensures
        d@ == sha1_digest(data@),
        d@.len() == 20,
{
    sha1::Sha1::digest(data).to_vec()
}

/// The lower-case hexadecimal digit of `d` (below 16).
pub open spec fn hex_digit(d: int) -> char {
    if d < 10 {
        ('0' as int + d) as char
    } else {
        ('a' as int + d - 10) as char
    }
}

/// The bytes in lower-case hexadecimal, two digits each.
pub open spec fn hex_lower(bytes: Seq<u8>) -> Seq<char>
    decreases bytes.len(),
{
    if bytes.len() == 0 {
        Seq::empty()
    } else {
        hex_lower(bytes.drop_last()) + seq![hex_digit(bytes.last() as int / 16), hex_digit(bytes.last() as int % 16)]
    }
}

fn hex_char(d: u8) -> (c: char)
    requires
        d < 16,
    ensures
        c == hex_digit(d as int),
{
    match d {
        0 => '0',
        1 => '1',
        2 => '2',
        3 => '3',
        4 => '4',
        5 => '5',
        6 => '6',
        7 => '7',
        8 => '8',
        9 => '9',
        10 => 'a',
        11 => 'b',
        12 => 'c',
        13 => 'd',
        14 => 'e',
        _ => 'f',
    }
}

/// The name of the cache entry for a key given as canonical JSON: the SHA-1
/// digest of the text, in lower-case hexadecimal.
pub fn hash_str(json: &str) -> (s: String)
    ensures
        s@ == hex_lower(sha1_digest(json.spec_bytes())),
{
    let d = sha1(json.as_bytes());
    let mut s = String::new();
    let mut i: usize = 0;
    while i < d.len()
        invariant
            i <= d@.len(),
            s@ == hex_lower(d@.take(i as int)),
        decreases d@.len() - i,
    {
        let b = d[i];
        crate::text::push_char(&mut s, hex_char(b / 16));
        crate::text::push_char(&mut s, hex_char(b % 16));
        proof {
            assert(d@.take(i + 1).drop_last() == d@.take(i as int));
        }
        i += 1;
    }
    proof {
        assert(d@.take(i as int) == d@);
    }
    s
}

} // verus!
