use vstd::prelude::*;

use crate::color::TermColor;
use crate::padding::min_int;
use crate::text::{decimal, decimal_string};
use vstd::string::StringExecFns;

verus! {

/// How graph images reach the terminal.
#[derive(Debug, Clone, Copy, PartialEq, Eq, Structural)]
pub enum ImageProtocol {
    Iterm2,
    Kitty,
    KittyUnicode,
    /// No image: the graph is drawn with box-drawing characters.
    Ascii,
}

/// The protocol to use when none is configured: Kitty when the environment
/// names a Kitty window or a Ghostty terminal; otherwise no graphics-capable
/// terminal is identified and the graph falls back to box-drawing text.
pub fn auto_detect(kitty_window_id_set: bool, term: Option<&str>, ghostty_resources_dir_set: bool) -> (p: ImageProtocol)
    ensures
        p == if kitty_window_id_set || (term matches Some(t) && t@ == "xterm-ghostty"@) || ghostty_resources_dir_set {
            ImageProtocol::Kitty
        } else {
            ImageProtocol::Ascii
        },
{
    if kitty_window_id_set {
        return ImageProtocol::Kitty;
    }
    let ghostty_term = match term {
        Some(t) => crate::text::str_eq(t, "xterm-ghostty"),
        None => false,
    };
    if ghostty_term || ghostty_resources_dir_set {
        return ImageProtocol::Kitty;
    }
    ImageProtocol::Ascii
}

/// One terminal cell of a prepared graph row: its text, its foreground
/// colour (the default one when `None`), and whether the cell is left to the
/// image drawn in the cell before it.
#[derive(Debug)]
pub struct PreparedImageCell {
    pub symbol: String,
    pub fg: Option<TermColor>,
    pub skip: bool,
}

impl PreparedImageCell {
    pub fn new(symbol: String, fg: Option<TermColor>) -> (c: PreparedImageCell)
        ensures
            c.symbol == symbol,
            c.fg == fg,
            !c.skip,
    {
        PreparedImageCell { symbol, fg, skip: false }
    }

    pub fn symbol(&self) -> (s: &str)
        ensures
            s@ == self.symbol@,
    {
        self.symbol.as_str()
    }

    pub fn skip(&self) -> (r: bool)
        ensures
            r == self.skip,
    {
        self.skip
    }
}

/// A graph row ready to be written into the terminal: its cells, its width
/// in cells, and image data to send once before drawing (Kitty placeholders).
#[derive(Debug)]
pub struct PreparedImage {
    pub cells: Vec<PreparedImageCell>,
    pub cell_width: usize,
    pub upload_data: Option<String>,
}

impl PreparedImage {
    /// A row of plain text cells.
    pub fn from_cells(cells: Vec<PreparedImageCell>) -> (p: PreparedImage)
        ensures
            p.cells == cells,
            p.cell_width == cells@.len(),
            p.upload_data is None,
    {
        let cell_width = cells.len();
        PreparedImage { cells, cell_width, upload_data: None }
    }

    /// Takes the data to upload, leaving none.
    pub fn take_upload_data(&mut self) -> (r: Option<String>)
        ensures
            r == old(self).upload_data,
            final(self).upload_data is None,
            final(self).cells == old(self).cells,
            final(self).cell_width == old(self).cell_width,
    {
        self.upload_data.take()
    }
}

/// The character of the 6-bit value `v` in the standard base64 alphabet:
/// `A`-`Z`, `a`-`z`, `0`-`9`, `+` and `/`.
pub open spec fn base64_char(v: int) -> char {
    if v < 26 {
        (65 + v) as char
    } else if v < 52 {
        (97 + v - 26) as char
    } else if v < 62 {
        (48 + v - 52) as char
    } else if v == 62 {
        '+'
    } else {
        '/'
    }
}

/// Standard base64 with padding (RFC 4648): every group of three bytes
/// becomes four characters of six bits each, and a last group of one or two
/// bytes is filled with zero bits and padded with `=` to four characters.
pub open spec fn base64_standard(bytes: Seq<u8>) -> Seq<char>
    decreases bytes.len(),
{
    if bytes.len() == 0 {
        Seq::empty()
    } else if bytes.len() == 1 {
        let a = bytes[0] as int;
        seq![base64_char(a / 4), base64_char((a % 4) * 16), '=', '=']
    } else if bytes.len() == 2 {
        let (a, b) = (bytes[0] as int, bytes[1] as int);
        seq![base64_char(a / 4), base64_char((a % 4) * 16 + b / 16), base64_char((b % 16) * 4), '=']
    } else {
        let (a, b, c) = (bytes[0] as int, bytes[1] as int, bytes[2] as int);
        seq![base64_char(a / 4), base64_char((a % 4) * 16 + b / 16), base64_char((b % 16) * 4 + c / 64), base64_char(c % 64)]
            + base64_standard(bytes.subrange(3, bytes.len() as int))
    }
}

/// Encodes bytes with `base64::engine::general_purpose::STANDARD.encode`.
/// Trusted: the result is standard base64 with padding, as the crate
/// documents for its `STANDARD` engine (the RFC 4648 alphabet, padding on);
/// it is ASCII and four characters for every started group of three bytes,
/// as its `encoded_len` shows.
#[verifier::external_body]
fn to_base64_str(bytes: &[u8]) -> (r: String)
    requires
        bytes@.len() <= usize::MAX / 4 * 3,
    ensures
        r@ == base64_standard(bytes@),
        r@.len() == 4 * ((bytes@.len() + 2) / 3),
        forall|i: int| 0 <= i < r@.len() ==> (#[trigger] r@[i] as u32) < 128,
{
    base64::Engine::encode(&base64::engine::general_purpose::STANDARD, bytes)
}

/// The iTerm2 inline-image escape sequence for PNG bytes shown over
/// `cell_width` by `cell_height` cells.
pub open spec fn iterm2_text(bytes: Seq<u8>, cell_width: usize, cell_height: usize) -> Seq<char> {
    "\u{1b}]1337;File=size="@ + decimal(bytes.len()) + ";width="@ + decimal(cell_width as nat) + ";height="@
        + decimal(cell_height as nat) + ";preserveAspectRatio=0;inline=1:"@ + base64_standard(bytes) + "\u{7}"@
}

pub fn iterm2_encode(bytes: &[u8], cell_width: usize, cell_height: usize) -> (r: String)
    requires
        bytes@.len() <= usize::MAX / 4 * 3,
    ensures
        r@ == iterm2_text(bytes@, cell_width, cell_height),
{
    let mut s = String::new();
    s.append("\u{1b}]1337;File=size=");
    s.append(decimal_string(bytes.len() as u64).as_str());
    s.append(";width=");
    s.append(decimal_string(cell_width as u64).as_str());
    s.append(";height=");
    s.append(decimal_string(cell_height as u64).as_str());
    s.append(";preserveAspectRatio=0;inline=1:");
    s.append(to_base64_str(bytes).as_str());
    s.append("\u{7}");
    s
}

/// The size of the pieces the Kitty protocol carries the image in.
pub open spec fn chunk_size() -> int {
    4096
}

/// The number of pieces of a text of `len` characters.
pub open spec fn chunk_count(len: int) -> int {
    (len + chunk_size() - 1) / chunk_size()
}

/// Piece `i` of `s`.
pub open spec fn chunk_at(s: Seq<char>, i: int) -> Seq<char> {
    s.subrange(i * chunk_size(), min_int((i + 1) * chunk_size(), s.len() as int))
}

/// The escape sequence carrying piece `i` of `s`: the first piece carries
/// `header`, every piece but the last says more follow.
pub open spec fn kitty_chunk_text(s: Seq<char>, i: int, header: Seq<char>) -> Seq<char> {
    "\u{1b}_G"@ + (if i == 0 {
        header
    } else {
        Seq::empty()
    }) + (if i < chunk_count(s.len() as int) - 1 {
        "m=1;"@
    } else {
        "m=0;"@
    }) + chunk_at(s, i) + "\u{1b}\\"@
}

/// The escape sequences carrying the first `k` pieces of `s`.
pub open spec fn kitty_chunks(s: Seq<char>, header: Seq<char>, k: int) -> Seq<char>
    decreases k,
{
    if k <= 0 {
        Seq::empty()
    } else {
        kitty_chunks(s, header, k - 1) + kitty_chunk_text(s, k - 1, header)
    }
}

proof fn lemma_chunk_bounds(n: int, i: int)
    requires
        0 <= n,
        0 <= i < chunk_count(n),
    ensures
        i * 4096 < n,
        (i + 1) * 4096 < n <==> i < chunk_count(n) - 1,
        (i + 1) * 4096 >= n ==> i == chunk_count(n) - 1,
{
    assert(i * 4096 < n) by (nonlinear_arith)
        requires
            0 <= n,
            0 <= i < (n + 4095) / 4096,
    ;
    assert((i + 1) * 4096 < n <==> i < (n + 4095) / 4096 - 1) by (nonlinear_arith)
        requires
            0 <= n,
            0 <= i < (n + 4095) / 4096,
    ;
}

/// Appends the sequence carrying piece `i` of `b64`.
fn push_kitty_chunk(out: &mut String, b64: &Vec<char>, i: usize, header: &str)
    requires
        i < chunk_count(b64@.len() as int),
    ensures
        final(out)@ == old(out)@ + kitty_chunk_text(b64@, i as int, header@),
{
    let n = b64.len();
    proof {
        lemma_chunk_bounds(n as int, i as int);
    }
    let start = i * 4096;
    let last = n - start <= 4096;
    let end = if last { n } else { start + 4096 };
    out.append("\u{1b}_G");
    if i == 0 {
        out.append(header);
    }
    if !last {
        out.append("m=1;");
    } else {
        out.append("m=0;");
    }
    let piece = crate::text::string_from_chars(&crate::text::slice_chars(b64, start, end));
    out.append(piece.as_str());
    out.append("\u{1b}\\");
}

/// Appends the sequences carrying `b64` in pieces.
fn push_kitty_chunks(out: &mut String, b64: &Vec<char>, header: &str)
    ensures
        final(out)@ == old(out)@ + kitty_chunks(b64@, header@, chunk_count(b64@.len() as int)),
{
    let n = b64.len();
    let count = n / 4096 + if n % 4096 != 0 { 1 } else { 0 };
    assert(count == chunk_count(n as int));
    let ghost start_text = out@;
    let mut i: usize = 0;
    while i < count
        invariant
            i <= count,
            count == chunk_count(b64@.len() as int),
            out@ == start_text + kitty_chunks(b64@, header@, i as int),
        decreases count - i,
    {
        push_kitty_chunk(out, b64, i, header);
        proof {
            assert(out@ == start_text + kitty_chunks(b64@, header@, i + 1));
        }
        i += 1;
    }
}

/// The Kitty graphics sequences for PNG bytes shown over `cell_width` by
/// `cell_height` cells: a delete of the images under the cursor, then the
/// image in pieces.
pub open spec fn kitty_text(bytes: Seq<u8>, cell_width: usize, cell_height: usize) -> Seq<char> {
    let b64 = base64_standard(bytes);
    let header = "a=T,f=100,c="@ + decimal(cell_width as nat) + ",r="@ + decimal(cell_height as nat) + ","@;
    "\u{1b}_Ga=d,d=C;\u{1b}\\"@ + kitty_chunks(b64, header, chunk_count(b64.len() as int))
}

pub fn kitty_encode(bytes: &[u8], cell_width: usize, cell_height: usize) -> (r: String)
    requires
        bytes@.len() <= usize::MAX / 4 * 3,
    ensures
        r@ == kitty_text(bytes@, cell_width, cell_height),
{
    let b64 = crate::text::chars_of(to_base64_str(bytes).as_str());
    let mut header = String::new();
    header.append("a=T,f=100,c=");
    header.append(decimal_string(cell_width as u64).as_str());
    header.append(",r=");
    header.append(decimal_string(cell_height as u64).as_str());
    header.append(",");
    let mut s = String::new();
    s.append("\u{1b}_Ga=d,d=C;\u{1b}\\");
    push_kitty_chunks(&mut s, &b64, header.as_str());
    s
}

/// The Kitty sequences that upload an image for Unicode placeholders, with
/// id `image_id`, in pieces.
pub open spec fn kitty_unicode_text(bytes: Seq<u8>, cell_width: usize, cell_height: usize, image_id: u32) -> Seq<char> {
    let b64 = base64_standard(bytes);
    let header = "a=T,f=100,U=1,q=2,i="@ + decimal(image_id as nat) + ",c="@ + decimal(cell_width as nat) + ",r="@
        + decimal(cell_height as nat) + ","@;
    kitty_chunks(b64, header, chunk_count(b64.len() as int))
}

pub fn kitty_unicode_encode(bytes: &[u8], cell_width: usize, cell_height: usize, image_id: u32) -> (r: String)
    requires
        bytes@.len() <= usize::MAX / 4 * 3,
    ensures
        r@ == kitty_unicode_text(bytes@, cell_width, cell_height, image_id),
{
    let b64 = crate::text::chars_of(to_base64_str(bytes).as_str());
    let mut header = String::new();
    header.append("a=T,f=100,U=1,q=2,i=");
    header.append(decimal_string(image_id as u64).as_str());
    header.append(",c=");
    header.append(decimal_string(cell_width as u64).as_str());
    header.append(",r=");
    header.append(decimal_string(cell_height as u64).as_str());
    header.append(",");
    let mut s = String::new();
    push_kitty_chunks(&mut s, &b64, header.as_str());
    s
}

/// The placeholder character of the Kitty Unicode placement.
pub const KITTY_PLACEHOLDER: char = '\u{10EEEE}';

/// The combining marks that number rows and columns of a Kitty placement.
pub const ROW_COLUMN_DIACRITICS: [char; 297] = [
    '\u{0305}',
    '\u{030D}',
    '\u{030E}',
    '\u{0310}',
    '\u{0312}',
    '\u{033D}',
    '\u{033E}',
    '\u{033F}',
    '\u{0346}',
    '\u{034A}',
    '\u{034B}',
    '\u{034C}',
    '\u{0350}',
    '\u{0351}',
    '\u{0352}',
    '\u{0357}',
    '\u{035B}',
    '\u{0363}',
    '\u{0364}',
    '\u{0365}',
    '\u{0366}',
    '\u{0367}',
    '\u{0368}',
    '\u{0369}',
    '\u{036A}',
    '\u{036B}',
    '\u{036C}',
    '\u{036D}',
    '\u{036E}',
    '\u{036F}',
    '\u{0483}',
    '\u{0484}',
    '\u{0485}',
    '\u{0486}',
    '\u{0487}',
    '\u{0592}',
    '\u{0593}',
    '\u{0594}',
    '\u{0595}',
    '\u{0597}',
    '\u{0598}',
    '\u{0599}',
    '\u{059C}',
    '\u{059D}',
    '\u{059E}',
    '\u{059F}',
    '\u{05A0}',
    '\u{05A1}',
    '\u{05A8}',
    '\u{05A9}',
    '\u{05AB}',
    '\u{05AC}',
    '\u{05AF}',
    '\u{05C4}',
    '\u{0610}',
    '\u{0611}',
    '\u{0612}',
    '\u{0613}',
    '\u{0614}',
    '\u{0615}',
    '\u{0616}',
    '\u{0617}',
    '\u{0657}',
    '\u{0658}',
    '\u{0659}',
    '\u{065A}',
    '\u{065B}',
    '\u{065D}',
    '\u{065E}',
    '\u{06D6}',
    '\u{06D7}',
    '\u{06D8}',
    '\u{06D9}',
    '\u{06DA}',
    '\u{06DB}',
    '\u{06DC}',
    '\u{06DF}',
    '\u{06E0}',
    '\u{06E1}',
    '\u{06E2}',
    '\u{06E4}',
    '\u{06E7}',
    '\u{06E8}',
    '\u{06EB}',
    '\u{06EC}',
    '\u{0730}',
    '\u{0732}',
    '\u{0733}',
    '\u{0735}',
    '\u{0736}',
    '\u{073A}',
    '\u{073D}',
    '\u{073F}',
    '\u{0740}',
    '\u{0741}',
    '\u{0743}',
    '\u{0745}',
    '\u{0747}',
    '\u{0749}',
    '\u{074A}',
    '\u{07EB}',
    '\u{07EC}',
    '\u{07ED}',
    '\u{07EE}',
    '\u{07EF}',
    '\u{07F0}',
    '\u{07F1}',
    '\u{07F3}',
    '\u{0816}',
    '\u{0817}',
    '\u{0818}',
    '\u{0819}',
    '\u{081B}',
    '\u{081C}',
    '\u{081D}',
    '\u{081E}',
    '\u{081F}',
    '\u{0820}',
    '\u{0821}',
    '\u{0822}',
    '\u{0823}',
    '\u{0825}',
    '\u{0826}',
    '\u{0827}',
    '\u{0829}',
    '\u{082A}',
    '\u{082B}',
    '\u{082C}',
    '\u{082D}',
    '\u{0951}',
    '\u{0953}',
    '\u{0954}',
    '\u{0F82}',
    '\u{0F83}',
    '\u{0F86}',
    '\u{0F87}',
    '\u{135D}',
    '\u{135E}',
    '\u{135F}',
    '\u{17DD}',
    '\u{193A}',
    '\u{1A17}',
    '\u{1A75}',
    '\u{1A76}',
    '\u{1A77}',
    '\u{1A78}',
    '\u{1A79}',
    '\u{1A7A}',
    '\u{1A7B}',
    '\u{1A7C}',
    '\u{1B6B}',
    '\u{1B6D}',
    '\u{1B6E}',
    '\u{1B6F}',
    '\u{1B70}',
    '\u{1B71}',
    '\u{1B72}',
    '\u{1B73}',
    '\u{1CD0}',
    '\u{1CD1}',
    '\u{1CD2}',
    '\u{1CDA}',
    '\u{1CDB}',
    '\u{1CE0}',
    '\u{1DC0}',
    '\u{1DC1}',
    '\u{1DC3}',
    '\u{1DC4}',
    '\u{1DC5}',
    '\u{1DC6}',
    '\u{1DC7}',
    '\u{1DC8}',
    '\u{1DC9}',
    '\u{1DCB}',
    '\u{1DCC}',
    '\u{1DD1}',
    '\u{1DD2}',
    '\u{1DD3}',
    '\u{1DD4}',
    '\u{1DD5}',
    '\u{1DD6}',
    '\u{1DD7}',
    '\u{1DD8}',
    '\u{1DD9}',
    '\u{1DDA}',
    '\u{1DDB}',
    '\u{1DDC}',
    '\u{1DDD}',
    '\u{1DDE}',
    '\u{1DDF}',
    '\u{1DE0}',
    '\u{1DE1}',
    '\u{1DE2}',
    '\u{1DE3}',
    '\u{1DE4}',
    '\u{1DE5}',
    '\u{1DE6}',
    '\u{1DFE}',
    '\u{20D0}',
    '\u{20D1}',
    '\u{20D4}',
    '\u{20D5}',
    '\u{20D6}',
    '\u{20D7}',
    '\u{20DB}',
    '\u{20DC}',
    '\u{20E1}',
    '\u{20E7}',
    '\u{20E9}',
    '\u{20F0}',
    '\u{2CEF}',
    '\u{2CF0}',
    '\u{2CF1}',
    '\u{2DE0}',
    '\u{2DE1}',
    '\u{2DE2}',
    '\u{2DE3}',
    '\u{2DE4}',
    '\u{2DE5}',
    '\u{2DE6}',
    '\u{2DE7}',
    '\u{2DE8}',
    '\u{2DE9}',
    '\u{2DEA}',
    '\u{2DEB}',
    '\u{2DEC}',
    '\u{2DED}',
    '\u{2DEE}',
    '\u{2DEF}',
    '\u{2DF0}',
    '\u{2DF1}',
    '\u{2DF2}',
    '\u{2DF3}',
    '\u{2DF4}',
    '\u{2DF5}',
    '\u{2DF6}',
    '\u{2DF7}',
    '\u{2DF8}',
    '\u{2DF9}',
    '\u{2DFA}',
    '\u{2DFB}',
    '\u{2DFC}',
    '\u{2DFD}',
    '\u{2DFE}',
    '\u{2DFF}',
    '\u{A66F}',
    '\u{A67C}',
    '\u{A67D}',
    '\u{A6F0}',
    '\u{A6F1}',
    '\u{A8E0}',
    '\u{A8E1}',
    '\u{A8E2}',
    '\u{A8E3}',
    '\u{A8E4}',
    '\u{A8E5}',
    '\u{A8E6}',
    '\u{A8E7}',
    '\u{A8E8}',
    '\u{A8E9}',
    '\u{A8EA}',
    '\u{A8EB}',
    '\u{A8EC}',
    '\u{A8ED}',
    '\u{A8EE}',
    '\u{A8EF}',
    '\u{A8F0}',
    '\u{A8F1}',
    '\u{AAB0}',
    '\u{AAB2}',
    '\u{AAB3}',
    '\u{AAB7}',
    '\u{AAB8}',
    '\u{AABE}',
    '\u{AABF}',
    '\u{AAC1}',
    '\u{FE20}',
    '\u{FE21}',
    '\u{FE22}',
    '\u{FE23}',
    '\u{FE24}',
    '\u{FE25}',
    '\u{FE26}',
    '\u{10A0F}',
    '\u{10A38}',
    '\u{1D185}',
    '\u{1D186}',
    '\u{1D187}',
    '\u{1D188}',
    '\u{1D189}',
    '\u{1D1AA}',
    '\u{1D1AB}',
    '\u{1D1AC}',
    '\u{1D1AD}',
    '\u{1D242}',
    '\u{1D243}',
    '\u{1D244}',
];

/// The combining mark for row or column `index`.
pub fn row_column_diacritic(index: usize) -> (c: char)
    requires
        index < 297,
    ensures
        c == ROW_COLUMN_DIACRITICS@[index as int],
{
    ROW_COLUMN_DIACRITICS[index]
}

/// The foreground colour that carries the low 24 bits of an image id.
pub open spec fn image_id_color(image_id: u32) -> TermColor {
    TermColor::Rgb(((image_id >> 16u32) & 0xffu32) as u8, ((image_id >> 8u32) & 0xffu32) as u8, (image_id & 0xffu32) as u8)
}

/// The placeholder text of column `column` of a Kitty Unicode placement of
/// image `image_id`.
pub open spec fn placeholder_text(column: int, image_id: u32) -> Seq<char> {
    seq![
        KITTY_PLACEHOLDER,
        ROW_COLUMN_DIACRITICS@[0],
        ROW_COLUMN_DIACRITICS@[column],
        ROW_COLUMN_DIACRITICS@[((image_id >> 24u32) & 0xffu32) as int],
    ]
}

/// The cells of a Kitty Unicode placement: one placeholder per column, in
/// the image's colour, with the upload sequence to send first.
pub fn kitty_unicode_prepare(bytes: &[u8], cell_width: usize, image_id: u32) -> (p: PreparedImage)
    requires
        bytes@.len() <= usize::MAX / 4 * 3,
        cell_width <= 297,
    ensures
        p.cell_width == cell_width,
        p.cells@.len() == cell_width,
        forall|c: int|
            0 <= c < cell_width ==> (#[trigger] p.cells@[c]).symbol@ == placeholder_text(c, image_id)
                && p.cells@[c].fg == Some(image_id_color(image_id)) && !p.cells@[c].skip,
        p.upload_data matches Some(u) && u@ == kitty_unicode_text(bytes@, cell_width, 1, image_id),
{
    let upload_symbol = kitty_unicode_encode(bytes, cell_width, 1, image_id);
    let foreground = TermColor::Rgb(((image_id >> 16u32) & 0xffu32) as u8, ((image_id >> 8u32) & 0xffu32) as u8, (image_id & 0xffu32) as u8);
    let msb = ((image_id >> 24u32) & 0xffu32) as usize;
    assert(((image_id >> 24u32) & 0xffu32) <= 0xffu32) by (bit_vector);
    let mut cells: Vec<PreparedImageCell> = Vec::new();
    let mut column: usize = 0;
    while column < cell_width
        invariant
            column <= cell_width,
            cell_width <= 297,
            msb == ((image_id >> 24u32) & 0xffu32) as int,
            msb < 297,
            foreground == image_id_color(image_id),
            cells@.len() == column,
            forall|c: int|
                0 <= c < column ==> (#[trigger] cells@[c]).symbol@ == placeholder_text(c, image_id)
                    && cells@[c].fg == Some(image_id_color(image_id)) && !cells@[c].skip,
        decreases cell_width - column,
    {
        let chars: Vec<char> = vec![
            KITTY_PLACEHOLDER,
            row_column_diacritic(0),
            row_column_diacritic(column),
            row_column_diacritic(msb),
        ];
        let symbol = crate::text::string_from_chars(&chars);
        cells.push(PreparedImageCell { symbol, fg: Some(foreground), skip: false });
        column += 1;
    }
    PreparedImage { cells, cell_width, upload_data: Some(upload_symbol) }
}

impl ImageProtocol {
    /// The cells that show a PNG graph row `cell_width` cells wide: for
    /// iTerm2 and Kitty the image sequence in the first cell and the others
    /// left to it; for Kitty Unicode the placeholder cells. (The box-drawing
    /// fallback has no image to show.)
    pub fn prepare_image(&self, bytes: &[u8], cell_width: usize, image_id: u32) -> (p: PreparedImage)
        requires
            *self != ImageProtocol::Ascii,
            bytes@.len() <= usize::MAX / 4 * 3,
            *self == ImageProtocol::KittyUnicode ==> cell_width <= 297,
        ensures
            match self {
                ImageProtocol::KittyUnicode => {
                    &&& p.cell_width == cell_width
                    &&& p.cells@.len() == cell_width
                    &&& forall|c: int|
                        0 <= c < cell_width ==> (#[trigger] p.cells@[c]).symbol@ == placeholder_text(c, image_id)
                            && p.cells@[c].fg == Some(image_id_color(image_id)) && !p.cells@[c].skip
                    &&& p.upload_data matches Some(u) && u@ == kitty_unicode_text(bytes@, cell_width, 1, image_id)
                },
                _ => {
                    &&& p.cell_width == cell_width
                    &&& p.upload_data is None
                    &&& p.cells@.len() == if cell_width == 0 { 1 } else { cell_width }
                    &&& p.cells@[0].symbol@ == if *self == ImageProtocol::Iterm2 {
                        iterm2_text(bytes@, cell_width, 1)
                    } else {
                        kitty_text(bytes@, cell_width, 1)
                    }
                    &&& p.cells@[0].fg is None && !p.cells@[0].skip
                    &&& forall|c: int|
                        1 <= c < p.cells@.len() ==> (#[trigger] p.cells@[c]).symbol@.len() == 0 && p.cells@[c].fg is None
                            && p.cells@[c].skip
                },
            },
    {
        let symbol = match self {
            ImageProtocol::Iterm2 => iterm2_encode(bytes, cell_width, 1),
            ImageProtocol::Kitty | ImageProtocol::Ascii => kitty_encode(bytes, cell_width, 1),
            ImageProtocol::KittyUnicode => {
                return kitty_unicode_prepare(bytes, cell_width, image_id);
            },
        };
        let mut cells: Vec<PreparedImageCell> = Vec::new();
        cells.push(PreparedImageCell { symbol, fg: None, skip: false });
        let mut k: usize = 1;
        while k < cell_width
            invariant
                1 <= k,
                k <= cell_width || (cell_width == 0 && k == 1),
                cells@.len() == k,
                cells@[0].symbol@ == if *self == ImageProtocol::Iterm2 {
                    iterm2_text(bytes@, cell_width, 1)
                } else {
                    kitty_text(bytes@, cell_width, 1)
                },
                cells@[0].fg is None && !cells@[0].skip,
                forall|c: int|
                    1 <= c < cells@.len() ==> (#[trigger] cells@[c]).symbol@.len() == 0 && cells@[c].fg is None
                        && cells@[c].skip,
            decreases cell_width - k,
        {
            cells.push(PreparedImageCell { symbol: String::new(), fg: None, skip: true });
            k += 1;
        }
        PreparedImage { cells, cell_width, upload_data: None }
    }

    /// The text that clears terminal row `y` of images (Kitty only).
    pub fn clear_line(&self, y: u16) -> (r: String)
        requires
            *self == ImageProtocol::Kitty ==> y < u16::MAX,
        ensures
            r@ == if *self == ImageProtocol::Kitty {
                "\u{1b}_Ga=d,d=Y,y="@ + decimal((y + 1) as nat) + ";\u{1b}\\"@
            } else {
                Seq::empty()
            },
    {
        let mut s = String::new();
        match self {
            ImageProtocol::Kitty => {
                s.append("\u{1b}_Ga=d,d=Y,y=");
                s.append(decimal_string((y + 1) as u64).as_str());
                s.append(";\u{1b}\\");
            },
            _ => {},
        }
        s
    }

    /// The text that clears all images (Kitty only).
    pub fn clear(&self) -> (r: String)
        ensures
            r@ == if *self == ImageProtocol::Kitty {
                "\u{1b}_Ga=d,d=A;\u{1b}\\"@
            } else {
                Seq::empty()
            },
    {
        let mut s = String::new();
        match self {
            ImageProtocol::Kitty => {
                s.append("\u{1b}_Ga=d,d=A;\u{1b}\\");
            },
            _ => {},
        }
        s
    }

    /// The text that deletes the uploaded images `image_ids` (Kitty Unicode
    /// only).
    pub fn delete_images(&self, image_ids: &[u32]) -> (r: String)
        ensures
            r@ == if *self == ImageProtocol::KittyUnicode {
                delete_images_text(image_ids@, image_ids@.len() as int)
            } else {
                Seq::empty()
            },
    {
        let mut s = String::new();
        match self {
            ImageProtocol::KittyUnicode => {
                let mut i: usize = 0;
                while i < image_ids.len()
                    invariant
                        i <= image_ids@.len(),
                        s@ == delete_images_text(image_ids@, i as int),
                    decreases image_ids@.len() - i,
                {
                    s.append("\u{1b}_Ga=d,d=I,i=");
                    s.append(decimal_string(image_ids[i] as u64).as_str());
                    s.append("\u{1b}\\");
                    i += 1;
                }
            },
            _ => {},
        }
        s
    }
}

/// The delete sequences for the first `n` image ids.
pub open spec fn delete_images_text(ids: Seq<u32>, n: int) -> Seq<char>
    decreases n,
{
    if n <= 0 {
        Seq::empty()
    } else {
        delete_images_text(ids, n - 1) + "\u{1b}_Ga=d,d=I,i="@ + decimal(ids[n - 1] as nat) + "\u{1b}\\"@
    }
}

proof fn lemma_kitty_chunks_first(s: Seq<char>, header: Seq<char>, k: int)
    requires
        k >= 1,
    ensures
        exists|rest: Seq<char>| kitty_chunks(s, header, k) == "\u{1b}_G"@ + header + rest,
    decreases k,
{
    if k == 1 {
        let rest = (if 0 < chunk_count(s.len() as int) - 1 { "m=1;"@ } else { "m=0;"@ }) + chunk_at(s, 0) + "\u{1b}\\"@;
        assert(kitty_chunks(s, header, 0) == Seq::<char>::empty());
        assert(kitty_chunks(s, header, 1) == "\u{1b}_G"@ + header + rest);
    } else {
        lemma_kitty_chunks_first(s, header, k - 1);
        let rest = choose|rest: Seq<char>| kitty_chunks(s, header, k - 1) == "\u{1b}_G"@ + header + rest;
        let rest2 = rest + kitty_chunk_text(s, k - 1, header);
        assert(kitty_chunks(s, header, k) == "\u{1b}_G"@ + header + rest2);
    }
}

proof fn lemma_base64_nonempty(bytes: Seq<u8>)
    requires
        bytes.len() > 0,
    ensures
        base64_standard(bytes).len() >= 4,
        chunk_count(base64_standard(bytes).len() as int) >= 1,
{
    if bytes.len() >= 3 {
        assert(base64_standard(bytes).len() == 4 + base64_standard(bytes.subrange(3, bytes.len() as int)).len());
    }
}

/// The Kitty upload of a non-empty image first deletes the images shown,
/// then opens the transfer naming the cells it covers: `c=` the cell width
/// (columns) and `r=` the cell height (rows) asked for.
pub proof fn lemma_kitty_names_columns_then_rows(bytes: Seq<u8>, cell_width: usize, cell_height: usize)
    requires
        bytes.len() > 0,
    ensures
        exists|rest: Seq<char>|
            kitty_text(bytes, cell_width, cell_height) == "\u{1b}_Ga=d,d=C;\u{1b}\\"@ + "\u{1b}_G"@ + "a=T,f=100,c="@
                + decimal(cell_width as nat) + ",r="@ + decimal(cell_height as nat) + ","@ + rest,
{
    let b64 = base64_standard(bytes);
    let header = "a=T,f=100,c="@ + decimal(cell_width as nat) + ",r="@ + decimal(cell_height as nat) + ","@;
    lemma_base64_nonempty(bytes);
    lemma_kitty_chunks_first(b64, header, chunk_count(b64.len() as int));
    let rest = choose|rest: Seq<char>| kitty_chunks(b64, header, chunk_count(b64.len() as int)) == "\u{1b}_G"@ + header + rest;
    assert(kitty_text(bytes, cell_width, cell_height) == "\u{1b}_Ga=d,d=C;\u{1b}\\"@ + "\u{1b}_G"@ + "a=T,f=100,c="@
        + decimal(cell_width as nat) + ",r="@ + decimal(cell_height as nat) + ","@ + rest);
}

/// The Kitty Unicode upload of a non-empty image opens its transfer with the
/// image id, then `c=` the cell width (columns) and `r=` the cell height
/// (rows) asked for.
pub proof fn lemma_kitty_unicode_names_columns_then_rows(bytes: Seq<u8>, cell_width: usize, cell_height: usize, image_id: u32)
    requires
        bytes.len() > 0,
    ensures
        exists|rest: Seq<char>|
            kitty_unicode_text(bytes, cell_width, cell_height, image_id) == "\u{1b}_G"@ + "a=T,f=100,U=1,q=2,i="@
                + decimal(image_id as nat) + ",c="@ + decimal(cell_width as nat) + ",r="@ + decimal(cell_height as nat)
                + ","@ + rest,
{
    let b64 = base64_standard(bytes);
    let header = "a=T,f=100,U=1,q=2,i="@ + decimal(image_id as nat) + ",c="@ + decimal(cell_width as nat) + ",r="@
        + decimal(cell_height as nat) + ","@;
    lemma_base64_nonempty(bytes);
    lemma_kitty_chunks_first(b64, header, chunk_count(b64.len() as int));
    let rest = choose|rest: Seq<char>| kitty_chunks(b64, header, chunk_count(b64.len() as int)) == "\u{1b}_G"@ + header + rest;
    assert(kitty_unicode_text(bytes, cell_width, cell_height, image_id) == "\u{1b}_G"@ + "a=T,f=100,U=1,q=2,i="@
        + decimal(image_id as nat) + ",c="@ + decimal(cell_width as nat) + ",r="@ + decimal(cell_height as nat) + ","@ + rest);
}

} // verus!
