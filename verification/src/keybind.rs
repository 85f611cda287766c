use vstd::prelude::*;

use crate::event::UserEvent;
use crate::text::{chars_of, decimal, decimal_string, starts_with, str_eq, string_from_chars};
use vstd::string::StringExecFns;

verus! {

/// A key of the keyboard, as the terminal reports it.
#[derive(Debug, Clone, Copy, PartialEq, Eq, Structural)]
pub enum KeyCode {
    Backspace,
    Enter,
    Left,
    Right,
    Up,
    Down,
    Home,
    End,
    PageUp,
    PageDown,
    Tab,
    BackTab,
    Delete,
    Insert,
    F(u8),
    Char(char),
    Null,
    Esc,
    CapsLock,
    ScrollLock,
    NumLock,
    PrintScreen,
    Pause,
    Menu,
    KeypadBegin,
    Media,
    Modifier,
}

/// The modifier keys held with a key.
#[derive(Debug, Clone, Copy, PartialEq, Eq, Structural)]
pub struct KeyModifiers {
    pub shift: bool,
    pub control: bool,
    pub alt: bool,
    pub super_key: bool,
    pub hyper: bool,
    pub meta: bool,
}

/// A key together with its modifiers.
#[derive(Debug, Clone, Copy, PartialEq, Eq, Structural)]
pub struct KeyEvent {
    pub code: KeyCode,
    pub modifiers: KeyModifiers,
}

/// No modifier held.
pub open spec fn no_modifiers() -> KeyModifiers {
    KeyModifiers { shift: false, control: false, alt: false, super_key: false, hyper: false, meta: false }
}

impl KeyModifiers {
    pub fn empty() -> (m: KeyModifiers)
        ensures
            m == no_modifiers(),
    {
        KeyModifiers { shift: false, control: false, alt: false, super_key: false, hyper: false, meta: false }
    }
}

impl KeyEvent {
    pub fn new(code: KeyCode, modifiers: KeyModifiers) -> (e: KeyEvent)
        ensures
            e == (KeyEvent { code, modifiers }),
    {
        KeyEvent { code, modifiers }
    }
}

/// `c` in lower case when it is an ASCII capital.
pub open spec fn ascii_lower(c: char) -> char {
    if 'A' <= c <= 'Z' {
        ((c as u32) + 32) as char
    } else {
        c
    }
}

/// `c` in upper case when it is an ASCII small letter.
pub open spec fn ascii_upper(c: char) -> char {
    if 'a' <= c <= 'z' {
        ((c as u32) - 32) as char
    } else {
        c
    }
}

fn to_ascii_lower(c: char) -> (r: char)
    ensures
        r == ascii_lower(c),
{
    if 'A' <= c && c <= 'Z' {
        char_from((c as u32) + 32)
    } else {
        c
    }
}

fn to_ascii_upper(c: char) -> (r: char)
    ensures
        r == ascii_upper(c),
{
    if 'a' <= c && c <= 'z' {
        char_from((c as u32) - 32)
    } else {
        c
    }
}

/// The character with an ASCII code.
fn char_from(v: u32) -> (c: char)
    requires
        v < 128,
    ensures
        c == v as char,
{
    let b = v as u8;
    b as char
}

/// The text lower-cased (ASCII letters only) with its spaces removed.
pub open spec fn normalize_key_text(s: Seq<char>) -> Seq<char>
    decreases s.len(),
{
    if s.len() == 0 {
        Seq::empty()
    } else if s.last() == ' ' {
        normalize_key_text(s.drop_last())
    } else {
        normalize_key_text(s.drop_last()).push(ascii_lower(s.last()))
    }
}

/// The modifier prefixes `ctrl-`, `alt-` and `shift-` at the front of `s`,
/// each removed and recorded, in any order and number; the rest of the text.
pub open spec fn strip_modifiers(s: Seq<char>, m: KeyModifiers) -> (Seq<char>, KeyModifiers)
    decreases s.len(),
{
    if starts_with(s, "ctrl-"@) {
        proof {
            reveal_strlit("ctrl-");
        }
        strip_modifiers(s.skip(5), KeyModifiers { control: true, ..m })
    } else if starts_with(s, "alt-"@) {
        proof {
            reveal_strlit("alt-");
        }
        strip_modifiers(s.skip(4), KeyModifiers { alt: true, ..m })
    } else if starts_with(s, "shift-"@) {
        proof {
            reveal_strlit("shift-");
        }
        strip_modifiers(s.skip(6), KeyModifiers { shift: true, ..m })
    } else {
        (s, m)
    }
}

/// The key `c` with the modifiers `m`.
pub open spec fn key_with(c: KeyCode, m: KeyModifiers) -> Option<KeyEvent> {
    Some(KeyEvent { code: c, modifiers: m })
}

/// The key named by `raw` (already lower-cased), with the modifiers `m`.
pub open spec fn named_key(raw: Seq<char>, m: KeyModifiers) -> Option<KeyEvent> {
    if raw == "esc"@ {
        key_with(KeyCode::Esc, m)
    } else if raw == "enter"@ {
        key_with(KeyCode::Enter, m)
    } else if raw == "left"@ {
        key_with(KeyCode::Left, m)
    } else if raw == "right"@ {
        key_with(KeyCode::Right, m)
    } else if raw == "up"@ {
        key_with(KeyCode::Up, m)
    } else if raw == "down"@ {
        key_with(KeyCode::Down, m)
    } else if raw == "home"@ {
        key_with(KeyCode::Home, m)
    } else if raw == "end"@ {
        key_with(KeyCode::End, m)
    } else if raw == "pageup"@ {
        key_with(KeyCode::PageUp, m)
    } else if raw == "pagedown"@ {
        key_with(KeyCode::PageDown, m)
    } else if raw == "backtab"@ {
        Some(KeyEvent { code: KeyCode::BackTab, modifiers: KeyModifiers { shift: true, ..m } })
    } else if raw == "backspace"@ {
        key_with(KeyCode::Backspace, m)
    } else if raw == "delete"@ {
        key_with(KeyCode::Delete, m)
    } else if raw == "insert"@ {
        key_with(KeyCode::Insert, m)
    } else if raw.len() >= 2 && raw[0] == 'f' && function_key_number(raw) is Some {
        key_with(KeyCode::F(function_key_number(raw)->0), m)
    } else if raw == "space"@ {
        key_with(KeyCode::Char(' '), m)
    } else if raw == "hyphen"@ || raw == "minus"@ {
        key_with(KeyCode::Char('-'), m)
    } else if raw == "tab"@ {
        key_with(KeyCode::Tab, m)
    } else if raw.len() == 1 && (raw[0] as u32) < 128 {
        key_with(KeyCode::Char(if m.shift { ascii_upper(raw[0]) } else { raw[0] }), m)
    } else {
        None
    }
}

/// The number of a function key name `f1` to `f12`.
pub open spec fn function_key_number(raw: Seq<char>) -> Option<u8> {
    if raw == "f1"@ {
        Some(1u8)
    } else if raw == "f2"@ {
        Some(2u8)
    } else if raw == "f3"@ {
        Some(3u8)
    } else if raw == "f4"@ {
        Some(4u8)
    } else if raw == "f5"@ {
        Some(5u8)
    } else if raw == "f6"@ {
        Some(6u8)
    } else if raw == "f7"@ {
        Some(7u8)
    } else if raw == "f8"@ {
        Some(8u8)
    } else if raw == "f9"@ {
        Some(9u8)
    } else if raw == "f10"@ {
        Some(10u8)
    } else if raw == "f11"@ {
        Some(11u8)
    } else if raw == "f12"@ {
        Some(12u8)
    } else {
        None
    }
}

/// Removes the modifier prefixes at the front of `raw`.
pub fn extract_modifiers(raw: &Vec<char>) -> (r: (Vec<char>, KeyModifiers))
    ensures
        (r.0@, r.1) == strip_modifiers(raw@, no_modifiers()),
{
    let ctrl = chars_of("ctrl-");
    let alt = chars_of("alt-");
    let shift = chars_of("shift-");
    proof {
        reveal_strlit("ctrl-");
        reveal_strlit("alt-");
        reveal_strlit("shift-");
    }
    let mut m = KeyModifiers::empty();
    let n = raw.len();
    let mut i: usize = 0;
    proof {
        assert(raw@.skip(0) == raw@);
    }
    let mut done = false;
    while !done
        invariant
            i <= n,
            n == raw@.len(),
            done ==> strip_modifiers(raw@.skip(i as int), m) == (raw@.skip(i as int), m),
            ctrl@ == "ctrl-"@,
            alt@ == "alt-"@,
            shift@ == "shift-"@,
            ctrl@.len() == 5,
            alt@.len() == 4,
            shift@.len() == 6,
            strip_modifiers(raw@.skip(i as int), m) == strip_modifiers(raw@, no_modifiers()),
        decreases n - i + if done { 0int } else { 1int },
    {
        if matches_prefix(raw, i, &ctrl) {
            m = KeyModifiers { control: true, ..m };
            proof {
                assert(raw@.skip(i as int).skip(5) == raw@.skip(i + 5));
            }
            i += 5;
        } else if matches_prefix(raw, i, &alt) {
            m = KeyModifiers { alt: true, ..m };
            proof {
                assert(raw@.skip(i as int).skip(4) == raw@.skip(i + 4));
            }
            i += 4;
        } else if matches_prefix(raw, i, &shift) {
            m = KeyModifiers { shift: true, ..m };
            proof {
                assert(raw@.skip(i as int).skip(6) == raw@.skip(i + 6));
            }
            i += 6;
        } else {
            done = true;
        }
    }
    let rest = crate::text::slice_chars(raw, i, n);
    proof {
        assert(rest@ == raw@.skip(i as int));
    }
    (rest, m)
}

fn matches_prefix(s: &Vec<char>, at: usize, p: &Vec<char>) -> (r: bool)
    requires
        at <= s@.len(),
    ensures
        r == starts_with(s@.skip(at as int), p@),
{
    crate::text::matches_at(s, at, p)
}

/// The lower-cased text without spaces.
fn normalize(raw: &str) -> (r: Vec<char>)
    ensures
        r@ == normalize_key_text(raw@),
{
    let cs = chars_of(raw);
    let mut out: Vec<char> = Vec::new();
    let mut i: usize = 0;
    while i < cs.len()
        invariant
            i <= cs@.len(),
            cs@ == raw@,
            out@ == normalize_key_text(cs@.take(i as int)),
        decreases cs@.len() - i,
    {
        proof {
            assert(cs@.take(i + 1).drop_last() == cs@.take(i as int));
        }
        if cs[i] != ' ' {
            out.push(to_ascii_lower(cs[i]));
        }
        i += 1;
    }
    proof {
        assert(cs@.take(i as int) == cs@);
    }
    out
}

fn function_key(raw: &str) -> (r: Option<u8>)
    ensures
        r == function_key_number(raw@),
{
    if str_eq(raw, "f1") {
        Some(1)
    } else if str_eq(raw, "f2") {
        Some(2)
    } else if str_eq(raw, "f3") {
        Some(3)
    } else if str_eq(raw, "f4") {
        Some(4)
    } else if str_eq(raw, "f5") {
        Some(5)
    } else if str_eq(raw, "f6") {
        Some(6)
    } else if str_eq(raw, "f7") {
        Some(7)
    } else if str_eq(raw, "f8") {
        Some(8)
    } else if str_eq(raw, "f9") {
        Some(9)
    } else if str_eq(raw, "f10") {
        Some(10)
    } else if str_eq(raw, "f11") {
        Some(11)
    } else if str_eq(raw, "f12") {
        Some(12)
    } else {
        None
    }
}

fn plain_key(code: KeyCode, modifiers: KeyModifiers) -> (r: Result<KeyEvent, String>)
    ensures
        r == Ok::<KeyEvent, String>(KeyEvent { code, modifiers }),
{
    Ok(KeyEvent { code, modifiers })
}

/// Reads a key name (already lower-cased) held with `modifiers`: a named
/// key, a function key, or a single ASCII character (upper-cased when shift
/// is held); an error naming the text otherwise.
pub fn parse_key_code_with_modifiers(raw: &str, modifiers: KeyModifiers) -> (r: Result<KeyEvent, String>)
    ensures
        match named_key(raw@, modifiers) {
            Some(e) => r == Ok::<KeyEvent, String>(e),
            None => r matches Err(msg) && msg@ == "Unable to parse "@ + raw@,
        },
{
    proof {
        reveal_strlit("f1");
        reveal_strlit("f2");
        reveal_strlit("f3");
        reveal_strlit("f4");
        reveal_strlit("f5");
        reveal_strlit("f6");
        reveal_strlit("f7");
        reveal_strlit("f8");
        reveal_strlit("f9");
        reveal_strlit("f10");
        reveal_strlit("f11");
        reveal_strlit("f12");
        reveal_strlit("esc");
        reveal_strlit("enter");
        reveal_strlit("left");
        reveal_strlit("right");
        reveal_strlit("up");
        reveal_strlit("down");
        reveal_strlit("home");
        reveal_strlit("end");
        reveal_strlit("pageup");
        reveal_strlit("pagedown");
        reveal_strlit("backtab");
        reveal_strlit("backspace");
        reveal_strlit("delete");
        reveal_strlit("insert");
        reveal_strlit("space");
        reveal_strlit("hyphen");
        reveal_strlit("minus");
        reveal_strlit("tab");
    }
    if str_eq(raw, "esc") {
        plain_key(KeyCode::Esc, modifiers)
    } else if str_eq(raw, "enter") {
        plain_key(KeyCode::Enter, modifiers)
    } else if str_eq(raw, "left") {
        plain_key(KeyCode::Left, modifiers)
    } else if str_eq(raw, "right") {
        plain_key(KeyCode::Right, modifiers)
    } else if str_eq(raw, "up") {
        plain_key(KeyCode::Up, modifiers)
    } else if str_eq(raw, "down") {
        plain_key(KeyCode::Down, modifiers)
    } else if str_eq(raw, "home") {
        plain_key(KeyCode::Home, modifiers)
    } else if str_eq(raw, "end") {
        plain_key(KeyCode::End, modifiers)
    } else if str_eq(raw, "pageup") {
        plain_key(KeyCode::PageUp, modifiers)
    } else if str_eq(raw, "pagedown") {
        plain_key(KeyCode::PageDown, modifiers)
    } else if str_eq(raw, "backtab") {
        Ok(KeyEvent { code: KeyCode::BackTab, modifiers: KeyModifiers { shift: true, ..modifiers } })
    } else if str_eq(raw, "backspace") {
        plain_key(KeyCode::Backspace, modifiers)
    } else if str_eq(raw, "delete") {
        plain_key(KeyCode::Delete, modifiers)
    } else if str_eq(raw, "insert") {
        plain_key(KeyCode::Insert, modifiers)
    } else if let Some(n) = function_key(raw) {
        plain_key(KeyCode::F(n), modifiers)
    } else if str_eq(raw, "space") {
        plain_key(KeyCode::Char(' '), modifiers)
    } else if str_eq(raw, "hyphen") || str_eq(raw, "minus") {
        plain_key(KeyCode::Char('-'), modifiers)
    } else if str_eq(raw, "tab") {
        plain_key(KeyCode::Tab, modifiers)
    } else {
        let cs = chars_of(raw);
        if cs.len() == 1 && (cs[0] as u32) < 128 {
            let c = if modifiers.shift { to_ascii_upper(cs[0]) } else { cs[0] };
            plain_key(KeyCode::Char(c), modifiers)
        } else {
            let mut msg = String::new();
            msg.append("Unable to parse ");
            msg.append(raw);
            Err(msg)
        }
    }
}

/// Reads a key binding such as `ctrl-shift-l`: lower-cased (ASCII), spaces
/// removed, modifier prefixes taken off, then the key name read.
pub fn parse_key_event(raw: &str) -> (r: Result<KeyEvent, String>)
    ensures
        ({
            let (rest, m) = strip_modifiers(normalize_key_text(raw@), no_modifiers());
            match named_key(rest, m) {
                Some(e) => r == Ok::<KeyEvent, String>(e),
                None => r matches Err(msg) && msg@ == "Unable to parse "@ + rest,
            }
        }),
{
    let lowered = normalize(raw);
    let (rest, modifiers) = extract_modifiers(&lowered);
    let text = string_from_chars(&rest);
    parse_key_code_with_modifiers(text.as_str(), modifiers)
}

/// The name of a key as shown in the help.
pub open spec fn key_code_name(code: KeyCode) -> Seq<char> {
    match code {
        KeyCode::Backspace => "Backspace"@,
        KeyCode::Enter => "Enter"@,
        KeyCode::Left => "Left"@,
        KeyCode::Right => "Right"@,
        KeyCode::Up => "Up"@,
        KeyCode::Down => "Down"@,
        KeyCode::Home => "Home"@,
        KeyCode::End => "End"@,
        KeyCode::PageUp => "PageUp"@,
        KeyCode::PageDown => "PageDown"@,
        KeyCode::Tab => "Tab"@,
        KeyCode::BackTab => "BackTab"@,
        KeyCode::Delete => "Delete"@,
        KeyCode::Insert => "Insert"@,
        KeyCode::F(n) => seq!['F'] + decimal(n as nat),
        KeyCode::Char(c) => if c == ' ' {
            "Space"@
        } else {
            seq![c]
        },
        KeyCode::Esc => "Esc"@,
        _ => Seq::empty(),
    }
}

/// The modifiers as shown in the help: `Ctrl`, `Shift` and `Alt`, in that
/// order, each followed by `-`.
pub open spec fn modifier_prefix(m: KeyModifiers) -> Seq<char> {
    (if m.control { "Ctrl-"@ } else { Seq::empty() }) + (if m.shift { "Shift-"@ } else { Seq::empty() }) + (if m.alt {
        "Alt-"@
    } else {
        Seq::empty()
    })
}

/// Shift alone.
pub open spec fn shift_only() -> KeyModifiers {
    KeyModifiers { shift: true, ..no_modifiers() }
}

/// How a key binding is shown: a shifted character as its capital, else the
/// modifiers and the key name.
pub open spec fn key_text(e: KeyEvent) -> Seq<char> {
    match e.code {
        KeyCode::Char(c) if e.modifiers == shift_only() => seq![ascii_upper(c)],
        _ => modifier_prefix(e.modifiers) + key_code_name(e.code),
    }
}

fn key_code_name_exec(code: KeyCode) -> (s: String)
    ensures
        s@ == key_code_name(code),
{
    match code {
        KeyCode::Backspace => "Backspace".to_owned(),
        KeyCode::Enter => "Enter".to_owned(),
        KeyCode::Left => "Left".to_owned(),
        KeyCode::Right => "Right".to_owned(),
        KeyCode::Up => "Up".to_owned(),
        KeyCode::Down => "Down".to_owned(),
        KeyCode::Home => "Home".to_owned(),
        KeyCode::End => "End".to_owned(),
        KeyCode::PageUp => "PageUp".to_owned(),
        KeyCode::PageDown => "PageDown".to_owned(),
        KeyCode::Tab => "Tab".to_owned(),
        KeyCode::BackTab => "BackTab".to_owned(),
        KeyCode::Delete => "Delete".to_owned(),
        KeyCode::Insert => "Insert".to_owned(),
        KeyCode::F(n) => {
            let mut s = String::new();
            s.append("F");
            s.append(decimal_string(n as u64).as_str());
            proof {
                reveal_strlit("F");
            }
            s
        },
        KeyCode::Char(c) => {
            if c == ' ' {
                "Space".to_owned()
            } else {
                let v: Vec<char> = vec![c];
                string_from_chars(&v)
            }
        },
        KeyCode::Esc => "Esc".to_owned(),
        _ => String::new(),
    }
}

/// The text of a key binding.
pub fn key_event_to_string(key_event: KeyEvent) -> (s: String)
    ensures
        s@ == key_text(key_event),
{
    let m = key_event.modifiers;
    match key_event.code {
        KeyCode::Char(c) => {
            if m.shift && !m.control && !m.alt && !m.super_key && !m.hyper && !m.meta {
                let v: Vec<char> = vec![to_ascii_upper(c)];
                return string_from_chars(&v);
            }
        },
        _ => {},
    }
    let mut key = String::new();
    if m.control {
        key.append("Ctrl-");
    }
    if m.shift {
        key.append("Shift-");
    }
    if m.alt {
        key.append("Alt-");
    }
    key.append(key_code_name_exec(key_event.code).as_str());
    key
}

/// Position of a key in the order keys are listed in.
pub open spec fn code_rank(c: KeyCode) -> int {
    match c {
        KeyCode::Backspace => 0,
        KeyCode::Enter => 1,
        KeyCode::Left => 2,
        KeyCode::Right => 3,
        KeyCode::Up => 4,
        KeyCode::Down => 5,
        KeyCode::Home => 6,
        KeyCode::End => 7,
        KeyCode::PageUp => 8,
        KeyCode::PageDown => 9,
        KeyCode::Tab => 10,
        KeyCode::BackTab => 11,
        KeyCode::Delete => 12,
        KeyCode::Insert => 13,
        KeyCode::F(_) => 14,
        KeyCode::Char(_) => 15,
        KeyCode::Null => 16,
        KeyCode::Esc => 17,
        KeyCode::CapsLock => 18,
        KeyCode::ScrollLock => 19,
        KeyCode::NumLock => 20,
        KeyCode::PrintScreen => 21,
        KeyCode::Pause => 22,
        KeyCode::Menu => 23,
        KeyCode::KeypadBegin => 24,
        KeyCode::Media => 25,
        KeyCode::Modifier => 26,
    }
}

/// The number a key carries (function key number or character).
pub open spec fn code_payload(c: KeyCode) -> int {
    match c {
        KeyCode::F(n) => n as int,
        KeyCode::Char(ch) => ch as int,
        _ => 0,
    }
}

/// The modifier bits: shift 1, control 2, alt 4, super 8, hyper 16, meta 32.
pub open spec fn modifier_bits(m: KeyModifiers) -> int {
    (if m.shift { 1int } else { 0int }) + (if m.control { 2int } else { 0int }) + (if m.alt { 4int } else { 0int }) + (
    if m.super_key { 8int } else { 0int }) + (if m.hyper { 16int } else { 0int }) + (if m.meta { 32int } else { 0int })
}

/// The order key bindings are listed in: by key, then by modifiers.
pub open spec fn key_lt(a: KeyEvent, b: KeyEvent) -> bool {
    code_rank(a.code) < code_rank(b.code) || (code_rank(a.code) == code_rank(b.code) && (code_payload(a.code)
        < code_payload(b.code) || (code_payload(a.code) == code_payload(b.code) && modifier_bits(a.modifiers)
        < modifier_bits(b.modifiers))))
}

/// Different keys are ordered one way or the other.
pub proof fn lemma_key_lt_total(a: KeyEvent, b: KeyEvent)
    ensures
        a == b || key_lt(a, b) || key_lt(b, a),
{
    if code_rank(a.code) == code_rank(b.code) && code_payload(a.code) == code_payload(b.code) {
        assert(a.code == b.code);
        if modifier_bits(a.modifiers) == modifier_bits(b.modifiers) {
            assert(a.modifiers == b.modifiers);
        }
    }
}

fn code_rank_exec(c: KeyCode) -> (r: u8)
    ensures
        r == code_rank(c),
{
    match c {
        KeyCode::Backspace => 0,
        KeyCode::Enter => 1,
        KeyCode::Left => 2,
        KeyCode::Right => 3,
        KeyCode::Up => 4,
        KeyCode::Down => 5,
        KeyCode::Home => 6,
        KeyCode::End => 7,
        KeyCode::PageUp => 8,
        KeyCode::PageDown => 9,
        KeyCode::Tab => 10,
        KeyCode::BackTab => 11,
        KeyCode::Delete => 12,
        KeyCode::Insert => 13,
        KeyCode::F(_) => 14,
        KeyCode::Char(_) => 15,
        KeyCode::Null => 16,
        KeyCode::Esc => 17,
        KeyCode::CapsLock => 18,
        KeyCode::ScrollLock => 19,
        KeyCode::NumLock => 20,
        KeyCode::PrintScreen => 21,
        KeyCode::Pause => 22,
        KeyCode::Menu => 23,
        KeyCode::KeypadBegin => 24,
        KeyCode::Media => 25,
        KeyCode::Modifier => 26,
    }
}

fn code_payload_exec(c: KeyCode) -> (r: u32)
    ensures
        r == code_payload(c),
{
    match c {
        KeyCode::F(n) => n as u32,
        KeyCode::Char(ch) => ch as u32,
        _ => 0,
    }
}

fn modifier_bits_exec(m: KeyModifiers) -> (r: u8)
    ensures
        r == modifier_bits(m),
{
    (if m.shift { 1u8 } else { 0u8 }) + (if m.control { 2u8 } else { 0u8 }) + (if m.alt { 4u8 } else { 0u8 }) + (if m.super_key {
        8u8
    } else {
        0u8
    }) + (if m.hyper { 16u8 } else { 0u8 }) + (if m.meta { 32u8 } else { 0u8 })
}

fn key_less(a: KeyEvent, b: KeyEvent) -> (r: bool)
    ensures
        r == key_lt(a, b),
{
    let ra = code_rank_exec(a.code);
    let rb = code_rank_exec(b.code);
    let pa = code_payload_exec(a.code);
    let pb = code_payload_exec(b.code);
    ra < rb || (ra == rb && (pa < pb || (pa == pb && modifier_bits_exec(a.modifiers) < modifier_bits_exec(b.modifiers))))
}

/// The event each key is bound to; a later entry for a key replaces an
/// earlier one.
pub open spec fn binding_map(v: Seq<(KeyEvent, UserEvent)>) -> Map<KeyEvent, UserEvent>
    decreases v.len(),
{
    if v.len() == 0 {
        Map::empty()
    } else {
        binding_map(v.drop_last()).insert(v.last().0, v.last().1)
    }
}

/// The key bindings.
#[derive(Debug)]
pub struct KeyBind {
    entries: Vec<(KeyEvent, UserEvent)>,
}

/// Why a key binding list was refused.
#[derive(Debug)]
pub enum KeyBindError {
    /// A key text that does not name a key, and why.
    InvalidKey { raw: String, reason: String },
    /// A key bound to two events.
    Conflict { key: KeyEvent, event: UserEvent, existing: UserEvent },
}

/// The keys bound to `ue`.
pub open spec fn keys_of(m: Map<KeyEvent, UserEvent>, ue: UserEvent) -> Set<KeyEvent> {
    Set::new(|k: KeyEvent| m.contains_key(k) && m[k] == ue)
}

/// Keys strictly in listing order.
pub open spec fn keys_sorted(ks: Seq<KeyEvent>) -> bool {
    forall|i: int, j: int| 0 <= i < j < ks.len() ==> key_lt(#[trigger] ks[i], #[trigger] ks[j])
}

impl KeyBind {
    /// The event each key is bound to.
    pub closed spec fn map(&self) -> Map<KeyEvent, UserEvent> {
        binding_map(self.entries@)
    }

    /// No bindings.
    pub fn empty() -> (k: KeyBind)
        ensures
            k.map() == Map::<KeyEvent, UserEvent>::empty(),
    {
        KeyBind { entries: Vec::new() }
    }

    /// The event bound to `key`.
    pub fn get(&self, key: &KeyEvent) -> (r: Option<UserEvent>)
        ensures
            r is Some <==> self.map().contains_key(*key),
            r is Some ==> r->0 == self.map()[*key],
    {
        let mut i: usize = self.entries.len();
        proof {
            assert(self.entries@.take(i as int) == self.entries@);
        }
        while i > 0
            invariant
                i <= self.entries@.len(),
                forall|j: int| i <= j < self.entries@.len() ==> self.entries@[j].0 != *key,
                self.map().contains_key(*key) <==> binding_map(self.entries@.take(i as int)).contains_key(*key),
                self.map().contains_key(*key) ==> self.map()[*key] == binding_map(self.entries@.take(i as int))[*key],
            decreases i,
        {
            proof {
                assert(self.entries@.take(i as int).drop_last() == self.entries@.take(i - 1));
            }
            if self.entries[i - 1].0 == *key {
                return Some(self.entries[i - 1].1);
            }
            i -= 1;
        }
        proof {
            assert(self.entries@.take(0) == Seq::<(KeyEvent, UserEvent)>::empty());
        }
        None
    }

    /// Binds `key` to `event`; returns the event it was bound to before.
    pub fn insert(&mut self, key: KeyEvent, event: UserEvent) -> (r: Option<UserEvent>)
        ensures
            final(self).map() == old(self).map().insert(key, event),
            r is Some <==> old(self).map().contains_key(key),
            r is Some ==> r->0 == old(self).map()[key],
    {
        let r = self.get(&key);
        let ghost before = self.entries@;
        self.entries.push((key, event));
        proof {
            assert(self.entries@.drop_last() == before);
        }
        r
    }

    /// The default bindings with the custom ones laid over them.
    pub fn new(default_keybind: KeyBind, custom_keybind_patch: Option<KeyBind>) -> (k: KeyBind)
        ensures
            match custom_keybind_patch {
                Some(p) => k.map() == default_keybind.map().union_prefer_right(p.map()),
                None => k.map() == default_keybind.map(),
            },
    {
        let mut keybind = default_keybind;
        match custom_keybind_patch {
            Some(patch) => {
                let ghost base = keybind.map();
                let mut i: usize = 0;
                while i < patch.entries.len()
                    invariant
                        i <= patch.entries@.len(),
                        keybind.map() == base.union_prefer_right(binding_map(patch.entries@.take(i as int))),
                    decreases patch.entries@.len() - i,
                {
                    let (k, e) = patch.entries[i];
                    keybind.insert(k, e);
                    proof {
                        assert(patch.entries@.take(i + 1).drop_last() == patch.entries@.take(i as int));
                        assert(keybind.map() =~= base.union_prefer_right(binding_map(patch.entries@.take(i + 1))));
                    }
                    i += 1;
                }
                proof {
                    assert(patch.entries@.take(i as int) == patch.entries@);
                }
            },
            None => {},
        }
        keybind
    }

    /// Builds the bindings from `(event, key text)` pairs, in order: the
    /// first key text that does not parse, or the first key bound twice,
    /// refuses the list.
    pub fn from_event_keys(pairs: &Vec<(UserEvent, String)>) -> (r: Result<KeyBind, KeyBindError>)
        ensures
            match r {
                Ok(k) => k.map() == pairs_map(pairs@, pairs@.len() as int) && pairs_ok(pairs@, pairs@.len() as int),
                Err(e) => !pairs_ok(pairs@, pairs@.len() as int) && exists|i: int|
                    0 <= i < pairs@.len() && pairs_ok(pairs@, i) && #[trigger] pair_error(pairs@, i, e),
            },
    {
        let mut keybind = KeyBind::empty();
        let mut i: usize = 0;
        while i < pairs.len()
            invariant
                i <= pairs@.len(),
                pairs_ok(pairs@, i as int),
                keybind.map() == pairs_map(pairs@, i as int),
            decreases pairs@.len() - i,
        {
            let ue = pairs[i].0;
            match parse_key_event(pairs[i].1.as_str()) {
                Ok(key) => {
                    let ghost before = keybind.map();
                    match keybind.insert(key, ue) {
                        Some(existing) => {
                            proof {
                                assert(!pairs_ok(pairs@, i + 1));
                                if pairs_ok(pairs@, pairs@.len() as int) {
                                    lemma_pairs_ok_prefix(pairs@, i + 1, pairs@.len() as int);
                                }
                            }
                            let e = KeyBindError::Conflict { key, event: ue, existing };
                            proof {
                                assert(pair_error(pairs@, i as int, e));
                            }
                            return Err(e);
                        },
                        None => {},
                    }
                },
                Err(reason) => {
                    proof {
                        assert(!pairs_ok(pairs@, i + 1));
                        if pairs_ok(pairs@, pairs@.len() as int) {
                            lemma_pairs_ok_prefix(pairs@, i + 1, pairs@.len() as int);
                        }
                    }
                    let raw = pairs[i].1.clone();
                    let e = KeyBindError::InvalidKey { raw, reason };
                    proof {
                        assert(pair_error(pairs@, i as int, e));
                    }
                    return Err(e);
                },
            }
            i += 1;
        }
        Ok(keybind)
    }

    /// The numbers of the user commands that some key toggles, ascending.
    pub fn user_command_view_toggle_event_numbers(&self) -> (r: Vec<usize>)
        ensures
            r@ == sorted_toggle_numbers(self.map()),
    {
        let n = self.entries.len();
        let ghost m = self.map();
        let mut out: Vec<usize> = Vec::new();
        let mut i: usize = 0;
        while i < n
            invariant
                i <= n,
                n == self.entries@.len(),
                m == self.map(),
                ascending(out@),
                forall|x: usize| #[trigger] out@.contains(x) <==> exists|j: int|
                    0 <= j < i && #[trigger] m.contains_key(self.entries@[j].0) && m[self.entries@[j].0]
                        == UserEvent::UserCommandViewToggle(x),
            decreases n - i,
        {
            let k = self.entries[i].0;
            let bound = self.get(&k);
            let ghost before = out@;
            match bound {
                Some(UserEvent::UserCommandViewToggle(x)) => {
                    let len = out.len();
                    let mut pos: usize = 0;
                    while pos < len && out[pos] < x
                        invariant
                            pos <= len,
                            len == out@.len(),
                            forall|q: int| 0 <= q < pos ==> out@[q] < x,
                        decreases len - pos,
                    {
                        pos += 1;
                    }
                    if pos < len && out[pos] == x {
                    } else {
                        out.insert(pos, x);
                        proof {
                            assert(out@ == before.insert(pos as int, x));
                            assert forall|a: int, b: int| 0 <= a < b < out@.len() implies #[trigger] out@[a] < #[trigger] out@[b] by {
                                if a < pos && b < pos {
                                } else if a < pos && b == pos {
                                } else if a < pos {
                                    assert(out@[b] == before[b - 1]);
                                } else if a == pos {
                                    assert(out@[b] == before[b - 1]);
                                } else {
                                    assert(out@[a] == before[a - 1] && out@[b] == before[b - 1]);
                                }
                            }
                            assert forall|y: usize| #[trigger] out@.contains(y) <==> before.contains(y) || y == x by {
                                if out@.contains(y) {
                                    let q = choose|q: int| 0 <= q < out@.len() && out@[q] == y;
                                    if q < pos {
                                        assert(before[q] == y);
                                    } else if q > pos {
                                        assert(before[q - 1] == y);
                                    }
                                }
                                if before.contains(y) {
                                    let q = choose|q: int| 0 <= q < before.len() && before[q] == y;
                                    if q < pos {
                                        assert(out@[q] == y);
                                    } else {
                                        assert(out@[q + 1] == y);
                                    }
                                }
                                if y == x {
                                    assert(out@[pos as int] == y);
                                }
                            }
                        }
                    }
                },
                _ => {},
            }
            proof {
                assert forall|y: usize| #[trigger] out@.contains(y) <==> exists|j: int|
                    0 <= j < i + 1 && #[trigger] m.contains_key(self.entries@[j].0) && m[self.entries@[j].0]
                        == UserEvent::UserCommandViewToggle(y) by {
                    if m.contains_key(k) && m[k] == UserEvent::UserCommandViewToggle(y) {
                        assert(self.entries@[i as int].0 == k);
                    }
                    if exists|j: int|
                        0 <= j < i + 1 && #[trigger] m.contains_key(self.entries@[j].0) && m[self.entries@[j].0]
                            == UserEvent::UserCommandViewToggle(y) {
                        let j = choose|j: int|
                            0 <= j < i + 1 && #[trigger] m.contains_key(self.entries@[j].0) && m[self.entries@[j].0]
                                == UserEvent::UserCommandViewToggle(y);
                        if j == i {
                            assert(bound == Some(UserEvent::UserCommandViewToggle(y)));
                        }
                    }
                }
            }
            i += 1;
        }
        proof {
            lemma_binding_map_contains(self.entries@);
            assert forall|y: usize| out@.to_set().contains(y) <==> toggle_numbers(m).contains(y) by {
                if toggle_numbers(m).contains(y) {
                    let k = choose|k: KeyEvent| m.contains_key(k) && m[k] == UserEvent::UserCommandViewToggle(y);
                    let j = choose|j: int| 0 <= j < self.entries@.len() && self.entries@[j].0 == k;
                    assert(m.contains_key(self.entries@[j].0));
                }
            }
            assert(out@.to_set() =~= toggle_numbers(m));
            let b = sorted_toggle_numbers(m);
            assert(ascending(b) && b.to_set() == toggle_numbers(m));
            lemma_ascending_same_set(out@, b);
        }
        out
    }

    /// The texts of the keys bound to `user_event`, in listing order.
    pub fn keys_for_event(&self, user_event: UserEvent) -> (r: Vec<String>)
        ensures
            r@.len() == sorted_keys_of(self.map(), user_event).len(),
            forall|i: int| 0 <= i < r@.len() ==> (#[trigger] r@[i])@ == key_text(sorted_keys_of(self.map(), user_event)[i]),
    {
        let n = self.entries.len();
        let ghost m = self.map();
        let mut ks: Vec<KeyEvent> = Vec::new();
        let mut i: usize = 0;
        while i < n
            invariant
                i <= n,
                n == self.entries@.len(),
                m == self.map(),
                keys_sorted(ks@),
                forall|k: KeyEvent| #[trigger] ks@.contains(k) <==> (exists|j: int| 0 <= j < i && self.entries@[j].0 == k)
                    && m.contains_key(k) && m[k] == user_event,
            decreases n - i,
        {
            let k = self.entries[i].0;
            let bound = self.get(&k);
            let wanted = match bound {
                Some(e) => e == user_event,
                None => false,
            };
            let ghost before = ks@;
            if wanted {
                let len = ks.len();
                let mut pos: usize = 0;
                while pos < len && key_less(ks[pos], k)
                    invariant
                        pos <= len,
                        len == ks@.len(),
                        forall|q: int| 0 <= q < pos ==> key_lt(ks@[q], k),
                    decreases len - pos,
                {
                    pos += 1;
                }
                if pos < len && ks[pos] == k {
                } else {
                    proof {
                        if pos < len {
                            lemma_key_lt_total(ks@[pos as int], k);
                        }
                        assert forall|q: int| 0 <= q < len implies ks@[q] != k by {
                            if q >= pos && pos < len {
                                lemma_key_lt_total(ks@[q], k);
                            }
                        }
                    }
                    ks.insert(pos, k);
                    proof {
                        assert(ks@ == before.insert(pos as int, k));
                        assert forall|x: int, y: int| 0 <= x < y < ks@.len() implies key_lt(#[trigger] ks@[x], #[trigger] ks@[y]) by {
                            if x < pos && y < pos {
                            } else if x < pos && y == pos {
                            } else if x < pos {
                                assert(ks@[y] == before[y - 1]);
                            } else if x == pos {
                                assert(ks@[y] == before[y - 1]);
                                lemma_key_lt_total(before[pos as int], k);
                            } else {
                                assert(ks@[x] == before[x - 1] && ks@[y] == before[y - 1]);
                            }
                        }
                        assert forall|kk: KeyEvent| #[trigger] ks@.contains(kk) <==> before.contains(kk) || kk == k by {
                            if ks@.contains(kk) {
                                let q = choose|q: int| 0 <= q < ks@.len() && ks@[q] == kk;
                                if q < pos {
                                    assert(before[q] == kk);
                                } else if q > pos {
                                    assert(before[q - 1] == kk);
                                }
                            }
                            if before.contains(kk) {
                                let q = choose|q: int| 0 <= q < before.len() && before[q] == kk;
                                if q < pos {
                                    assert(ks@[q] == kk);
                                } else {
                                    assert(ks@[q + 1] == kk);
                                }
                            }
                            if kk == k {
                                assert(ks@[pos as int] == kk);
                            }
                        }
                    }
                }
            }
            proof {
                assert forall|kk: KeyEvent| #[trigger] ks@.contains(kk) <==> (exists|j: int| 0 <= j < i + 1 && self.entries@[j].0 == kk)
                    && m.contains_key(kk) && m[kk] == user_event by {
                    if kk == k && m.contains_key(kk) && m[kk] == user_event {
                        assert(self.entries@[i as int].0 == kk);
                        if !ks@.contains(kk) {
                            assert(wanted);
                        }
                    }
                }
            }
            i += 1;
        }
        proof {
            lemma_binding_map_contains(self.entries@);
            assert(ks@.to_set() =~= keys_of(m, user_event));
        }
        let mut out: Vec<String> = Vec::new();
        let mut q: usize = 0;
        while q < ks.len()
            invariant
                q <= ks@.len(),
                out@.len() == q,
                forall|t: int| 0 <= t < q ==> (#[trigger] out@[t])@ == key_text(ks@[t]),
            decreases ks@.len() - q,
        {
            out.push(key_event_to_string(ks[q]));
            q += 1;
        }
        proof {
            lemma_sorted_keys_unique(ks@, m, user_event);
        }
        out
    }
}

/// The keys bound to `ue`, in listing order.
pub open spec fn sorted_keys_of(m: Map<KeyEvent, UserEvent>, ue: UserEvent) -> Seq<KeyEvent> {
    choose|ks: Seq<KeyEvent>| keys_sorted(ks) && ks.to_set() == keys_of(m, ue)
}

/// A list of the keys bound to `ue` in listing order is the one
/// `sorted_keys_of` names.
pub proof fn lemma_sorted_keys_unique(a: Seq<KeyEvent>, m: Map<KeyEvent, UserEvent>, ue: UserEvent)
    requires
        keys_sorted(a),
        a.to_set() == keys_of(m, ue),
    ensures
        a == sorted_keys_of(m, ue),
{
    let b = sorted_keys_of(m, ue);
    assert(keys_sorted(b) && b.to_set() == keys_of(m, ue));
    lemma_sorted_same_set(a, b);
}

/// Two lists of keys in listing order that hold the same keys are the same.
proof fn lemma_sorted_same_set(a: Seq<KeyEvent>, b: Seq<KeyEvent>)
    requires
        keys_sorted(a),
        keys_sorted(b),
        a.to_set() == b.to_set(),
    ensures
        a == b,
    decreases a.len(),
{
    if a.len() == 0 {
        if b.len() > 0 {
            assert(b.to_set().contains(b[0]));
        }
        assert(a =~= b);
    } else {
        assert(a.to_set().contains(a[0]));
        assert(b.len() > 0);
        assert(b.to_set().contains(b[0]));
        let j = choose|j: int| 0 <= j < b.len() && b[j] == a[0];
        let i = choose|i: int| 0 <= i < a.len() && a[i] == b[0];
        if j > 0 {
            assert(key_lt(b[0], b[j]));
            if i > 0 {
                assert(key_lt(a[0], a[i]));
            }
            assert(false);
        }
        let a1 = a.skip(1);
        let b1 = b.skip(1);
        assert forall|k: KeyEvent| a1.to_set().contains(k) <==> b1.to_set().contains(k) by {
            if a1.to_set().contains(k) {
                let p = choose|p: int| 0 <= p < a1.len() && a1[p] == k;
                assert(a[p + 1] == k);
                assert(key_lt(a[0], a[p + 1]));
                assert(a.to_set().contains(k));
                let q = choose|q: int| 0 <= q < b.len() && b[q] == k;
                assert(q != 0);
                assert(b1[q - 1] == k);
            }
            if b1.to_set().contains(k) {
                let p = choose|p: int| 0 <= p < b1.len() && b1[p] == k;
                assert(b[p + 1] == k);
                assert(key_lt(b[0], b[p + 1]));
                assert(b.to_set().contains(k));
                let q = choose|q: int| 0 <= q < a.len() && a[q] == k;
                assert(q != 0);
                assert(a1[q - 1] == k);
            }
        }
        assert(a1.to_set() =~= b1.to_set());
        assert(keys_sorted(a1)) by {
            assert forall|x: int, y: int| 0 <= x < y < a1.len() implies key_lt(#[trigger] a1[x], #[trigger] a1[y]) by {
                assert(a1[x] == a[x + 1] && a1[y] == a[y + 1]);
            }
        }
        assert(keys_sorted(b1)) by {
            assert forall|x: int, y: int| 0 <= x < y < b1.len() implies key_lt(#[trigger] b1[x], #[trigger] b1[y]) by {
                assert(b1[x] == b[x + 1] && b1[y] == b[y + 1]);
            }
        }
        lemma_sorted_same_set(a1, b1);
        assert(a =~= b) by {
            assert forall|t: int| 0 <= t < a.len() implies a[t] == b[t] by {
                if t > 0 {
                    assert(a[t] == a1[t - 1] && b[t] == b1[t - 1]);
                }
            }
        }
    }
}

/// The numbers of the user commands some key toggles.
pub open spec fn toggle_numbers(m: Map<KeyEvent, UserEvent>) -> Set<usize> {
    Set::new(|n: usize| exists|k: KeyEvent| m.contains_key(k) && m[k] == UserEvent::UserCommandViewToggle(n))
}

/// Strictly increasing numbers.
pub open spec fn ascending(s: Seq<usize>) -> bool {
    forall|i: int, j: int| 0 <= i < j < s.len() ==> #[trigger] s[i] < #[trigger] s[j]
}

/// Those numbers, ascending.
pub open spec fn sorted_toggle_numbers(m: Map<KeyEvent, UserEvent>) -> Seq<usize> {
    choose|s: Seq<usize>| ascending(s) && s.to_set() == toggle_numbers(m)
}

/// Two ascending lists of the same numbers are the same list.
proof fn lemma_ascending_same_set(a: Seq<usize>, b: Seq<usize>)
    requires
        ascending(a),
        ascending(b),
        a.to_set() == b.to_set(),
    ensures
        a == b,
    decreases a.len(),
{
    if a.len() == 0 {
        if b.len() > 0 {
            assert(b.to_set().contains(b[0]));
        }
        assert(a =~= b);
    } else {
        assert(a.to_set().contains(a[0]));
        assert(b.to_set().contains(b[0]));
        let j = choose|j: int| 0 <= j < b.len() && b[j] == a[0];
        let i = choose|i: int| 0 <= i < a.len() && a[i] == b[0];
        if j > 0 {
            assert(b[0] < b[j]);
            if i > 0 {
                assert(a[0] < a[i]);
            }
            assert(false);
        }
        let a1 = a.skip(1);
        let b1 = b.skip(1);
        assert forall|k: usize| a1.to_set().contains(k) <==> b1.to_set().contains(k) by {
            if a1.to_set().contains(k) {
                let p = choose|p: int| 0 <= p < a1.len() && a1[p] == k;
                assert(a[p + 1] == k);
                assert(a[0] < a[p + 1]);
                assert(a.to_set().contains(k));
                let q = choose|q: int| 0 <= q < b.len() && b[q] == k;
                assert(q != 0);
                assert(b1[q - 1] == k);
            }
            if b1.to_set().contains(k) {
                let p = choose|p: int| 0 <= p < b1.len() && b1[p] == k;
                assert(b[p + 1] == k);
                assert(b[0] < b[p + 1]);
                assert(b.to_set().contains(k));
                let q = choose|q: int| 0 <= q < a.len() && a[q] == k;
                assert(q != 0);
                assert(a1[q - 1] == k);
            }
        }
        assert(a1.to_set() =~= b1.to_set());
        assert(ascending(a1)) by {
            assert forall|x: int, y: int| 0 <= x < y < a1.len() implies #[trigger] a1[x] < #[trigger] a1[y] by {
                assert(a1[x] == a[x + 1] && a1[y] == a[y + 1]);
            }
        }
        assert(ascending(b1)) by {
            assert forall|x: int, y: int| 0 <= x < y < b1.len() implies #[trigger] b1[x] < #[trigger] b1[y] by {
                assert(b1[x] == b[x + 1] && b1[y] == b[y + 1]);
            }
        }
        lemma_ascending_same_set(a1, b1);
        assert(a =~= b) by {
            assert forall|t: int| 0 <= t < a.len() implies a[t] == b[t] by {
                if t > 0 {
                    assert(a[t] == a1[t - 1] && b[t] == b1[t - 1]);
                }
            }
        }
    }
}

/// A key is bound exactly when some entry names it.
proof fn lemma_binding_map_contains(v: Seq<(KeyEvent, UserEvent)>)
    ensures
        forall|k: KeyEvent| #[trigger] binding_map(v).contains_key(k) <==> exists|j: int| 0 <= j < v.len() && v[j].0 == k,
    decreases v.len(),
{
    if v.len() > 0 {
        lemma_binding_map_contains(v.drop_last());
        assert forall|k: KeyEvent| #[trigger] binding_map(v).contains_key(k) <==> exists|j: int| 0 <= j < v.len() && v[j].0 == k by {
            if binding_map(v.drop_last()).contains_key(k) {
                let j = choose|j: int| 0 <= j < v.drop_last().len() && v.drop_last()[j].0 == k;
                assert(v[j].0 == k);
            }
            if exists|j: int| 0 <= j < v.len() && v[j].0 == k {
                let j = choose|j: int| 0 <= j < v.len() && v[j].0 == k;
                if j < v.len() - 1 {
                    assert(v.drop_last()[j].0 == k);
                }
            }
        }
    }
}

proof fn lemma_pairs_ok_prefix(pairs: Seq<(UserEvent, String)>, a: int, b: int)
    requires
        0 <= a <= b,
        pairs_ok(pairs, b),
    ensures
        pairs_ok(pairs, a),
    decreases b - a,
{
    if a < b {
        lemma_pairs_ok_prefix(pairs, a, b - 1);
    }
}

/// The key each of the first `n` pairs names.
pub open spec fn parsed_key(p: (UserEvent, String)) -> Option<KeyEvent> {
    let (rest, m) = strip_modifiers(normalize_key_text(p.1@), no_modifiers());
    named_key(rest, m)
}

/// The bindings of the first `n` pairs.
pub open spec fn pairs_map(pairs: Seq<(UserEvent, String)>, n: int) -> Map<KeyEvent, UserEvent>
    decreases n,
{
    if n <= 0 {
        Map::empty()
    } else {
        let prev = pairs_map(pairs, n - 1);
        match parsed_key(pairs[n - 1]) {
            Some(k) => prev.insert(k, pairs[n - 1].0),
            None => prev,
        }
    }
}

/// `e` is the error the pair at `i` raises after the pairs before it were
/// bound: its key text names no key, or its key is bound already.
pub open spec fn pair_error(pairs: Seq<(UserEvent, String)>, i: int, e: KeyBindError) -> bool {
    let (rest, m) = strip_modifiers(normalize_key_text(pairs[i].1@), no_modifiers());
    match named_key(rest, m) {
        None => e matches KeyBindError::InvalidKey { raw, reason } && raw@ == pairs[i].1@
            && reason@ == "Unable to parse "@ + rest,
        Some(k) => pairs_map(pairs, i).contains_key(k) && e == (KeyBindError::Conflict {
            key: k,
            event: pairs[i].0,
            existing: pairs_map(pairs, i)[k],
        }),
    }
}

/// The first `n` pairs all name keys, and no key twice.
pub open spec fn pairs_ok(pairs: Seq<(UserEvent, String)>, n: int) -> bool
    decreases n,
{
    if n <= 0 {
        true
    } else {
        pairs_ok(pairs, n - 1) && match parsed_key(pairs[n - 1]) {
            Some(k) => !pairs_map(pairs, n - 1).contains_key(k),
            None => false,
        }
    }
}

/// A key bound by `insert` is then found by `get` with its new event, and
/// every other key keeps its binding.
pub proof fn lemma_insert_then_get(m: Map<KeyEvent, UserEvent>, key: KeyEvent, event: UserEvent, other: KeyEvent)
    ensures
        m.insert(key, event).contains_key(key),
        m.insert(key, event)[key] == event,
        other != key ==> (m.insert(key, event).contains_key(other) <==> m.contains_key(other)),
        other != key && m.contains_key(other) ==> m.insert(key, event)[other] == m[other],
{
}

} // verus!
