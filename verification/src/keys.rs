//! Normalization of the PTSG `Keys` grammar into a typed model the UI can
//! render without re-parsing.
//!
//! - plain strings render as-is on a keycap ("A", "Tab", "F4", "Space")
//! - multi-digit strings / ints are Windows virtual-key codes ("91" = Win);
//!   a single digit is the digit key itself ("0" in Ctrl+0)
//! - `<...>` tokens get special glyph rendering; an unknown `<X>` renders the
//!   literal `X`

use vstd::prelude::*;

use crate::numfmt::{decimal_value, digit_char, parse_decimal_u32};
use crate::schema::RawKeyToken;
use crate::numfmt::digit_char_spec;
use crate::schema::RawKeyTokenV;
use crate::text::{
    all_digit_chars, all_digits, chars_eq_str, chars_of, eq_ci, eq_ignore_case_str, lower_chars,
    lower_seq, push_char, slice_chars, string_of, strip_whitespace, strip_ws, trim, trim_chars,
};

verus! {

#[derive(Debug, Clone, Copy, PartialEq, Eq, Structural)]
pub enum GlyphToken {
    Left,
    Right,
    Up,
    Down,
    Arrow,
    ArrowLR,
    ArrowUD,
    Enter,
    Backspace,
    Escape,
    PageUp,
    PageDown,
    Home,
    End,
    Insert,
    Delete,
    Pause,
    PrtScr,
    Copilot,
    Office,
}

#[derive(Debug, PartialEq, Eq)]
pub enum Key {
    /// Render the string as-is on a keycap.
    Literal(String),
    /// Windows virtual-key code; the UI maps it to a label/glyph.
    Vk(u32),
    Glyph(GlyphToken),
    /// `<Underlined letter>` — keycap with underlined-letter styling.
    UnderlinedLetter,
    /// `<TASKBAR1-9>` — renders as a "Num" keycap.
    TaskbarRange,
    /// Unknown `<X>` token: render literal `X`.
    AngleLiteral(String),
}

/// What a [`Key`] denotes, with its text as a character sequence.
pub enum KeyV {
    Literal(Seq<char>),
    Vk(u32),
    Glyph(GlyphToken),
    UnderlinedLetter,
    TaskbarRange,
    AngleLiteral(Seq<char>),
}

impl View for Key {
    type V = KeyV;

    open spec fn view(&self) -> KeyV {
        match self {
            Key::Literal(s) => KeyV::Literal(s@),
            Key::Vk(n) => KeyV::Vk(*n),
            Key::Glyph(g) => KeyV::Glyph(*g),
            Key::UnderlinedLetter => KeyV::UnderlinedLetter,
            Key::TaskbarRange => KeyV::TaskbarRange,
            Key::AngleLiteral(s) => KeyV::AngleLiteral(s@),
        }
    }
}

impl Clone for Key {
    fn clone(&self) -> (r: Self)
        ensures
            r@ == self@,
    {
        match self {
            Key::Literal(s) => Key::Literal(s.clone()),
            Key::Vk(n) => Key::Vk(*n),
            Key::Glyph(g) => Key::Glyph(*g),
            Key::UnderlinedLetter => Key::UnderlinedLetter,
            Key::TaskbarRange => Key::TaskbarRange,
            Key::AngleLiteral(s) => Key::AngleLiteral(s.clone()),
        }
    }
}

/// Copies of every key, in order.
pub fn clone_keys(v: &Vec<Key>) -> (r: Vec<Key>)
    ensures
        r@.len() == v@.len(),
        forall|i: int| 0 <= i < v@.len() ==> #[trigger] r@[i]@ == v@[i]@,
{
    let mut out: Vec<Key> = Vec::new();
    for i in 0..v.len()
        invariant
            out@.len() == i,
            forall|j: int| 0 <= j < i ==> #[trigger] out@[j]@ == v@[j]@,
    {
        out.push(v[i].clone());
    }
    out
}

/// The keys' views.
pub open spec fn keys_view(v: Seq<Key>) -> Seq<KeyV> {
    v.map_values(|k: Key| k@)
}

/// The glyph named by an already case-folded, whitespace-free name.
pub open spec fn glyph_named(f: Seq<char>) -> Option<GlyphToken> {
    if f == "left"@ {
        Some(GlyphToken::Left)
    } else if f == "right"@ {
        Some(GlyphToken::Right)
    } else if f == "up"@ {
        Some(GlyphToken::Up)
    } else if f == "down"@ {
        Some(GlyphToken::Down)
    } else if f == "arrow"@ {
        Some(GlyphToken::Arrow)
    } else if f == "arrowlr"@ {
        Some(GlyphToken::ArrowLR)
    } else if f == "arrowud"@ {
        Some(GlyphToken::ArrowUD)
    } else if f == "enter"@ {
        Some(GlyphToken::Enter)
    } else if f == "backspace"@ {
        Some(GlyphToken::Backspace)
    } else if f == "escape"@ {
        Some(GlyphToken::Escape)
    } else if f == "pageup"@ {
        Some(GlyphToken::PageUp)
    } else if f == "pagedown"@ {
        Some(GlyphToken::PageDown)
    } else if f == "home"@ {
        Some(GlyphToken::Home)
    } else if f == "end"@ {
        Some(GlyphToken::End)
    } else if f == "insert"@ {
        Some(GlyphToken::Insert)
    } else if f == "delete"@ {
        Some(GlyphToken::Delete)
    } else if f == "pause"@ {
        Some(GlyphToken::Pause)
    } else if f == "prtscr"@ {
        Some(GlyphToken::PrtScr)
    } else if f == "copilot"@ {
        Some(GlyphToken::Copilot)
    } else if f == "office"@ {
        Some(GlyphToken::Office)
    } else {
        None
    }
}

/// Glyph for a `<...>` token's inner text: case-insensitive and blind to
/// whitespace ("Page Up" == "PageUp").
pub open spec fn glyph_spec(inner: Seq<char>) -> Option<GlyphToken> {
    glyph_named(lower_seq(strip_ws(inner)))
}

pub fn glyph_for(inner: &Vec<char>) -> (r: Option<GlyphToken>)
    ensures
        r == glyph_spec(inner@),
{
    let stripped = strip_whitespace(inner);
    let f = lower_chars(&stripped);
    if chars_eq_str(&f, "left") {
        Some(GlyphToken::Left)
    } else if chars_eq_str(&f, "right") {
        Some(GlyphToken::Right)
    } else if chars_eq_str(&f, "up") {
        Some(GlyphToken::Up)
    } else if chars_eq_str(&f, "down") {
        Some(GlyphToken::Down)
    } else if chars_eq_str(&f, "arrow") {
        Some(GlyphToken::Arrow)
    } else if chars_eq_str(&f, "arrowlr") {
        Some(GlyphToken::ArrowLR)
    } else if chars_eq_str(&f, "arrowud") {
        Some(GlyphToken::ArrowUD)
    } else if chars_eq_str(&f, "enter") {
        Some(GlyphToken::Enter)
    } else if chars_eq_str(&f, "backspace") {
        Some(GlyphToken::Backspace)
    } else if chars_eq_str(&f, "escape") {
        Some(GlyphToken::Escape)
    } else if chars_eq_str(&f, "pageup") {
        Some(GlyphToken::PageUp)
    } else if chars_eq_str(&f, "pagedown") {
        Some(GlyphToken::PageDown)
    } else if chars_eq_str(&f, "home") {
        Some(GlyphToken::Home)
    } else if chars_eq_str(&f, "end") {
        Some(GlyphToken::End)
    } else if chars_eq_str(&f, "insert") {
        Some(GlyphToken::Insert)
    } else if chars_eq_str(&f, "delete") {
        Some(GlyphToken::Delete)
    } else if chars_eq_str(&f, "pause") {
        Some(GlyphToken::Pause)
    } else if chars_eq_str(&f, "prtscr") {
        Some(GlyphToken::PrtScr)
    } else if chars_eq_str(&f, "copilot") {
        Some(GlyphToken::Copilot)
    } else if chars_eq_str(&f, "office") {
        Some(GlyphToken::Office)
    } else {
        None
    }
}

/// The `<TASKBAR1-9>` token's inner text.
pub const TASKBAR_TOKEN: &'static str = "TASKBAR1-9";

/// `s` is a `<...>` token: at least two characters, bracketed.
pub open spec fn is_angle_token(s: Seq<char>) -> bool {
    s.len() >= 2 && s[0] == '<' && s.last() == '>'
}

/// Text between the brackets of a `<...>` token.
pub open spec fn angle_inner(s: Seq<char>) -> Seq<char> {
    s.subrange(1, s.len() - 1)
}

/// Meaning of an already-trimmed `<...>` token's trimmed inner text.
pub open spec fn angle_key(inner: Seq<char>) -> KeyV {
    if eq_ci(inner, TASKBAR_TOKEN@) {
        KeyV::TaskbarRange
    } else if eq_ci(inner, "underlined letter"@) {
        KeyV::UnderlinedLetter
    } else if glyph_spec(inner) is Some {
        KeyV::Glyph(glyph_spec(inner)->0)
    } else {
        KeyV::AngleLiteral(inner)
    }
}

/// Meaning of a `Keys` string entry.
pub open spec fn normalize_str_spec(raw: Seq<char>) -> KeyV {
    let s = trim(raw);
    if is_angle_token(s) {
        angle_key(trim(angle_inner(s)))
    } else if s.len() > 1 && all_digit_chars(s) && decimal_value(s) <= u32::MAX {
        KeyV::Vk(decimal_value(s) as u32)
    } else {
        KeyV::Literal(s)
    }
}

/// Meaning of a `Keys` list item.
pub open spec fn normalize_token_spec(raw: RawKeyTokenV) -> KeyV {
    match raw {
        RawKeyTokenV::Num(n) => if n <= 9 {
            KeyV::Literal(seq![digit_char_spec(n as int)])
        } else {
            KeyV::Vk(n as u32)
        },
        RawKeyTokenV::Str(s) => normalize_str_spec(s),
        RawKeyTokenV::Null => KeyV::Literal(seq!['~']),
    }
}


/// Normalize one `Keys` list item.
pub fn normalize_token(raw: &RawKeyToken) -> (r: Key)
    ensures
        r@ == normalize_token_spec(raw@),
{
    match raw {
        RawKeyToken::Num(n) => {
            if *n <= 9 {
                let mut s = String::new();
                push_char(&mut s, digit_char(*n as u32));
                Key::Literal(s)
            } else {
                Key::Vk(*n as u32)
            }
        },
        RawKeyToken::Str(s) => normalize_str(s.as_str()),
        RawKeyToken::Null => {
            let mut s = String::new();
            push_char(&mut s, '~');
            Key::Literal(s)
        },
    }
}

/// Meaning of the trimmed inner text of a `<...>` token.
fn angle_token(inner: &Vec<char>) -> (r: Key)
    ensures
        r@ == angle_key(inner@),
{
    if eq_ignore_case_str(inner, TASKBAR_TOKEN) {
        return Key::TaskbarRange;
    }
    if eq_ignore_case_str(inner, "underlined letter") {
        return Key::UnderlinedLetter;
    }
    match glyph_for(inner) {
        Some(g) => Key::Glyph(g),
        None => Key::AngleLiteral(string_of(inner)),
    }
}

/// Normalize one `Keys` string entry.
pub fn normalize_str(raw: &str) -> (r: Key)
    ensures
        r@ == normalize_str_spec(raw@),
{
    let all = chars_of(raw);
    let s = trim_chars(&all);
    let n = s.len();
    if n >= 2 && s[0] == '<' && s[n - 1] == '>' {
        let inner = slice_chars(&s, 1, n - 1);
        let t = trim_chars(&inner);
        return angle_token(&t);
    }
    if n > 1 && all_digits(&s) {
        if let Some(v) = parse_decimal_u32(&s) {
            return Key::Vk(v);
        }
    }
    Key::Literal(string_of(&s))
}

} // verus!
