//! The human-editable combo-string codec: chords separated by whitespace,
//! keys within a chord joined by `+` ("Ctrl+K Z" = press Ctrl+K, then Z).
//! `<...>` tokens use the manifest grammar; `VKnn` is a raw virtual-key
//! code; `Plus` (or `++`) is the literal plus key.

use vstd::prelude::*;

use crate::keys::{
    glyph_for, glyph_spec, normalize_str, normalize_str_spec, GlyphToken, Key, KeyV,
};
use crate::model::{strs_view, KeyCombo, KeyComboV};
use crate::keys::TASKBAR_TOKEN;
use crate::numfmt::{decimal_spec, decimal_string, decimal_value, parse_decimal_u32};
use crate::text::{
    all_digit_chars, all_digits, chars_eq_str, chars_of, eq_ci, eq_ignore_case_str, is_whitespace,
    is_ws, lower_chars, lower_seq, push_char, slice_chars, str_eq, string_of, upper, upper_char,
};

verus! {

/// Which characters split a string (outside `<...>` tokens).
#[derive(Clone, Copy, PartialEq, Eq, Structural)]
pub enum Sep {
    /// Whitespace: separates the chords of a sequence.
    Space,
    /// `+`: separates the keys of a chord.
    Plus,
}

pub open spec fn sep_hit(sep: Sep, c: char) -> bool {
    match sep {
        Sep::Space => is_ws(c),
        Sep::Plus => c == '+',
    }
}

/// Scanner state after some prefix: finished tokens, the token being
/// built, and the `<...>` nesting depth.
#[verifier::ext_equal]
pub struct SplitState {
    pub out: Seq<Seq<char>>,
    pub cur: Seq<char>,
    pub depth: nat,
}

pub open spec fn split_step(st: SplitState, c: char, sep: Sep) -> SplitState {
    if c == '<' {
        SplitState { out: st.out, cur: st.cur.push(c), depth: st.depth + 1 }
    } else if c == '>' {
        SplitState {
            out: st.out,
            cur: st.cur.push(c),
            depth: if st.depth > 0 {
                (st.depth - 1) as nat
            } else {
                0
            },
        }
    } else if st.depth == 0 && sep_hit(sep, c) {
        // With the plus separator an empty segment keeps the separator
        // itself, so "Ctrl++" reads as Ctrl + the literal plus key.
        let cur = if st.cur.len() == 0 && sep == Sep::Plus {
            seq![c]
        } else {
            st.cur
        };
        if cur.len() > 0 {
            SplitState { out: st.out.push(cur), cur: Seq::empty(), depth: st.depth }
        } else {
            SplitState { out: st.out, cur: cur, depth: st.depth }
        }
    } else {
        SplitState { out: st.out, cur: st.cur.push(c), depth: st.depth }
    }
}

pub open spec fn split_scan(s: Seq<char>, sep: Sep) -> SplitState
    decreases s.len(),
{
    if s.len() == 0 {
        SplitState { out: Seq::empty(), cur: Seq::empty(), depth: 0 }
    } else {
        split_step(split_scan(s.drop_last(), sep), s.last(), sep)
    }
}

/// The non-empty segments of `s` between separators that sit outside
/// `<...>` tokens.
pub open spec fn split_spec(s: Seq<char>, sep: Sep) -> Seq<Seq<char>> {
    let st = split_scan(s, sep);
    if st.cur.len() > 0 {
        st.out.push(st.cur)
    } else {
        st.out
    }
}

pub open spec fn chars_view(v: Seq<Vec<char>>) -> Seq<Seq<char>> {
    v.map_values(|x: Vec<char>| x@)
}

fn split_outside_angles(s: &Vec<char>, sep: Sep) -> (r: Vec<Vec<char>>)
    ensures
        chars_view(r@) == split_spec(s@, sep),
{
    let mut out: Vec<Vec<char>> = Vec::new();
    let mut cur: Vec<char> = Vec::new();
    let mut depth: usize = 0;
    for i in 0..s.len()
        invariant
            chars_view(out@) == split_scan(s@.take(i as int), sep).out,
            cur@ == split_scan(s@.take(i as int), sep).cur,
            depth == split_scan(s@.take(i as int), sep).depth,
            depth <= i,
    {
        let c = s[i];
        assert(s@.take(i + 1).drop_last() =~= s@.take(i as int));
        assert(s@.take(i + 1).last() == c);
        if c == '<' {
            depth += 1;
            cur.push(c);
        } else if c == '>' {
            if depth > 0 {
                depth -= 1;
            }
            cur.push(c);
        } else if depth == 0 && (match sep {
            Sep::Space => is_whitespace(c),
            Sep::Plus => c == '+',
        }) {
            if cur.len() == 0 && sep == Sep::Plus {
                cur.push(c);
                assert(cur@ =~= seq![c]);
            }
            if cur.len() > 0 {
                let done = cur;
                out.push(done);
                cur = Vec::new();
                assert(chars_view(out@) =~= split_scan(s@.take(i + 1), sep).out);
                assert(cur@ =~= split_scan(s@.take(i + 1), sep).cur);
            }
        } else {
            cur.push(c);
        }
        assert(chars_view(out@) =~= split_scan(s@.take(i + 1), sep).out);
    }
    assert(s@.take(s.len() as int) =~= s@);
    if cur.len() > 0 {
        out.push(cur);
    }
    assert(chars_view(out@) =~= split_spec(s@, sep));
    out
}

/// Meaning of one key token of a chord.
pub open spec fn parse_key_spec(tok: Seq<char>) -> KeyV {
    if tok.len() > 2 && tok[0] == '<' && tok.last() == '>' {
        normalize_str_spec(tok)
    } else if vk_code(tok) is Some {
        KeyV::Vk(vk_code(tok)->0)
    } else if tok.len() == 1 {
        KeyV::Literal(seq![upper(tok[0])])
    } else if eq_ci(tok, "esc"@) {
        KeyV::Glyph(GlyphToken::Escape)
    } else if eq_ci(tok, "return"@) {
        KeyV::Glyph(GlyphToken::Enter)
    } else if eq_ci(tok, "plus"@) {
        KeyV::Literal(seq!['+'])
    } else if glyph_spec(tok) is Some {
        KeyV::Glyph(glyph_spec(tok)->0)
    } else {
        KeyV::Literal(tok)
    }
}

/// `VKnn` (or `vknn`, `Vknn`) with a non-empty run of digits that fits in
/// `u32`.
pub open spec fn vk_code(tok: Seq<char>) -> Option<u32> {
    if tok.len() > 2 && ((tok[0] == 'V' && tok[1] == 'K') || (tok[0] == 'v' && tok[1] == 'k') || (
    tok[0] == 'V' && tok[1] == 'k')) && all_digit_chars(tok.skip(2)) && decimal_value(tok.skip(2))
        <= u32::MAX {
        Some(decimal_value(tok.skip(2)) as u32)
    } else {
        None
    }
}

fn parse_key(tok: &Vec<char>) -> (r: Key)
    ensures
        r@ == parse_key_spec(tok@),
{
    let n = tok.len();
    if n > 2 && tok[0] == '<' && tok[n - 1] == '>' {
        let s = string_of(tok);
        return normalize_str(s.as_str());
    }
    if n > 2 && ((tok[0] == 'V' && tok[1] == 'K') || (tok[0] == 'v' && tok[1] == 'k') || (tok[0]
        == 'V' && tok[1] == 'k')) {
        let rest = slice_chars(tok, 2, n);
        assert(rest@ =~= tok@.skip(2));
        if all_digits(&rest) {
            if let Some(v) = parse_decimal_u32(&rest) {
                return Key::Vk(v);
            }
        }
    }
    if n == 1 {
        let mut s = String::new();
        push_char(&mut s, upper_char(tok[0]));
        assert(s@ =~= seq![upper(tok@[0])]);
        return Key::Literal(s);
    }
    if eq_ignore_case_str(tok, "esc") {
        return Key::Glyph(GlyphToken::Escape);
    }
    if eq_ignore_case_str(tok, "return") {
        return Key::Glyph(GlyphToken::Enter);
    }
    if eq_ignore_case_str(tok, "plus") {
        let mut s = String::new();
        push_char(&mut s, '+');
        assert(s@ =~= seq!['+']);
        return Key::Literal(s);
    }
    match glyph_for(tok) {
        Some(g) => Key::Glyph(g),
        None => Key::Literal(string_of(tok)),
    }
}

/// Which modifier, if any, a chord part names.
pub enum ModName {
    Win,
    Ctrl,
    Shift,
    Alt,
}

pub open spec fn modifier_of(p: Seq<char>) -> Option<ModName> {
    let l = lower_seq(p);
    if l == "win"@ || l == "cmd"@ || l == "meta"@ || l == "super"@ {
        Some(ModName::Win)
    } else if l == "ctrl"@ || l == "control"@ {
        Some(ModName::Ctrl)
    } else if l == "shift"@ {
        Some(ModName::Shift)
    } else if l == "alt"@ || l == "option"@ || l == "opt"@ {
        Some(ModName::Alt)
    } else {
        None
    }
}

/// The chord built from its parts, in order.
pub open spec fn chord_fold(parts: Seq<Seq<char>>) -> KeyComboV
    decreases parts.len(),
{
    if parts.len() == 0 {
        KeyComboV { win: false, ctrl: false, shift: false, alt: false, keys: Seq::empty() }
    } else {
        let c = chord_fold(parts.drop_last());
        let p = parts.last();
        match modifier_of(p) {
            Some(ModName::Win) => KeyComboV { win: true, ..c },
            Some(ModName::Ctrl) => KeyComboV { ctrl: true, ..c },
            Some(ModName::Shift) => KeyComboV { shift: true, ..c },
            Some(ModName::Alt) => KeyComboV { alt: true, ..c },
            None => KeyComboV { keys: c.keys.push(parse_key_spec(p)), ..c },
        }
    }
}

/// One chord ("Ctrl+Alt+Z"); None when it has no parts.
pub open spec fn parse_chord_spec(tok: Seq<char>) -> Option<KeyComboV> {
    let parts = split_spec(tok, Sep::Plus);
    if parts.len() == 0 {
        None
    } else {
        Some(chord_fold(parts))
    }
}

fn modifier_name(p: &Vec<char>) -> (r: Option<ModName>)
    ensures
        r == modifier_of(p@),
{
    let l = lower_chars(p);
    if chars_eq_str(&l, "win") || chars_eq_str(&l, "cmd") || chars_eq_str(&l, "meta")
        || chars_eq_str(&l, "super") {
        Some(ModName::Win)
    } else if chars_eq_str(&l, "ctrl") || chars_eq_str(&l, "control") {
        Some(ModName::Ctrl)
    } else if chars_eq_str(&l, "shift") {
        Some(ModName::Shift)
    } else if chars_eq_str(&l, "alt") || chars_eq_str(&l, "option") || chars_eq_str(&l, "opt") {
        Some(ModName::Alt)
    } else {
        None
    }
}

fn parse_chord(tok: &Vec<char>) -> (r: Option<KeyCombo>)
    ensures
        match r {
            Some(c) => parse_chord_spec(tok@) == Some(c@),
            None => parse_chord_spec(tok@) is None,
        },
{
    let parts = split_outside_angles(tok, Sep::Plus);
    if parts.len() == 0 {
        return None;
    }
    let mut combo = KeyCombo { win: false, ctrl: false, shift: false, alt: false, keys: Vec::new() };
    assert(combo@.keys =~= Seq::<KeyV>::empty());
    for i in 0..parts.len()
        invariant
            chars_view(parts@) == split_spec(tok@, Sep::Plus),
            combo@ == chord_fold(chars_view(parts@).take(i as int)),
    {
        let p = &parts[i];
        assert(chars_view(parts@).take(i + 1).drop_last() =~= chars_view(parts@).take(i as int));
        assert(chars_view(parts@).take(i + 1).last() == p@);
        match modifier_name(p) {
            Some(ModName::Win) => {
                combo.win = true;
            },
            Some(ModName::Ctrl) => {
                combo.ctrl = true;
            },
            Some(ModName::Shift) => {
                combo.shift = true;
            },
            Some(ModName::Alt) => {
                combo.alt = true;
            },
            None => {
                let k = parse_key(p);
                combo.keys.push(k);
                assert(combo@.keys =~= chord_fold(chars_view(parts@).take(i as int)).keys.push(
                    parse_key_spec(p@),
                ));
            },
        }
        assert(combo@ == chord_fold(chars_view(parts@).take(i + 1)));
    }
    assert(chars_view(parts@).take(parts.len() as int) =~= chars_view(parts@));
    Some(combo)
}

/// Chords parsed from tokens; None as soon as one fails.
pub open spec fn parse_chords(toks: Seq<Seq<char>>) -> Option<Seq<KeyComboV>>
    decreases toks.len(),
{
    if toks.len() == 0 {
        Some(Seq::empty())
    } else {
        match (parse_chords(toks.drop_last()), parse_chord_spec(toks.last())) {
            (Some(cs), Some(c)) => Some(cs.push(c)),
            _ => None,
        }
    }
}

/// "Ctrl+K Z" -> two chords; None if empty or any chord is malformed.
pub open spec fn parse_combo_seq_spec(s: Seq<char>) -> Option<Seq<KeyComboV>> {
    let toks = split_spec(s, Sep::Space);
    if toks.len() == 0 {
        None
    } else {
        parse_chords(toks)
    }
}

pub open spec fn combos_v(v: Seq<KeyCombo>) -> Seq<KeyComboV> {
    v.map_values(|c: KeyCombo| c@)
}

pub fn parse_combo_seq_chars(s: &Vec<char>) -> (r: Option<Vec<KeyCombo>>)
    ensures
        match r {
            Some(v) => parse_combo_seq_spec(s@) == Some(combos_v(v@)),
            None => parse_combo_seq_spec(s@) is None,
        },
{
    let toks = split_outside_angles(s, Sep::Space);
    if toks.len() == 0 {
        return None;
    }
    let mut out: Vec<KeyCombo> = Vec::new();
    for i in 0..toks.len()
        invariant
            chars_view(toks@) == split_spec(s@, Sep::Space),
            parse_chords(chars_view(toks@).take(i as int)) == Some(combos_v(out@)),
    {
        assert(chars_view(toks@).take(i + 1).drop_last() =~= chars_view(toks@).take(i as int));
        assert(chars_view(toks@).take(i + 1).last() == toks@[i as int]@);
        match parse_chord(&toks[i]) {
            Some(c) => {
                out.push(c);
                assert(combos_v(out@) =~= combos_v(out@).drop_last().push(c@));
            },
            None => {
                proof {
                    lemma_parse_chords_fail(chars_view(toks@), i as int);
                }
                return None;
            },
        }
    }
    assert(chars_view(toks@).take(toks.len() as int) =~= chars_view(toks@));
    Some(out)
}

proof fn lemma_parse_chords_fail(toks: Seq<Seq<char>>, i: int)
    requires
        0 <= i < toks.len(),
        parse_chord_spec(toks[i]) is None,
    ensures
        parse_chords(toks) is None,
    decreases toks.len(),
{
    if i < toks.len() - 1 {
        lemma_parse_chords_fail(toks.drop_last(), i);
    }
}

/// Parse a combo string.
pub fn parse_combo_seq(s: &str) -> (r: Option<Vec<KeyCombo>>)
    ensures
        match r {
            Some(v) => parse_combo_seq_spec(s@) == Some(combos_v(v@)),
            None => parse_combo_seq_spec(s@) is None,
        },
{
    let v = chars_of(s);
    parse_combo_seq_chars(&v)
}

// --- formatting -------------------------------------------------------------

/// `parts` joined with `sep` between neighbours.
pub open spec fn join(parts: Seq<Seq<char>>, sep: Seq<char>) -> Seq<char>
    decreases parts.len(),
{
    if parts.len() == 0 {
        Seq::empty()
    } else if parts.len() == 1 {
        parts[0]
    } else {
        join(parts.drop_last(), sep) + sep + parts.last()
    }
}

/// Concatenation of `parts` with `sep` between neighbours.
pub fn join_strings(parts: &Vec<String>, sep: &str) -> (r: String)
    ensures
        r@ == join(strs_view(parts@), sep@),
{
    let mut out = String::new();
    for i in 0..parts.len()
        invariant
            out@ == join(strs_view(parts@).take(i as int), sep@),
    {
        assert(strs_view(parts@).take(i + 1).drop_last() =~= strs_view(parts@).take(
            i as int,
        ));
        if i > 0 {
            out.append(sep);
        }
        out.append(parts[i].as_str());
        assert(out@ =~= join(strs_view(parts@).take(i + 1), sep@));
    }
    assert(strs_view(parts@).take(parts.len() as int) =~= strs_view(parts@));
    out
}

/// Canonical name of a glyph.
pub open spec fn glyph_name_spec(g: GlyphToken) -> Seq<char> {
    match g {
        GlyphToken::Left => "Left"@,
        GlyphToken::Right => "Right"@,
        GlyphToken::Up => "Up"@,
        GlyphToken::Down => "Down"@,
        GlyphToken::Arrow => "Arrow"@,
        GlyphToken::ArrowLR => "ArrowLR"@,
        GlyphToken::ArrowUD => "ArrowUD"@,
        GlyphToken::Enter => "Enter"@,
        GlyphToken::Backspace => "Backspace"@,
        GlyphToken::Escape => "Escape"@,
        GlyphToken::PageUp => "PageUp"@,
        GlyphToken::PageDown => "PageDown"@,
        GlyphToken::Home => "Home"@,
        GlyphToken::End => "End"@,
        GlyphToken::Insert => "Insert"@,
        GlyphToken::Delete => "Delete"@,
        GlyphToken::Pause => "Pause"@,
        GlyphToken::PrtScr => "PrtScr"@,
        GlyphToken::Copilot => "Copilot"@,
        GlyphToken::Office => "Office"@,
    }
}

pub fn glyph_name(g: GlyphToken) -> (r: &'static str)
    ensures
        r@ == glyph_name_spec(g),
{
    match g {
        GlyphToken::Left => "Left",
        GlyphToken::Right => "Right",
        GlyphToken::Up => "Up",
        GlyphToken::Down => "Down",
        GlyphToken::Arrow => "Arrow",
        GlyphToken::ArrowLR => "ArrowLR",
        GlyphToken::ArrowUD => "ArrowUD",
        GlyphToken::Enter => "Enter",
        GlyphToken::Backspace => "Backspace",
        GlyphToken::Escape => "Escape",
        GlyphToken::PageUp => "PageUp",
        GlyphToken::PageDown => "PageDown",
        GlyphToken::Home => "Home",
        GlyphToken::End => "End",
        GlyphToken::Insert => "Insert",
        GlyphToken::Delete => "Delete",
        GlyphToken::Pause => "Pause",
        GlyphToken::PrtScr => "PrtScr",
        GlyphToken::Copilot => "Copilot",
        GlyphToken::Office => "Office",
    }
}

/// A literal the splitter would break apart: it holds `+`, `<`, `>` or
/// whitespace.
pub open spec fn needs_brackets(v: Seq<char>) -> bool {
    exists|i: int| 0 <= i < v.len() && (v[i] == '+' || v[i] == '<' || v[i] == '>' || is_ws(
        #[trigger] v[i],
    ))
}

pub open spec fn bracketed(v: Seq<char>) -> Seq<char> {
    seq!['<'] + v + seq!['>']
}

/// A literal that can be written bare: the splitter keeps it whole, it
/// names no modifier, and it reads back as a key with the literal's meaning
/// (so not `Esc`, `Return`, `Plus`, `VKnn` or a modifier word, which read
/// back as something else).
pub open spec fn reads_back_plain(v: Seq<char>) -> bool {
    &&& v.len() > 0
    &&& !needs_brackets(v)
    &&& modifier_of(v) is None
    &&& key_norm_spec(parse_key_spec(v)) == literal_norm(v)
}

/// Text of one key within a chord. A literal is written bare where it reads
/// back as itself, and in angle brackets otherwise.
pub open spec fn format_key_spec(k: KeyV) -> Seq<char> {
    match k {
        KeyV::Literal(v) => if v == seq!['+'] {
            "Plus"@
        } else if reads_back_plain(v) {
            v
        } else {
            bracketed(v)
        },
        KeyV::Vk(n) => "VK"@ + decimal_spec(n as nat),
        KeyV::Glyph(g) => glyph_name_spec(g),
        KeyV::UnderlinedLetter => "<Underlined letter>"@,
        KeyV::TaskbarRange => bracketed(TASKBAR_TOKEN@),
        KeyV::AngleLiteral(v) => bracketed(v),
    }
}

fn needs_brackets_exec(v: &Vec<char>) -> (r: bool)
    ensures
        r == needs_brackets(v@),
{
    for i in 0..v.len()
        invariant
            forall|j: int|
                0 <= j < i ==> !(v@[j] == '+' || v@[j] == '<' || v@[j] == '>' || is_ws(
                    #[trigger] v@[j],
                )),
    {
        let c = v[i];
        if c == '+' || c == '<' || c == '>' || is_whitespace(c) {
            return true;
        }
    }
    false
}

fn reads_back_plain_exec(cs: &Vec<char>, v: &String) -> (r: bool)
    requires
        cs@ == v@,
    ensures
        r == reads_back_plain(cs@),
{
    if cs.len() == 0 || needs_brackets_exec(cs) {
        return false;
    }
    if modifier_name(cs).is_some() {
        return false;
    }
    let k = parse_key(cs);
    let read = key_norm(&k);
    let meant = literal_norm_exec(v);
    str_eq(read.as_str(), meant.as_str())
}

fn bracket(v: &Vec<char>) -> (r: String)
    ensures
        r@ == bracketed(v@),
{
    let mut s = String::new();
    push_char(&mut s, '<');
    s.append(string_of(v).as_str());
    push_char(&mut s, '>');
    assert(s@ =~= bracketed(v@));
    s
}

fn format_key(k: &Key) -> (r: String)
    ensures
        r@ == format_key_spec(k@),
{
    match k {
        Key::Literal(v) => {
            let cs = chars_of(v.as_str());
            if cs.len() == 1 && cs[0] == '+' {
                assert(cs@ =~= seq!['+']);
                String::from_str("Plus")
            } else {
                assert(cs@ != seq!['+'] ==> !(cs.len() == 1 && cs@[0] == '+')) by {
                    if cs.len() == 1 && cs@[0] == '+' {
                        assert(cs@ =~= seq!['+']);
                    }
                }
                if reads_back_plain_exec(&cs, v) {
                    v.clone()
                } else {
                    bracket(&cs)
                }
            }
        },
        Key::Vk(n) => {
            let mut s = String::from_str("VK");
            s.append(decimal_string(*n as u64).as_str());
            s
        },
        Key::Glyph(g) => String::from_str(glyph_name(*g)),
        Key::UnderlinedLetter => String::from_str("<Underlined letter>"),
        Key::TaskbarRange => {
            let t = chars_of(TASKBAR_TOKEN);
            bracket(&t)
        },
        Key::AngleLiteral(v) => {
            let cs = chars_of(v.as_str());
            bracket(&cs)
        },
    }
}

/// The words of a chord: modifiers (Win, Ctrl, Alt, Shift), then keys.
pub open spec fn chord_words(c: KeyComboV) -> Seq<Seq<char>> {
    (if c.win {
        seq!["Win"@]
    } else {
        Seq::empty()
    }) + (if c.ctrl {
        seq!["Ctrl"@]
    } else {
        Seq::empty()
    }) + (if c.alt {
        seq!["Alt"@]
    } else {
        Seq::empty()
    }) + (if c.shift {
        seq!["Shift"@]
    } else {
        Seq::empty()
    }) + c.keys.map_values(|k: KeyV| format_key_spec(k))
}

pub open spec fn format_chord_spec(c: KeyComboV) -> Seq<char> {
    join(chord_words(c), "+"@)
}

fn format_chord(c: &KeyCombo) -> (r: String)
    ensures
        r@ == format_chord_spec(c@),
{
    let mut parts: Vec<String> = Vec::new();
    if c.win {
        parts.push(String::from_str("Win"));
    }
    if c.ctrl {
        parts.push(String::from_str("Ctrl"));
    }
    if c.alt {
        parts.push(String::from_str("Alt"));
    }
    if c.shift {
        parts.push(String::from_str("Shift"));
    }
    let ghost m = strs_view(parts@);
    assert(m =~= chord_words(c@).take(m.len() as int));
    for i in 0..c.keys.len()
        invariant
            m.len() <= 4,
            parts@.len() == m.len() + i,
            strs_view(parts@) =~= chord_words(c@).take(m.len() + i),
            chord_words(c@).len() == m.len() + c@.keys.len(),
            m =~= chord_words(c@).take(m.len() as int),
    {
        let w = format_key(&c.keys[i]);
        parts.push(w);
        assert(strs_view(parts@) =~= chord_words(c@).take(m.len() + i + 1));
    }
    assert(chord_words(c@).take(m.len() + c.keys.len()) =~= chord_words(c@));
    join_strings(&parts, "+")
}

/// Canonical string for a chord sequence.
pub open spec fn format_combo_seq_spec(cs: Seq<KeyComboV>) -> Seq<char> {
    join(cs.map_values(|c: KeyComboV| format_chord_spec(c)), " "@)
}

/// Canonical string for a chord sequence: chords joined by spaces, each as
/// its modifiers then its keys joined by `+`. Every chord whose keys can be
/// written at all parses back with the same meaning (see
/// `combo_laws::lemma_format_round_trips`).
pub fn format_combo_seq(chords: &Vec<KeyCombo>) -> (r: String)
    ensures
        r@ == format_combo_seq_spec(combos_v(chords@)),
{
    let mut parts: Vec<String> = Vec::new();
    for i in 0..chords.len()
        invariant
            parts@.len() == i,
            forall|j: int| 0 <= j < i ==> #[trigger] parts@[j]@ == format_chord_spec(chords@[j]@),
    {
        let w = format_chord(&chords[i]);
        parts.push(w);
    }
    assert(strs_view(parts@) =~= combos_v(chords@).map_values(
        |c: KeyComboV| format_chord_spec(c),
    ));
    join_strings(&parts, " ")
}

// --- semantic equality ---------------------------------------------------------
// The same key can be spelled several ways (Literal("Enter"), the <Enter>
// glyph, hand-typed lowercase); comparisons go through a normal form so
// that redefined markers and dedup survive spelling differences.

pub open spec fn key_norm_spec(k: KeyV) -> Seq<char> {
    match k {
        KeyV::Literal(v) => literal_norm(v),
        KeyV::AngleLiteral(v) => literal_norm(v),
        KeyV::Glyph(g) => "g:"@ + glyph_name_spec(g),
        KeyV::Vk(n) => "v:"@ + decimal_spec(n as nat),
        KeyV::UnderlinedLetter => "u"@,
        KeyV::TaskbarRange => "t"@,
    }
}

pub open spec fn literal_norm(v: Seq<char>) -> Seq<char> {
    match glyph_spec(v) {
        Some(g) => "g:"@ + glyph_name_spec(g),
        None => "l:"@ + lower_seq(v),
    }
}

fn literal_norm_exec(v: &String) -> (r: String)
    ensures
        r@ == literal_norm(v@),
{
    let cs = chars_of(v.as_str());
    match glyph_for(&cs) {
        Some(g) => {
            let mut s = String::from_str("g:");
            s.append(glyph_name(g));
            s
        },
        None => {
            let mut s = String::from_str("l:");
            s.append(string_of(&lower_chars(&cs)).as_str());
            s
        },
    }
}

fn key_norm(k: &Key) -> (r: String)
    ensures
        r@ == key_norm_spec(k@),
{
    match k {
        Key::Literal(v) => literal_norm_exec(v),
        Key::AngleLiteral(v) => literal_norm_exec(v),
        Key::Glyph(g) => {
            let mut s = String::from_str("g:");
            s.append(glyph_name(*g));
            s
        },
        Key::Vk(n) => {
            let mut s = String::from_str("v:");
            s.append(decimal_string(*n as u64).as_str());
            s
        },
        Key::UnderlinedLetter => String::from_str("u"),
        Key::TaskbarRange => String::from_str("t"),
    }
}

/// Modifier letters (w, c, a, s), then "|", then the keys' normal forms
/// joined by ",".
pub open spec fn chord_norm_spec(c: KeyComboV) -> Seq<char> {
    (if c.win {
        seq!['w']
    } else {
        Seq::empty()
    }) + (if c.ctrl {
        seq!['c']
    } else {
        Seq::empty()
    }) + (if c.alt {
        seq!['a']
    } else {
        Seq::empty()
    }) + (if c.shift {
        seq!['s']
    } else {
        Seq::empty()
    }) + seq!['|'] + join(c.keys.map_values(|k: KeyV| key_norm_spec(k)), ","@)
}

pub fn chord_norm(c: &KeyCombo) -> (r: String)
    ensures
        r@ == chord_norm_spec(c@),
{
    let mut s = String::new();
    if c.win {
        push_char(&mut s, 'w');
    }
    if c.ctrl {
        push_char(&mut s, 'c');
    }
    if c.alt {
        push_char(&mut s, 'a');
    }
    if c.shift {
        push_char(&mut s, 's');
    }
    push_char(&mut s, '|');
    let mut keys: Vec<String> = Vec::new();
    for i in 0..c.keys.len()
        invariant
            keys@.len() == i,
            forall|j: int| 0 <= j < i ==> #[trigger] keys@[j]@ == key_norm_spec(c.keys@[j]@),
    {
        keys.push(key_norm(&c.keys[i]));
    }
    assert(strs_view(keys@) =~= c@.keys.map_values(|k: KeyV| key_norm_spec(k)));
    s.append(join_strings(&keys, ",").as_str());
    assert(s@ =~= chord_norm_spec(c@));
    s
}

pub open spec fn norms_spec(cs: Seq<KeyComboV>) -> Seq<Seq<char>> {
    cs.map_values(|c: KeyComboV| chord_norm_spec(c))
}

pub fn chord_norms(cs: &Vec<KeyCombo>) -> (r: Vec<String>)
    ensures
        strs_view(r@) == norms_spec(combos_v(cs@)),
{
    let mut out: Vec<String> = Vec::new();
    for i in 0..cs.len()
        invariant
            out@.len() == i,
            forall|j: int| 0 <= j < i ==> #[trigger] out@[j]@ == chord_norm_spec(cs@[j]@),
    {
        out.push(chord_norm(&cs[i]));
    }
    assert(strs_view(out@) =~= norms_spec(combos_v(cs@)));
    out
}

fn strings_eq(a: &Vec<String>, b: &Vec<String>) -> (r: bool)
    ensures
        r == (strs_view(a@) == strs_view(b@)),
{
    if a.len() != b.len() {
        assert(strs_view(a@).len() != strs_view(b@).len());
        return false;
    }
    for i in 0..a.len()
        invariant
            a.len() == b.len(),
            forall|j: int| 0 <= j < i ==> #[trigger] a@[j]@ == b@[j]@,
    {
        if !str_eq(a[i].as_str(), b[i].as_str()) {
            assert(strs_view(a@)[i as int] != strs_view(b@)[i as int]);
            return false;
        }
    }
    assert(strs_view(a@) =~= strs_view(b@));
    true
}

/// Two combo strings are equal if identical, or both parse to chord
/// sequences with the same normal forms.
pub open spec fn combo_eq_spec(a: Seq<char>, b: Seq<char>) -> bool {
    a == b || match (parse_combo_seq_spec(a), parse_combo_seq_spec(b)) {
        (Some(x), Some(y)) => norms_spec(x) == norms_spec(y),
        _ => false,
    }
}

pub fn combo_eq(a: &str, b: &str) -> (r: bool)
    ensures
        r == combo_eq_spec(a@, b@),
{
    if str_eq(a, b) {
        return true;
    }
    match (parse_combo_seq(a), parse_combo_seq(b)) {
        (Some(x), Some(y)) => {
            let nx = chord_norms(&x);
            let ny = chord_norms(&y);
            strings_eq(&nx, &ny)
        },
        _ => false,
    }
}

} // verus!
