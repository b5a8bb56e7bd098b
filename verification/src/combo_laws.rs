//! The combo codec's round trip: a chord sequence written by
//! `format_combo_seq` reads back through `parse_combo_seq` as a
//! semantically equal sequence.

use vstd::prelude::*;

use crate::combo::{
    bracketed, chord_fold, format_combo_seq_spec, norms_spec, parse_chords, parse_combo_seq_spec, chord_norm_spec, chord_words, format_chord_spec, format_key_spec,
    parse_chord_spec, glyph_name_spec, join, key_norm_spec, literal_norm, modifier_of,
    needs_brackets, parse_key_spec, reads_back_plain, sep_hit, split_scan, split_spec, split_step, vk_code, ModName,
    Sep, SplitState,
};
use crate::keys::{
    angle_inner, angle_key, glyph_named, glyph_spec, is_angle_token, normalize_str_spec, GlyphToken,
    KeyV, TASKBAR_TOKEN,
};
use crate::model::KeyComboV;
use crate::numfmt::{decimal_spec, decimal_value};
use crate::text::{
    all_digit_chars, eq_ci, is_digit, is_ws, lead_ws, lemma_lead_ws_unique, lemma_trail_ws_unique,
    lower, lower_seq, strip_ws, trail_ws, trim, upper,
};

verus! {

// ---------------------------------------------------------------------------
// The splitter over concatenations
// ---------------------------------------------------------------------------

/// The splitter's state after reading `s` from state `st`.
pub open spec fn scan_from(st: SplitState, s: Seq<char>, sep: Sep) -> SplitState
    decreases s.len(),
{
    if s.len() == 0 {
        st
    } else {
        split_step(scan_from(st, s.drop_last(), sep), s.last(), sep)
    }
}

pub open spec fn scan_start() -> SplitState {
    SplitState { out: Seq::empty(), cur: Seq::empty(), depth: 0 }
}

proof fn lemma_scan_is_scan_from(s: Seq<char>, sep: Sep)
    ensures
        split_scan(s, sep) == scan_from(scan_start(), s, sep),
    decreases s.len(),
{
    if s.len() > 0 {
        lemma_scan_is_scan_from(s.drop_last(), sep);
    }
}

proof fn lemma_scan_concat(st: SplitState, a: Seq<char>, b: Seq<char>, sep: Sep)
    ensures
        scan_from(st, a + b, sep) == scan_from(scan_from(st, a, sep), b, sep),
    decreases b.len(),
{
    if b.len() == 0 {
        assert(a + b =~= a);
    } else {
        assert((a + b).drop_last() =~= a + b.drop_last());
        assert((a + b).last() == b.last());
        lemma_scan_concat(st, a, b.drop_last(), sep);
    }
}

/// `<...>` nesting depth after one character, as the splitter counts it.
pub open spec fn depth_step(d: nat, c: char) -> nat {
    if c == '<' {
        d + 1
    } else if c == '>' {
        if d > 0 {
            (d - 1) as nat
        } else {
            0
        }
    } else {
        d
    }
}

/// Nesting depth after reading `s` from depth `d`.
pub open spec fn depth_from(d: nat, s: Seq<char>) -> nat
    decreases s.len(),
{
    if s.len() == 0 {
        d
    } else {
        depth_step(depth_from(d, s.drop_last()), s.last())
    }
}

proof fn lemma_depth_concat(d: nat, a: Seq<char>, b: Seq<char>)
    ensures
        depth_from(d, a + b) == depth_from(depth_from(d, a), b),
    decreases b.len(),
{
    if b.len() == 0 {
        assert(a + b =~= a);
    } else {
        assert((a + b).drop_last() =~= a + b.drop_last());
        assert((a + b).last() == b.last());
        lemma_depth_concat(d, a, b.drop_last());
    }
}

/// `p` reads as one piece of text to the splitter: it holds no separator
/// outside `<...>`, and every `<` it opens is closed by its end.
pub open spec fn clean(p: Seq<char>, sep: Sep) -> bool {
    &&& depth_from(0, p) == 0
    &&& forall|i: int|
        0 <= i < p.len() ==> !(depth_from(0, p.take(i)) == 0 && #[trigger] p[i] != '<' && p[i] != '>'
            && sep_hit(sep, p[i]))
}

proof fn lemma_scan_clean_prefix(st: SplitState, p: Seq<char>, sep: Sep, i: int)
    requires
        st.depth == 0,
        clean(p, sep),
        0 <= i <= p.len(),
    ensures
        scan_from(st, p.take(i), sep) == (SplitState {
            out: st.out,
            cur: st.cur + p.take(i),
            depth: depth_from(0, p.take(i)),
        }),
    decreases i,
{
    if i == 0 {
        assert(p.take(0) =~= Seq::<char>::empty());
        assert(st.cur + p.take(0) =~= st.cur);
    } else {
        let t = p.take(i - 1);
        assert(p.take(i).drop_last() =~= t);
        assert(p.take(i).last() == p[i - 1]);
        lemma_scan_clean_prefix(st, p, sep, i - 1);
        assert((st.cur + t).push(p[i - 1]) =~= st.cur + p.take(i));
        assert(depth_from(0, p.take(i)) == depth_step(depth_from(0, t), p[i - 1]));
        let x = p[i - 1];
        assert(!(depth_from(0, p.take(i - 1)) == 0 && x != '<' && x != '>' && sep_hit(sep, x)));
        assert(scan_from(st, p.take(i), sep) =~= (SplitState {
            out: st.out,
            cur: st.cur + p.take(i),
            depth: depth_from(0, p.take(i)),
        }));
    }
}

/// Reading a clean piece from depth 0 just appends it to the token being
/// built.
pub proof fn lemma_scan_clean(st: SplitState, p: Seq<char>, sep: Sep)
    requires
        st.depth == 0,
        clean(p, sep),
    ensures
        scan_from(st, p, sep) == (SplitState { out: st.out, cur: st.cur + p, depth: 0 }),
{
    lemma_scan_clean_prefix(st, p, sep, p.len() as int);
    assert(p.take(p.len() as int) =~= p);
}

/// Pieces joined by a separator character split back into the pieces.
pub proof fn lemma_split_join(parts: Seq<Seq<char>>, sc: char, sep: Sep)
    requires
        parts.len() > 0,
        forall|i: int| 0 <= i < parts.len() ==> clean(#[trigger] parts[i], sep) && parts[i].len() > 0,
        sep_hit(sep, sc),
        sc != '<' && sc != '>',
    ensures
        split_scan(join(parts, seq![sc]), sep) == (SplitState {
            out: parts.drop_last(),
            cur: parts.last(),
            depth: 0,
        }),
        split_spec(join(parts, seq![sc]), sep) == parts,
    decreases parts.len(),
{
    let j = join(parts, seq![sc]);
    lemma_scan_is_scan_from(j, sep);
    if parts.len() == 1 {
        lemma_scan_clean(scan_start(), parts[0], sep);
        assert(Seq::<char>::empty() + parts[0] =~= parts[0]);
        assert(parts.drop_last() =~= Seq::<Seq<char>>::empty());
    } else {
        let init = parts.drop_last();
        assert forall|i: int| 0 <= i < init.len() implies clean(#[trigger] init[i], sep) && init[i].len() > 0 by {
            assert(init[i] == parts[i]);
        }
        lemma_split_join(init, sc, sep);
        let ji = join(init, seq![sc]);
        lemma_scan_is_scan_from(ji, sep);
        assert(j == ji + seq![sc] + parts.last());
        lemma_scan_concat(scan_start(), ji + seq![sc], parts.last(), sep);
        lemma_scan_concat(scan_start(), ji, seq![sc], sep);
        let s1 = scan_from(scan_start(), ji, sep);
        assert(seq![sc].drop_last() =~= Seq::<char>::empty());
        assert(init.last().len() > 0);
        let s2 = scan_from(s1, seq![sc], sep);
        assert(s1 == (SplitState { out: init.drop_last(), cur: init.last(), depth: 0 }));
        assert(scan_from(s1, seq![sc].drop_last(), sep) == s1);
        assert(seq![sc].last() == sc);
        assert(s2 == split_step(s1, sc, sep));
        assert(s2 =~= (SplitState { out: init.drop_last().push(init.last()), cur: Seq::empty(), depth: 0 }));
        assert(init.drop_last().push(init.last()) =~= init);
        lemma_scan_clean(s2, parts.last(), sep);
        assert(Seq::<char>::empty() + parts.last() =~= parts.last());
    }
    assert(parts.drop_last().push(parts.last()) =~= parts);
}

/// Clean pieces concatenate into a clean piece.
pub proof fn lemma_clean_concat(a: Seq<char>, b: Seq<char>, sep: Sep)
    requires
        clean(a, sep),
        clean(b, sep),
    ensures
        clean(a + b, sep),
{
    let s = a + b;
    lemma_depth_concat(0, a, b);
    assert forall|i: int| 0 <= i < s.len() implies !(depth_from(0, s.take(i)) == 0 && #[trigger] s[i] != '<'
        && s[i] != '>' && sep_hit(sep, s[i])) by {
        if i < a.len() {
            assert(s.take(i) =~= a.take(i));
            assert(s[i] == a[i]);
        } else {
            let k = i - a.len();
            assert(s.take(i) =~= a + b.take(k));
            lemma_depth_concat(0, a, b.take(k));
            assert(s[i] == b[k]);
        }
    }
}

/// Clean pieces joined by a character that is neither a separator nor a
/// bracket make a clean piece.
pub proof fn lemma_clean_join(parts: Seq<Seq<char>>, sc: char, sep: Sep)
    requires
        parts.len() > 0,
        forall|i: int| 0 <= i < parts.len() ==> clean(#[trigger] parts[i], sep),
        !sep_hit(sep, sc),
        sc != '<' && sc != '>',
    ensures
        clean(join(parts, seq![sc]), sep),
    decreases parts.len(),
{
    if parts.len() > 1 {
        let init = parts.drop_last();
        assert forall|i: int| 0 <= i < init.len() implies clean(#[trigger] init[i], sep) by {
            assert(init[i] == parts[i]);
        }
        lemma_clean_join(init, sc, sep);
        let one = seq![sc];
        assert(one.take(0) =~= Seq::<char>::empty());
        assert(one.drop_last() =~= Seq::<char>::empty());
        assert(depth_from(0, one.drop_last()) == 0);
        assert(depth_from(0, one) == 0);
        assert forall|i: int| 0 <= i < one.len() implies !(depth_from(0, one.take(i)) == 0 && #[trigger] one[i]
            != '<' && one[i] != '>' && sep_hit(sep, one[i])) by {
            assert(i == 0);
            assert(one[0] == sc);
        }
        assert(clean(one, sep));
        lemma_clean_concat(join(init, one), one, sep);
        assert(clean(parts[parts.len() - 1], sep));
        lemma_clean_concat(join(init, one) + one, parts.last(), sep);
    }
}

// ---------------------------------------------------------------------------
// Words of a chord
// ---------------------------------------------------------------------------

/// A word without brackets, `+` or whitespace.
pub open spec fn plain_word(w: Seq<char>) -> bool {
    &&& w.len() > 0
    &&& forall|i: int|
        0 <= i < w.len() ==> #[trigger] w[i] != '<' && w[i] != '>' && w[i] != '+' && !is_ws(w[i])
}

proof fn lemma_plain_depth(w: Seq<char>, i: int)
    requires
        plain_word(w),
        0 <= i <= w.len(),
    ensures
        depth_from(0, w.take(i)) == 0,
    decreases i,
{
    if i > 0 {
        assert(w.take(i).drop_last() =~= w.take(i - 1));
        assert(w.take(i).last() == w[i - 1]);
        lemma_plain_depth(w, i - 1);
    }
}

pub proof fn lemma_plain_clean(w: Seq<char>, sep: Sep)
    requires
        plain_word(w),
    ensures
        clean(w, sep),
{
    lemma_plain_depth(w, w.len() as int);
    assert(w.take(w.len() as int) =~= w);
    assert forall|i: int| 0 <= i < w.len() implies !(depth_from(0, w.take(i)) == 0 && #[trigger] w[i]
        != '<' && w[i] != '>' && sep_hit(sep, w[i])) by {
        assert(w[i] != '+' && !is_ws(w[i]));
    }
}

/// The brackets inside `v` close within `v`: read from inside one `<`,
/// the depth never drops to the outside and ends where it began.
pub open spec fn angle_balanced(v: Seq<char>) -> bool {
    &&& depth_from(1, v) == 1
    &&& forall|i: int| 0 <= i <= v.len() ==> depth_from(1, #[trigger] v.take(i)) >= 1
}

pub proof fn lemma_bracketed_clean(v: Seq<char>, sep: Sep)
    requires
        angle_balanced(v),
    ensures
        clean(bracketed(v), sep),
{
    let w = bracketed(v);
    let open = seq!['<'];
    let close = seq!['>'];
    assert(open.drop_last() =~= Seq::<char>::empty());
    assert(open.last() == '<');
    assert(depth_from(0, open.drop_last()) == 0);
    assert(depth_from(0, open) == 1);
    assert(close.drop_last() =~= Seq::<char>::empty());
    assert(close.last() == '>');
    lemma_depth_concat(0, open, v);
    lemma_depth_concat(0, open + v, close);
    assert(depth_from(1, close.drop_last()) == 1);
    assert(depth_from(1, close) == 0);
    assert(depth_from(0, w) == 0);
    assert(w == open + v + close);
    assert forall|i: int| 0 <= i < w.len() implies !(depth_from(0, w.take(i)) == 0 && #[trigger] w[i]
        != '<' && w[i] != '>' && sep_hit(sep, w[i])) by {
        if i == 0 {
            assert(w[0] == '<');
        } else if i <= v.len() {
            assert(w.take(i) =~= open + v.take(i - 1));
            lemma_depth_concat(0, open, v.take(i - 1));
            assert(depth_from(1, v.take(i - 1)) >= 1);
        } else {
            assert(w[i] == '>');
        }
    }
}

/// A sequence with non-whitespace at both ends is its own trim.
pub proof fn lemma_trim_fixed(s: Seq<char>)
    requires
        s.len() > 0,
        !is_ws(s[0]),
        !is_ws(s.last()),
    ensures
        trim(s) == s,
{
    lemma_lead_ws_unique(s, 0);
    assert(s.skip(0) =~= s);
    lemma_trail_ws_unique(s, 0);
    assert(s.take(s.len() as int) =~= s);
}

proof fn lemma_modifier_names()
    ensures
        "win"@ == seq!['w', 'i', 'n'],
        "cmd"@ == seq!['c', 'm', 'd'],
        "meta"@ == seq!['m', 'e', 't', 'a'],
        "super"@ == seq!['s', 'u', 'p', 'e', 'r'],
        "ctrl"@ == seq!['c', 't', 'r', 'l'],
        "control"@ == seq!['c', 'o', 'n', 't', 'r', 'o', 'l'],
        "shift"@ == seq!['s', 'h', 'i', 'f', 't'],
        "alt"@ == seq!['a', 'l', 't'],
        "option"@ == seq!['o', 'p', 't', 'i', 'o', 'n'],
        "opt"@ == seq!['o', 'p', 't'],
{
    reveal_strlit("win");
    reveal_strlit("cmd");
    reveal_strlit("meta");
    reveal_strlit("super");
    reveal_strlit("ctrl");
    reveal_strlit("control");
    reveal_strlit("shift");
    reveal_strlit("alt");
    reveal_strlit("option");
    reveal_strlit("opt");
}

/// A word whose first letter starts no modifier name is no modifier.
proof fn lemma_not_modifier_by_first(w: Seq<char>)
    requires
        w.len() > 0,
        lower(w[0]) != 'w' && lower(w[0]) != 'c' && lower(w[0]) != 'm' && lower(w[0]) != 's'
            && lower(w[0]) != 'a' && lower(w[0]) != 'o',
    ensures
        modifier_of(w) is None,
{
    lemma_modifier_names();
    assert(lower_seq(w)[0] == lower(w[0]));
}

/// A text that can be written in angle brackets: its brackets balance, and
/// the bracketed word reads back (through the trimmed inner text) as a key
/// with the literal's meaning.
pub open spec fn angle_ok(v: Seq<char>) -> bool {
    &&& v.len() > 0
    &&& angle_balanced(v)
    &&& key_norm_spec(angle_key(trim(v))) == literal_norm(v)
}

pub proof fn lemma_angle_word(v: Seq<char>)
    requires
        angle_ok(v),
    ensures
        parse_key_spec(bracketed(v)) == angle_key(trim(v)),
        key_norm_spec(parse_key_spec(bracketed(v))) == literal_norm(v),
        modifier_of(bracketed(v)) is None,
        clean(bracketed(v), Sep::Plus),
        clean(bracketed(v), Sep::Space),
        bracketed(v).len() > 0,
{
    let w = bracketed(v);
    assert(w.len() == v.len() + 2);
    assert(w[0] == '<');
    assert(w.last() == '>');
    lemma_trim_fixed(w);
    assert(angle_inner(w) =~= v);
    assert(is_angle_token(w));
    assert(normalize_str_spec(w) == angle_key(trim(v)));
    lemma_not_modifier_by_first(w);
    lemma_bracketed_clean(v, Sep::Plus);
    lemma_bracketed_clean(v, Sep::Space);
}

proof fn lemma_word_literals()
    ensures
        "Left"@ == seq!['L', 'e', 'f', 't'],
        "left"@ == seq!['l', 'e', 'f', 't'],
        "Right"@ == seq!['R', 'i', 'g', 'h', 't'],
        "right"@ == seq!['r', 'i', 'g', 'h', 't'],
        "Up"@ == seq!['U', 'p'],
        "up"@ == seq!['u', 'p'],
        "Down"@ == seq!['D', 'o', 'w', 'n'],
        "down"@ == seq!['d', 'o', 'w', 'n'],
        "Arrow"@ == seq!['A', 'r', 'r', 'o', 'w'],
        "arrow"@ == seq!['a', 'r', 'r', 'o', 'w'],
        "ArrowLR"@ == seq!['A', 'r', 'r', 'o', 'w', 'L', 'R'],
        "arrowlr"@ == seq!['a', 'r', 'r', 'o', 'w', 'l', 'r'],
        "ArrowUD"@ == seq!['A', 'r', 'r', 'o', 'w', 'U', 'D'],
        "arrowud"@ == seq!['a', 'r', 'r', 'o', 'w', 'u', 'd'],
        "Enter"@ == seq!['E', 'n', 't', 'e', 'r'],
        "enter"@ == seq!['e', 'n', 't', 'e', 'r'],
        "Backspace"@ == seq!['B', 'a', 'c', 'k', 's', 'p', 'a', 'c', 'e'],
        "backspace"@ == seq!['b', 'a', 'c', 'k', 's', 'p', 'a', 'c', 'e'],
        "Escape"@ == seq!['E', 's', 'c', 'a', 'p', 'e'],
        "escape"@ == seq!['e', 's', 'c', 'a', 'p', 'e'],
        "PageUp"@ == seq!['P', 'a', 'g', 'e', 'U', 'p'],
        "pageup"@ == seq!['p', 'a', 'g', 'e', 'u', 'p'],
        "PageDown"@ == seq!['P', 'a', 'g', 'e', 'D', 'o', 'w', 'n'],
        "pagedown"@ == seq!['p', 'a', 'g', 'e', 'd', 'o', 'w', 'n'],
        "Home"@ == seq!['H', 'o', 'm', 'e'],
        "home"@ == seq!['h', 'o', 'm', 'e'],
        "End"@ == seq!['E', 'n', 'd'],
        "end"@ == seq!['e', 'n', 'd'],
        "Insert"@ == seq!['I', 'n', 's', 'e', 'r', 't'],
        "insert"@ == seq!['i', 'n', 's', 'e', 'r', 't'],
        "Delete"@ == seq!['D', 'e', 'l', 'e', 't', 'e'],
        "delete"@ == seq!['d', 'e', 'l', 'e', 't', 'e'],
        "Pause"@ == seq!['P', 'a', 'u', 's', 'e'],
        "pause"@ == seq!['p', 'a', 'u', 's', 'e'],
        "PrtScr"@ == seq!['P', 'r', 't', 'S', 'c', 'r'],
        "prtscr"@ == seq!['p', 'r', 't', 's', 'c', 'r'],
        "Copilot"@ == seq!['C', 'o', 'p', 'i', 'l', 'o', 't'],
        "copilot"@ == seq!['c', 'o', 'p', 'i', 'l', 'o', 't'],
        "Office"@ == seq!['O', 'f', 'f', 'i', 'c', 'e'],
        "office"@ == seq!['o', 'f', 'f', 'i', 'c', 'e'],
        "esc"@ == seq!['e', 's', 'c'],
        "return"@ == seq!['r', 'e', 't', 'u', 'r', 'n'],
        "plus"@ == seq!['p', 'l', 'u', 's'],
        "Plus"@ == seq!['P', 'l', 'u', 's'],
        "VK"@ == seq!['V', 'K'],
        "Win"@ == seq!['W', 'i', 'n'],
        "Ctrl"@ == seq!['C', 't', 'r', 'l'],
        "Alt"@ == seq!['A', 'l', 't'],
        "Shift"@ == seq!['S', 'h', 'i', 'f', 't'],
        "underlined letter"@ == seq!['u', 'n', 'd', 'e', 'r', 'l', 'i', 'n', 'e', 'd', ' ', 'l', 'e', 't', 't', 'e', 'r'],
        "TASKBAR1-9"@ == seq!['T', 'A', 'S', 'K', 'B', 'A', 'R', '1', '-', '9'],
        "<Underlined letter>"@ == seq!['<', 'U', 'n', 'd', 'e', 'r', 'l', 'i', 'n', 'e', 'd', ' ', 'l', 'e', 't', 't', 'e', 'r', '>'],
{
    reveal_strlit("Left");
    reveal_strlit("left");
    reveal_strlit("Right");
    reveal_strlit("right");
    reveal_strlit("Up");
    reveal_strlit("up");
    reveal_strlit("Down");
    reveal_strlit("down");
    reveal_strlit("Arrow");
    reveal_strlit("arrow");
    reveal_strlit("ArrowLR");
    reveal_strlit("arrowlr");
    reveal_strlit("ArrowUD");
    reveal_strlit("arrowud");
    reveal_strlit("Enter");
    reveal_strlit("enter");
    reveal_strlit("Backspace");
    reveal_strlit("backspace");
    reveal_strlit("Escape");
    reveal_strlit("escape");
    reveal_strlit("PageUp");
    reveal_strlit("pageup");
    reveal_strlit("PageDown");
    reveal_strlit("pagedown");
    reveal_strlit("Home");
    reveal_strlit("home");
    reveal_strlit("End");
    reveal_strlit("end");
    reveal_strlit("Insert");
    reveal_strlit("insert");
    reveal_strlit("Delete");
    reveal_strlit("delete");
    reveal_strlit("Pause");
    reveal_strlit("pause");
    reveal_strlit("PrtScr");
    reveal_strlit("prtscr");
    reveal_strlit("Copilot");
    reveal_strlit("copilot");
    reveal_strlit("Office");
    reveal_strlit("office");
    reveal_strlit("esc");
    reveal_strlit("return");
    reveal_strlit("plus");
    reveal_strlit("Plus");
    reveal_strlit("VK");
    reveal_strlit("Win");
    reveal_strlit("Ctrl");
    reveal_strlit("Alt");
    reveal_strlit("Shift");
    reveal_strlit("underlined letter");
    reveal_strlit("TASKBAR1-9");
    reveal_strlit("<Underlined letter>");
}

proof fn lemma_no_ws_strip(s: Seq<char>)
    requires
        forall|i: int| 0 <= i < s.len() ==> !is_ws(#[trigger] s[i]),
    ensures
        strip_ws(s) == s,
    decreases s.len(),
{
    if s.len() > 0 {
        lemma_no_ws_strip(s.drop_last());
        assert(s.drop_last().push(s.last()) =~= s);
    }
}

/// A glyph's name is a plain word that reads back as the glyph.
pub proof fn lemma_glyph_word(g: GlyphToken)
    ensures
        plain_word(glyph_name_spec(g)),
        modifier_of(glyph_name_spec(g)) is None,
        parse_key_spec(glyph_name_spec(g)) == KeyV::Glyph(g),
{
    lemma_word_literals();
    lemma_modifier_names();
    let w = glyph_name_spec(g);
    match g {
        GlyphToken::Left => {
            assert(w == seq!['L', 'e', 'f', 't']);
            assert(lower_seq(w) =~= seq!['l', 'e', 'f', 't']);
            assert(lower_seq(w) == "left"@);
        },
        GlyphToken::Right => {
            assert(w == seq!['R', 'i', 'g', 'h', 't']);
            assert(lower_seq(w) =~= seq!['r', 'i', 'g', 'h', 't']);
            assert(lower_seq(w) == "right"@);
        },
        GlyphToken::Up => {
            assert(w == seq!['U', 'p']);
            assert(lower_seq(w) =~= seq!['u', 'p']);
            assert(lower_seq(w) == "up"@);
        },
        GlyphToken::Down => {
            assert(w == seq!['D', 'o', 'w', 'n']);
            assert(lower_seq(w) =~= seq!['d', 'o', 'w', 'n']);
            assert(lower_seq(w) == "down"@);
        },
        GlyphToken::Arrow => {
            assert(w == seq!['A', 'r', 'r', 'o', 'w']);
            assert(lower_seq(w) =~= seq!['a', 'r', 'r', 'o', 'w']);
            assert(lower_seq(w) == "arrow"@);
        },
        GlyphToken::ArrowLR => {
            assert(w == seq!['A', 'r', 'r', 'o', 'w', 'L', 'R']);
            assert(lower_seq(w) =~= seq!['a', 'r', 'r', 'o', 'w', 'l', 'r']);
            assert(lower_seq(w) == "arrowlr"@);
        },
        GlyphToken::ArrowUD => {
            assert(w == seq!['A', 'r', 'r', 'o', 'w', 'U', 'D']);
            assert(lower_seq(w) =~= seq!['a', 'r', 'r', 'o', 'w', 'u', 'd']);
            assert(lower_seq(w) == "arrowud"@);
        },
        GlyphToken::Enter => {
            assert(w == seq!['E', 'n', 't', 'e', 'r']);
            assert(lower_seq(w) =~= seq!['e', 'n', 't', 'e', 'r']);
            assert(lower_seq(w) == "enter"@);
        },
        GlyphToken::Backspace => {
            assert(w == seq!['B', 'a', 'c', 'k', 's', 'p', 'a', 'c', 'e']);
            assert(lower_seq(w) =~= seq!['b', 'a', 'c', 'k', 's', 'p', 'a', 'c', 'e']);
            assert(lower_seq(w) == "backspace"@);
        },
        GlyphToken::Escape => {
            assert(w == seq!['E', 's', 'c', 'a', 'p', 'e']);
            assert(lower_seq(w) =~= seq!['e', 's', 'c', 'a', 'p', 'e']);
            assert(lower_seq(w) == "escape"@);
        },
        GlyphToken::PageUp => {
            assert(w == seq!['P', 'a', 'g', 'e', 'U', 'p']);
            assert(lower_seq(w) =~= seq!['p', 'a', 'g', 'e', 'u', 'p']);
            assert(lower_seq(w) == "pageup"@);
        },
        GlyphToken::PageDown => {
            assert(w == seq!['P', 'a', 'g', 'e', 'D', 'o', 'w', 'n']);
            assert(lower_seq(w) =~= seq!['p', 'a', 'g', 'e', 'd', 'o', 'w', 'n']);
            assert(lower_seq(w) == "pagedown"@);
        },
        GlyphToken::Home => {
            assert(w == seq!['H', 'o', 'm', 'e']);
            assert(lower_seq(w) =~= seq!['h', 'o', 'm', 'e']);
            assert(lower_seq(w) == "home"@);
        },
        GlyphToken::End => {
            assert(w == seq!['E', 'n', 'd']);
            assert(lower_seq(w) =~= seq!['e', 'n', 'd']);
            assert(lower_seq(w) == "end"@);
        },
        GlyphToken::Insert => {
            assert(w == seq!['I', 'n', 's', 'e', 'r', 't']);
            assert(lower_seq(w) =~= seq!['i', 'n', 's', 'e', 'r', 't']);
            assert(lower_seq(w) == "insert"@);
        },
        GlyphToken::Delete => {
            assert(w == seq!['D', 'e', 'l', 'e', 't', 'e']);
            assert(lower_seq(w) =~= seq!['d', 'e', 'l', 'e', 't', 'e']);
            assert(lower_seq(w) == "delete"@);
        },
        GlyphToken::Pause => {
            assert(w == seq!['P', 'a', 'u', 's', 'e']);
            assert(lower_seq(w) =~= seq!['p', 'a', 'u', 's', 'e']);
            assert(lower_seq(w) == "pause"@);
        },
        GlyphToken::PrtScr => {
            assert(w == seq!['P', 'r', 't', 'S', 'c', 'r']);
            assert(lower_seq(w) =~= seq!['p', 'r', 't', 's', 'c', 'r']);
            assert(lower_seq(w) == "prtscr"@);
        },
        GlyphToken::Copilot => {
            assert(w == seq!['C', 'o', 'p', 'i', 'l', 'o', 't']);
            assert(lower_seq(w) =~= seq!['c', 'o', 'p', 'i', 'l', 'o', 't']);
            assert(lower_seq(w) == "copilot"@);
        },
        GlyphToken::Office => {
            assert(w == seq!['O', 'f', 'f', 'i', 'c', 'e']);
            assert(lower_seq(w) =~= seq!['o', 'f', 'f', 'i', 'c', 'e']);
            assert(lower_seq(w) == "office"@);
        },
    }
    assert(plain_word(w));
    lemma_no_ws_strip(w);
    assert(lower_seq("esc"@) =~= "esc"@);
    assert(lower_seq("return"@) =~= "return"@);
    assert(lower_seq("plus"@) =~= "plus"@);
}

/// Decimal digits read back as the number they were written for.
pub proof fn lemma_decimal_round_trip(n: nat)
    ensures
        decimal_spec(n).len() > 0,
        all_digit_chars(decimal_spec(n)),
        decimal_value(decimal_spec(n)) == n,
    decreases n,
{
    let d = decimal_spec(n);
    if n < 10 {
        assert(d.drop_last() =~= Seq::<char>::empty());
        assert(d.last() == crate::numfmt::digit_char_spec(n as int));
        assert((crate::numfmt::digit_char_spec(n as int) as u32) == 48 + n);
        assert(crate::numfmt::digit_value(d.last()) == n);
        assert(decimal_value(d.drop_last()) == 0);
    } else {
        lemma_decimal_round_trip(n / 10);
        let p = decimal_spec(n / 10);
        assert(d.drop_last() =~= p);
        assert forall|i: int| 0 <= i < d.len() implies is_digit(#[trigger] d[i]) by {
            if i < p.len() {
                assert(d[i] == p[i]);
            }
        }
        let last = crate::numfmt::digit_char_spec((n % 10) as int);
        assert(d.last() == last);
        assert((last as u32) == 48 + n % 10);
        assert(crate::numfmt::digit_value(last) == n % 10);
        assert(decimal_value(p) * 10 + n % 10 == n);
    }
}

/// A `VKnn` word reads back as that virtual-key code.
pub proof fn lemma_vk_word(n: u32)
    ensures
        plain_word(format_key_spec(KeyV::Vk(n))),
        modifier_of(format_key_spec(KeyV::Vk(n))) is None,
        parse_key_spec(format_key_spec(KeyV::Vk(n))) == KeyV::Vk(n),
{
    lemma_word_literals();
    let d = decimal_spec(n as nat);
    lemma_decimal_round_trip(n as nat);
    let w = "VK"@ + d;
    assert(format_key_spec(KeyV::Vk(n)) == w);
    assert(w[0] == 'V' && w[1] == 'K');
    assert(w.skip(2) =~= d);
    assert forall|i: int| 0 <= i < w.len() implies #[trigger] w[i] != '<' && w[i] != '>' && w[i] != '+'
        && !is_ws(w[i]) by {
        if i >= 2 {
            assert(w[i] == d[i - 2]);
            assert(is_digit(d[i - 2]));
        }
    }
    lemma_not_modifier_by_first(w);
    assert(vk_code(w) == Some(n));
}

/// The literal plus key is written `Plus` and reads back as itself.
pub proof fn lemma_plus_word()
    ensures
        plain_word(format_key_spec(KeyV::Literal(seq!['+']))),
        modifier_of(format_key_spec(KeyV::Literal(seq!['+']))) is None,
        parse_key_spec(format_key_spec(KeyV::Literal(seq!['+']))) == KeyV::Literal(seq!['+']),
{
    lemma_word_literals();
    let w = "Plus"@;
    assert(format_key_spec(KeyV::Literal(seq!['+'])) == w);
    assert(plain_word(w));
    lemma_not_modifier_by_first(w);
    assert(lower_seq(w) =~= "plus"@);
    assert(lower_seq("esc"@) =~= "esc"@);
    assert(lower_seq("return"@) =~= "return"@);
    assert(lower_seq("plus"@) =~= "plus"@);
}

/// The modifier words written for a chord, and what they read back as.
pub proof fn lemma_modifier_words()
    ensures
        plain_word("Win"@) && modifier_of("Win"@) == Some(ModName::Win),
        plain_word("Ctrl"@) && modifier_of("Ctrl"@) == Some(ModName::Ctrl),
        plain_word("Alt"@) && modifier_of("Alt"@) == Some(ModName::Alt),
        plain_word("Shift"@) && modifier_of("Shift"@) == Some(ModName::Shift),
{
    lemma_word_literals();
    lemma_modifier_names();
    assert(lower_seq("Win"@) =~= "win"@);
    assert(lower_seq("Ctrl"@) =~= "ctrl"@);
    assert(lower_seq("Alt"@) =~= "alt"@);
    assert(lower_seq("Shift"@) =~= "shift"@);
}

proof fn lemma_unbracketed_balanced(v: Seq<char>)
    requires
        forall|i: int| 0 <= i < v.len() ==> #[trigger] v[i] != '<' && v[i] != '>',
    ensures
        angle_balanced(v),
{
    assert forall|i: int| 0 <= i <= v.len() implies depth_from(1, #[trigger] v.take(i)) == 1 by {
        lemma_unbracketed_depth(v, i);
    }
    lemma_unbracketed_depth(v, v.len() as int);
    assert(v.take(v.len() as int) =~= v);
}

proof fn lemma_unbracketed_depth(v: Seq<char>, i: int)
    requires
        forall|j: int| 0 <= j < v.len() ==> #[trigger] v[j] != '<' && v[j] != '>',
        0 <= i <= v.len(),
    ensures
        depth_from(1, v.take(i)) == 1,
    decreases i,
{
    if i > 0 {
        assert(v.take(i).drop_last() =~= v.take(i - 1));
        assert(v.take(i).last() == v[i - 1]);
        lemma_unbracketed_depth(v, i - 1);
    }
}

proof fn lemma_special_literals()
    ensures
        "<Underlined letter>"@ == seq!['<'] + "Underlined letter"@ + seq!['>'],
        "Underlined letter"@ == seq!['U', 'n', 'd', 'e', 'r', 'l', 'i', 'n', 'e', 'd', ' ', 'l', 'e', 't', 't', 'e', 'r'],
        "underlined letter"@ == seq!['u', 'n', 'd', 'e', 'r', 'l', 'i', 'n', 'e', 'd', ' ', 'l', 'e', 't', 't', 'e', 'r'],
        TASKBAR_TOKEN@ == seq!['T', 'A', 'S', 'K', 'B', 'A', 'R', '1', '-', '9'],
{
    reveal_strlit("<Underlined letter>");
    reveal_strlit("Underlined letter");
    reveal_strlit("underlined letter");
    reveal_strlit("TASKBAR1-9");
    assert("<Underlined letter>"@ =~= seq!['<'] + "Underlined letter"@ + seq!['>']);
}

/// `<Underlined letter>` is written bracketed and reads back as itself.
#[verifier::rlimit(100)]
#[verifier::spinoff_prover]
pub proof fn lemma_underlined_word()
    ensures
        clean("<Underlined letter>"@, Sep::Plus),
        clean("<Underlined letter>"@, Sep::Space),
        "<Underlined letter>"@.len() > 0,
        modifier_of("<Underlined letter>"@) is None,
        parse_key_spec("<Underlined letter>"@) == KeyV::UnderlinedLetter,
{
    lemma_special_literals();
    let u = "Underlined letter"@;
    let t = TASKBAR_TOKEN@;
    let wu = bracketed(u);
    assert("<Underlined letter>"@ =~= wu);
    lemma_unbracketed_balanced(u);
    lemma_bracketed_clean(u, Sep::Plus);
    lemma_bracketed_clean(u, Sep::Space);
    lemma_not_modifier_by_first(wu);
    lemma_trim_fixed(wu);
    lemma_trim_fixed(u);
    assert(angle_inner(wu) =~= u);
    assert(lower_seq(u) =~= "underlined letter"@);
    assert(lower_seq("underlined letter"@) =~= "underlined letter"@);
    assert(lower_seq(u).len() != lower_seq(t).len());
    assert(eq_ci(u, "underlined letter"@));
    assert(normalize_str_spec(wu) == KeyV::UnderlinedLetter);
}

/// `<TASKBAR1-9>` is written bracketed and reads back as itself.
pub proof fn lemma_taskbar_word()
    ensures
        clean(format_key_spec(KeyV::TaskbarRange), Sep::Plus),
        clean(format_key_spec(KeyV::TaskbarRange), Sep::Space),
        format_key_spec(KeyV::TaskbarRange).len() > 0,
        modifier_of(format_key_spec(KeyV::TaskbarRange)) is None,
        parse_key_spec(format_key_spec(KeyV::TaskbarRange)) == KeyV::TaskbarRange,
{
    lemma_special_literals();
    let t = TASKBAR_TOKEN@;
    let wt = bracketed(t);
    assert(format_key_spec(KeyV::TaskbarRange) == wt);
    lemma_unbracketed_balanced(t);
    lemma_bracketed_clean(t, Sep::Plus);
    lemma_bracketed_clean(t, Sep::Space);
    lemma_not_modifier_by_first(wt);
    lemma_trim_fixed(wt);
    lemma_trim_fixed(t);
    assert(angle_inner(wt) =~= t);
    assert(eq_ci(t, t));
    assert(normalize_str_spec(wt) == KeyV::TaskbarRange);
}

/// A key that survives being written and read back: every key except a
/// literal that cannot be written: an empty one, one whose `<`/`>` do not
/// balance, or one whose bracketed form reads back as another key (such as
/// `Underlined letter`, which reads back as the underlined-letter token).
pub open spec fn key_safe(k: KeyV) -> bool {
    match k {
        KeyV::Literal(v) => v == seq!['+'] || reads_back_plain(v) || angle_ok(v),
        KeyV::AngleLiteral(v) => angle_ok(v),
        _ => true,
    }
}

/// The word written for a safe key is one clean, non-modifier word that
/// reads back as a key with the same meaning.
pub proof fn lemma_key_word(k: KeyV)
    requires
        key_safe(k),
    ensures
        format_key_spec(k).len() > 0,
        clean(format_key_spec(k), Sep::Plus),
        clean(format_key_spec(k), Sep::Space),
        modifier_of(format_key_spec(k)) is None,
        key_norm_spec(parse_key_spec(format_key_spec(k))) == key_norm_spec(k),
{
    let w = format_key_spec(k);
    match k {
        KeyV::Literal(v) => {
            if v == seq!['+'] {
                lemma_plus_word();
                lemma_plain_clean(w, Sep::Plus);
                lemma_plain_clean(w, Sep::Space);
            } else if reads_back_plain(v) {
                assert forall|i: int| 0 <= i < v.len() implies #[trigger] v[i] != '<' && v[i] != '>'
                    && v[i] != '+' && !is_ws(v[i]) by {
                    if v[i] == '<' || v[i] == '>' || v[i] == '+' || is_ws(v[i]) {
                        assert(needs_brackets(v));
                    }
                }
                lemma_plain_clean(w, Sep::Plus);
                lemma_plain_clean(w, Sep::Space);
            } else {
                lemma_angle_word(v);
            }
        },
        KeyV::AngleLiteral(v) => {
            lemma_angle_word(v);
        },
        KeyV::Vk(n) => {
            lemma_vk_word(n);
            lemma_plain_clean(w, Sep::Plus);
            lemma_plain_clean(w, Sep::Space);
        },
        KeyV::Glyph(g) => {
            lemma_glyph_word(g);
            lemma_plain_clean(w, Sep::Plus);
            lemma_plain_clean(w, Sep::Space);
        },
        KeyV::UnderlinedLetter => {
            lemma_underlined_word();
        },
        KeyV::TaskbarRange => {
            lemma_taskbar_word();
        },
    }
}

// ---------------------------------------------------------------------------
// Chords
// ---------------------------------------------------------------------------

/// A chord that survives being written and read back: it has a modifier or
/// a key, and every key is safe.
pub open spec fn chord_safe(c: KeyComboV) -> bool {
    &&& (c.win || c.ctrl || c.alt || c.shift || c.keys.len() > 0)
    &&& forall|i: int| 0 <= i < c.keys.len() ==> key_safe(#[trigger] c.keys[i])
}

pub open spec fn mod_words(c: KeyComboV) -> Seq<Seq<char>> {
    (if c.win {
        seq!["Win"@]
    } else {
        Seq::empty()
    }) + (if c.ctrl {
        seq!["Ctrl"@]
    } else {
        Seq::empty()
    }) + (if c.alt {
        seq!["Alt"@]
    } else {
        Seq::empty()
    }) + (if c.shift {
        seq!["Shift"@]
    } else {
        Seq::empty()
    })
}

proof fn lemma_fold_push_modifier(p: Seq<Seq<char>>, w: Seq<char>)
    ensures
        chord_fold(p.push(w)) == (match modifier_of(w) {
            Some(ModName::Win) => KeyComboV { win: true, ..chord_fold(p) },
            Some(ModName::Ctrl) => KeyComboV { ctrl: true, ..chord_fold(p) },
            Some(ModName::Shift) => KeyComboV { shift: true, ..chord_fold(p) },
            Some(ModName::Alt) => KeyComboV { alt: true, ..chord_fold(p) },
            None => KeyComboV { keys: chord_fold(p).keys.push(parse_key_spec(w)), ..chord_fold(p) },
        }),
{
    assert(p.push(w).drop_last() =~= p);
    assert(p.push(w).last() == w);
}

proof fn lemma_fold_mods(c: KeyComboV)
    ensures
        chord_fold(mod_words(c)) == (KeyComboV {
            win: c.win,
            ctrl: c.ctrl,
            shift: c.shift,
            alt: c.alt,
            keys: Seq::empty(),
        }),
{
    lemma_modifier_words();
    let e: Seq<Seq<char>> = Seq::empty();
    let m1 = if c.win { e.push("Win"@) } else { e };
    let m2 = if c.ctrl { m1.push("Ctrl"@) } else { m1 };
    let m3 = if c.alt { m2.push("Alt"@) } else { m2 };
    let m4 = if c.shift { m3.push("Shift"@) } else { m3 };
    assert(mod_words(c) =~= m4);
    lemma_fold_push_modifier(e, "Win"@);
    lemma_fold_push_modifier(m1, "Ctrl"@);
    lemma_fold_push_modifier(m2, "Alt"@);
    lemma_fold_push_modifier(m3, "Shift"@);
}

proof fn lemma_fold_keys(ms: Seq<Seq<char>>, ks: Seq<Seq<char>>)
    requires
        forall|i: int| 0 <= i < ks.len() ==> modifier_of(#[trigger] ks[i]) is None,
    ensures
        chord_fold(ms + ks) == (KeyComboV {
            keys: chord_fold(ms).keys + ks.map_values(|w: Seq<char>| parse_key_spec(w)),
            ..chord_fold(ms)
        }),
    decreases ks.len(),
{
    if ks.len() == 0 {
        assert(ms + ks =~= ms);
        assert(chord_fold(ms).keys + ks.map_values(|w: Seq<char>| parse_key_spec(w)) =~= chord_fold(ms).keys);
    } else {
        let init = ks.drop_last();
        assert forall|i: int| 0 <= i < init.len() implies modifier_of(#[trigger] init[i]) is None by {
            assert(init[i] == ks[i]);
        }
        lemma_fold_keys(ms, init);
        assert(ms + ks =~= (ms + init).push(ks.last()));
        lemma_fold_push_modifier(ms + init, ks.last());
        assert(modifier_of(ks[ks.len() - 1]) is None);
        assert(chord_fold(ms).keys + ks.map_values(|w: Seq<char>| parse_key_spec(w)) =~= (chord_fold(ms).keys
            + init.map_values(|w: Seq<char>| parse_key_spec(w))).push(parse_key_spec(ks.last())));
    }
}

proof fn lemma_join_nonempty(parts: Seq<Seq<char>>, sep: Seq<char>)
    requires
        parts.len() > 0,
        parts.last().len() > 0,
    ensures
        join(parts, sep).len() > 0,
{
}

/// A safe chord is written as one clean token that reads back as a chord
/// with the same meaning.
pub proof fn lemma_chord_round_trip(c: KeyComboV)
    requires
        chord_safe(c),
    ensures
        format_chord_spec(c).len() > 0,
        clean(format_chord_spec(c), Sep::Space),
        parse_chord_spec(format_chord_spec(c)) is Some,
        chord_norm_spec(parse_chord_spec(format_chord_spec(c))->0) == chord_norm_spec(c),
{
    reveal_strlit("+");
    lemma_modifier_words();
    let ms = mod_words(c);
    let ks = c.keys.map_values(|k: KeyV| format_key_spec(k));
    let words = chord_words(c);
    assert(words =~= ms + ks);
    assert(words.len() > 0);
    assert forall|i: int| 0 <= i < words.len() implies clean(#[trigger] words[i], Sep::Plus) && words[i].len() > 0
        && clean(words[i], Sep::Space) by {
        if i < ms.len() {
            assert(words[i] == ms[i]);
            assert(plain_word(ms[i]));
            lemma_plain_clean(ms[i], Sep::Plus);
            lemma_plain_clean(ms[i], Sep::Space);
        } else {
            let j = i - ms.len();
            assert(words[i] == ks[j]);
            assert(key_safe(c.keys[j]));
            lemma_key_word(c.keys[j]);
        }
    }
    assert("+"@ == seq!['+']);
    lemma_split_join(words, '+', Sep::Plus);
    lemma_clean_join(words, '+', Sep::Space);
    lemma_join_nonempty(words, seq!['+']);
    assert forall|i: int| 0 <= i < ks.len() implies modifier_of(#[trigger] ks[i]) is None by {
        lemma_key_word(c.keys[i]);
    }
    lemma_fold_keys(ms, ks);
    lemma_fold_mods(c);
    let c2 = chord_fold(words);
    assert(parse_chord_spec(format_chord_spec(c)) == Some(c2));
    assert(c2.keys =~= ks.map_values(|w: Seq<char>| parse_key_spec(w)));
    assert(c2.keys.map_values(|k: KeyV| key_norm_spec(k)) =~= c.keys.map_values(|k: KeyV| key_norm_spec(k))) by {
        assert forall|i: int| 0 <= i < c.keys.len() implies key_norm_spec(#[trigger] c2.keys[i]) == key_norm_spec(
            c.keys[i],
        ) by {
            lemma_key_word(c.keys[i]);
        }
    }
}

// ---------------------------------------------------------------------------
// Sequences
// ---------------------------------------------------------------------------

proof fn lemma_parse_chords(cs: Seq<KeyComboV>)
    requires
        forall|i: int| 0 <= i < cs.len() ==> chord_safe(#[trigger] cs[i]),
    ensures
        parse_chords(cs.map_values(|c: KeyComboV| format_chord_spec(c))) is Some,
        norms_spec(parse_chords(cs.map_values(|c: KeyComboV| format_chord_spec(c)))->0) == norms_spec(cs),
    decreases cs.len(),
{
    let strs = cs.map_values(|c: KeyComboV| format_chord_spec(c));
    if cs.len() == 0 {
        assert(norms_spec(Seq::<KeyComboV>::empty()) =~= norms_spec(cs));
    } else {
        let init = cs.drop_last();
        assert forall|i: int| 0 <= i < init.len() implies chord_safe(#[trigger] init[i]) by {
            assert(init[i] == cs[i]);
        }
        lemma_parse_chords(init);
        assert(strs.drop_last() =~= init.map_values(|c: KeyComboV| format_chord_spec(c)));
        assert(strs.last() == format_chord_spec(cs.last()));
        lemma_chord_round_trip(cs.last());
        let prev = parse_chords(strs.drop_last())->0;
        let c2 = parse_chord_spec(strs.last())->0;
        assert(parse_chords(strs) == Some(prev.push(c2)));
        assert(norms_spec(prev).len() == prev.len());
        assert(prev.len() == init.len());
        assert forall|i: int| 0 <= i < cs.len() implies #[trigger] norms_spec(prev.push(c2))[i] == norms_spec(
            cs,
        )[i] by {
            if i < init.len() {
                assert(prev.push(c2)[i] == prev[i]);
                assert(norms_spec(prev)[i] == norms_spec(init)[i]);
                assert(init[i] == cs[i]);
            } else {
                assert(prev.push(c2)[i] == c2);
                assert(cs[i] == cs.last());
            }
        }
        assert(norms_spec(prev.push(c2)) =~= norms_spec(cs));
    }
}

/// The codec round trip: a non-empty sequence of chords, each with a
/// modifier or a key and with keys that can be written (`key_safe`),
/// written by `format_combo_seq`, reads back through `parse_combo_seq` as a
/// sequence with the same chords, modifiers and keys, compared by meaning
/// (the normal form that `combo_eq` compares).
pub proof fn lemma_format_round_trips(cs: Seq<KeyComboV>)
    requires
        cs.len() > 0,
        forall|i: int| 0 <= i < cs.len() ==> chord_safe(#[trigger] cs[i]),
    ensures
        parse_combo_seq_spec(format_combo_seq_spec(cs)) is Some,
        norms_spec(parse_combo_seq_spec(format_combo_seq_spec(cs))->0) == norms_spec(cs),
{
    reveal_strlit(" ");
    let strs = cs.map_values(|c: KeyComboV| format_chord_spec(c));
    assert forall|i: int| 0 <= i < strs.len() implies clean(#[trigger] strs[i], Sep::Space) && strs[i].len() > 0 by {
        lemma_chord_round_trip(cs[i]);
    }
    assert(" "@ == seq![' ']);
    lemma_split_join(strs, ' ', Sep::Space);
    lemma_parse_chords(cs);
}

} // verus!
