//! Page assembly: the render-ready view of one manifest, and the stable
//! identity of each entry that pins refer to.

use vstd::prelude::*;
use vstd::utf8::encode_utf8;

use crate::custom::{
    bindings_spec, bindings_view, custom_bindings, entry_or_empty, mark_all, mark_redefined,
    AppCustomizations, CustomBinding, CustomBindingV, EntryCustomizationV,
};
use crate::combo::{combos_v, norms_spec};
use crate::keys::{GlyphToken, Key, KeyV};
use crate::model::{
    clone_combos, clone_opt_string, combos_view, entries_view, opt_view, strs_view, Entry, EntryV,
    KeyCombo, KeyComboV, Manifest, Section, SectionV,
};
use crate::numfmt::{decimal_spec, decimal_string, hex16, hex_spec};
use crate::pins::keys_set;
use crate::text::{owned, push_all, str_eq};

verus! {

pub const FNV_OFFSET: u64 = 0xcbf29ce484222325;
pub const FNV_PRIME: u64 = 0x100000001b3;
/// Fed after every field, so that field boundaries change the hash.
pub const FNV_SEPARATOR: u8 = 0x1f;

/// One FNV-1a step.
pub open spec fn fnv_step(h: u64, b: u8) -> u64 {
    (h ^ (b as u64)).wrapping_mul(FNV_PRIME)
}

/// FNV-1a over `bytes`, from state `h`.
pub open spec fn fnv_bytes(h: u64, bytes: Seq<u8>) -> u64
    decreases bytes.len(),
{
    if bytes.len() == 0 {
        h
    } else {
        fnv_step(fnv_bytes(h, bytes.drop_last()), bytes.last())
    }
}

/// One field: its bytes, then the separator.
pub open spec fn fnv_field(h: u64, bytes: Seq<u8>) -> u64 {
    fnv_step(fnv_bytes(h, bytes), FNV_SEPARATOR)
}

/// One character as it stands inside a JSON string written by serde_json:
/// `"` and `\` escaped with a backslash, the control characters U+0000 to
/// U+001F as `\b`, `\t`, `\n`, `\f`, `\r` or `\u00xx` (lowercase hex),
/// every other character copied.
pub open spec fn json_char(c: char) -> Seq<char> {
    if c == '"' {
        seq!['\\', '"']
    } else if c == '\\' {
        seq!['\\', '\\']
    } else if c == '\u{8}' {
        seq!['\\', 'b']
    } else if c == '\t' {
        seq!['\\', 't']
    } else if c == '\n' {
        seq!['\\', 'n']
    } else if c == '\u{c}' {
        seq!['\\', 'f']
    } else if c == '\r' {
        seq!['\\', 'r']
    } else if (c as u32) < 0x20 {
        seq!['\\', 'u', '0', '0'] + hex_spec(c as nat, 2)
    } else {
        seq![c]
    }
}

/// The characters of `s`, each escaped as `json_char` says.
pub open spec fn json_escaped(s: Seq<char>) -> Seq<char>
    decreases s.len(),
{
    if s.len() == 0 {
        Seq::empty()
    } else {
        json_escaped(s.drop_last()) + json_char(s.last())
    }
}

/// JSON text of a string: its escaped characters between double quotes.
pub open spec fn json_string(s: Seq<char>) -> Seq<char> {
    seq!['"'] + json_escaped(s) + seq!['"']
}

/// `serde_json::to_string` on a `&str`: the string between double quotes,
/// with `"`, `\` and the control characters escaped by serde_json's escape
/// table, everything else copied (`json_string`). Serializing a string
/// cannot fail.
#[verifier::external_body]
fn json_quote(s: &str) -> (r: String)
    ensures
        r@ == json_string(s@),
{
    serde_json::to_string(s).unwrap_or_default()
}

/// The name a glyph token has in the serialized form (snake case).
pub open spec fn glyph_wire_name(g: GlyphToken) -> Seq<char> {
    match g {
        GlyphToken::Left => "left"@,
        GlyphToken::Right => "right"@,
        GlyphToken::Up => "up"@,
        GlyphToken::Down => "down"@,
        GlyphToken::Arrow => "arrow"@,
        GlyphToken::ArrowLR => "arrow_l_r"@,
        GlyphToken::ArrowUD => "arrow_u_d"@,
        GlyphToken::Enter => "enter"@,
        GlyphToken::Backspace => "backspace"@,
        GlyphToken::Escape => "escape"@,
        GlyphToken::PageUp => "page_up"@,
        GlyphToken::PageDown => "page_down"@,
        GlyphToken::Home => "home"@,
        GlyphToken::End => "end"@,
        GlyphToken::Insert => "insert"@,
        GlyphToken::Delete => "delete"@,
        GlyphToken::Pause => "pause"@,
        GlyphToken::PrtScr => "prt_scr"@,
        GlyphToken::Copilot => "copilot"@,
        GlyphToken::Office => "office"@,
    }
}

fn glyph_wire(g: GlyphToken) -> (r: &'static str)
    ensures
        r@ == glyph_wire_name(g),
{
    match g {
        GlyphToken::Left => "left",
        GlyphToken::Right => "right",
        GlyphToken::Up => "up",
        GlyphToken::Down => "down",
        GlyphToken::Arrow => "arrow",
        GlyphToken::ArrowLR => "arrow_l_r",
        GlyphToken::ArrowUD => "arrow_u_d",
        GlyphToken::Enter => "enter",
        GlyphToken::Backspace => "backspace",
        GlyphToken::Escape => "escape",
        GlyphToken::PageUp => "page_up",
        GlyphToken::PageDown => "page_down",
        GlyphToken::Home => "home",
        GlyphToken::End => "end",
        GlyphToken::Insert => "insert",
        GlyphToken::Delete => "delete",
        GlyphToken::Pause => "pause",
        GlyphToken::PrtScr => "prt_scr",
        GlyphToken::Copilot => "copilot",
        GlyphToken::Office => "office",
    }
}

/// The serialized form of a key: an object tagged by `kind`, with the
/// payload, if any, under `value`.
pub open spec fn key_json(k: KeyV) -> Seq<char> {
    match k {
        KeyV::Literal(s) => "{\"kind\":\"literal\",\"value\":"@ + json_string(s) + "}"@,
        KeyV::Vk(n) => "{\"kind\":\"vk\",\"value\":"@ + decimal_spec(n as nat) + "}"@,
        KeyV::Glyph(g) => "{\"kind\":\"glyph\",\"value\":\""@ + glyph_wire_name(g) + "\"}"@,
        KeyV::UnderlinedLetter => "{\"kind\":\"underlined_letter\"}"@,
        KeyV::TaskbarRange => "{\"kind\":\"taskbar_range\"}"@,
        KeyV::AngleLiteral(s) => "{\"kind\":\"angle_literal\",\"value\":"@ + json_string(s) + "}"@,
    }
}

/// The serialized form of a key (see [`key_json`]).
pub fn key_to_json(k: &Key) -> (r: String)
    ensures
        r@ == key_json(k@),
{
    let mut out = String::new();
    match k {
        Key::Literal(s) => {
            push_all(&mut out, "{\"kind\":\"literal\",\"value\":");
            let q = json_quote(s.as_str());
            push_all(&mut out, q.as_str());
            push_all(&mut out, "}");
        },
        Key::Vk(n) => {
            push_all(&mut out, "{\"kind\":\"vk\",\"value\":");
            let d = decimal_string(*n as u64);
            push_all(&mut out, d.as_str());
            push_all(&mut out, "}");
        },
        Key::Glyph(g) => {
            push_all(&mut out, "{\"kind\":\"glyph\",\"value\":\"");
            push_all(&mut out, glyph_wire(*g));
            push_all(&mut out, "\"}");
        },
        Key::UnderlinedLetter => {
            push_all(&mut out, "{\"kind\":\"underlined_letter\"}");
        },
        Key::TaskbarRange => {
            push_all(&mut out, "{\"kind\":\"taskbar_range\"}");
        },
        Key::AngleLiteral(s) => {
            push_all(&mut out, "{\"kind\":\"angle_literal\",\"value\":");
            let q = json_quote(s.as_str());
            push_all(&mut out, q.as_str());
            push_all(&mut out, "}");
        },
    }
    proof {
        reveal_strlit("");
    }
    out
}

pub open spec fn flag(b: bool) -> u8 {
    if b {
        1
    } else {
        0
    }
}

pub open spec fn fnv_keys(h: u64, keys: Seq<KeyV>) -> u64
    decreases keys.len(),
{
    if keys.len() == 0 {
        h
    } else {
        fnv_field(fnv_keys(h, keys.drop_last()), encode_utf8(key_json(keys.last())))
    }
}

/// A combo: its four modifier flags as one field, then each key's
/// serialized form as a field.
pub open spec fn fnv_combo(h: u64, c: KeyComboV) -> u64 {
    fnv_keys(fnv_field(h, seq![flag(c.win), flag(c.ctrl), flag(c.shift), flag(c.alt)]), c.keys)
}

pub open spec fn fnv_combos(h: u64, cs: Seq<KeyComboV>) -> u64
    decreases cs.len(),
{
    if cs.len() == 0 {
        h
    } else {
        fnv_combo(fnv_combos(h, cs.drop_last()), cs.last())
    }
}

/// FNV-1a over the section name, the entry name and the combos.
pub open spec fn entry_hash(section: Seq<char>, e: EntryV) -> u64 {
    fnv_combos(fnv_field(fnv_field(FNV_OFFSET, encode_utf8(section)), encode_utf8(e.name)), e.combos)
}

/// The pin key: the hash as sixteen lowercase hex digits.
pub open spec fn entry_key_spec(section: Seq<char>, e: EntryV) -> Seq<char> {
    hex_spec(entry_hash(section, e) as nat, 16)
}

fn feed_bytes(h: u64, bytes: &[u8]) -> (r: u64)
    ensures
        r == fnv_field(h, bytes@),
{
    let mut x = h;
    for i in 0..bytes.len()
        invariant
            x == fnv_bytes(h, bytes@.take(i as int)),
    {
        proof {
            assert(bytes@.take(i + 1).drop_last() =~= bytes@.take(i as int));
        }
        x = (x ^ (bytes[i] as u64)).wrapping_mul(FNV_PRIME);
    }
    assert(bytes@.take(bytes@.len() as int) =~= bytes@);
    (x ^ (FNV_SEPARATOR as u64)).wrapping_mul(FNV_PRIME)
}

fn feed_str(h: u64, s: &str) -> (r: u64)
    ensures
        r == fnv_field(h, encode_utf8(s@)),
{
    feed_bytes(h, s.as_bytes())
}

fn feed_combo(h: u64, c: &KeyCombo) -> (r: u64)
    ensures
        r == fnv_combo(h, c@),
{
    let fl: [u8; 4] = [
        if c.win { 1 } else { 0 },
        if c.ctrl { 1 } else { 0 },
        if c.shift { 1 } else { 0 },
        if c.alt { 1 } else { 0 },
    ];
    assert(fl@ =~= seq![flag(c.win), flag(c.ctrl), flag(c.shift), flag(c.alt)]);
    let h0 = feed_bytes(h, fl.as_slice());
    let mut x = h0;
    for i in 0..c.keys.len()
        invariant
            x == fnv_keys(h0, c@.keys.take(i as int)),
            c@.keys.len() == c.keys@.len(),
            forall|j: int| 0 <= j < c.keys@.len() ==> #[trigger] c@.keys[j] == c.keys@[j]@,
    {
        let js = key_to_json(&c.keys[i]);
        proof {
            assert(c@.keys.take(i + 1).drop_last() =~= c@.keys.take(i as int));
        }
        x = feed_str(x, js.as_str());
    }
    assert(c@.keys.take(c@.keys.len() as int) =~= c@.keys);
    x
}

/// Stable identity of an entry for pinning: survives reordering, changes
/// when the shortcut itself changes. FNV-1a over section, name and combos.
pub fn entry_key(section_name: &str, entry: &Entry) -> (r: String)
    ensures
        r@ == entry_key_spec(section_name@, entry@),
{
    let mut h = feed_str(FNV_OFFSET, section_name);
    h = feed_str(h, entry.name.as_str());
    let ghost h0 = h;
    for i in 0..entry.combos.len()
        invariant
            h == fnv_combos(h0, entry@.combos.take(i as int)),
            entry@.combos.len() == entry.combos@.len(),
            forall|j: int| 0 <= j < entry.combos@.len() ==> #[trigger] entry@.combos[j] == entry.combos@[j]@,
    {
        proof {
            assert(entry@.combos.take(i + 1).drop_last() =~= entry@.combos.take(i as int));
        }
        h = feed_combo(h, &entry.combos[i]);
    }
    assert(entry@.combos.take(entry@.combos.len() as int) =~= entry@.combos);
    hex16(h)
}

// ---------------------------------------------------------------------------
// Page assembly
// ---------------------------------------------------------------------------

#[derive(Debug, Clone, Copy, PartialEq, Eq, Structural)]
pub enum SectionKind {
    Pinned,
    Recommended,
    Category,
    Taskbar,
}

#[derive(Debug)]
pub struct AssembledEntry {
    /// Stable pin key (also the row identity for the UI).
    pub key: String,
    pub name: String,
    pub description: Option<String>,
    pub pinned: bool,
    pub combos: Vec<KeyCombo>,
    /// User-added bindings from the app's customization file.
    pub custom_combos: Vec<CustomBinding>,
    /// Parallel to `combos`: the chord is part of a default binding the user
    /// marked as reassigned.
    pub redefined: Vec<bool>,
}

pub struct AssembledEntryV {
    pub key: Seq<char>,
    pub name: Seq<char>,
    pub description: Option<Seq<char>>,
    pub pinned: bool,
    pub combos: Seq<KeyComboV>,
    pub custom_combos: Seq<CustomBindingV>,
    pub redefined: Seq<bool>,
}

impl View for AssembledEntry {
    type V = AssembledEntryV;

    open spec fn view(&self) -> AssembledEntryV {
        AssembledEntryV {
            key: self.key@,
            name: self.name@,
            description: opt_view(self.description),
            pinned: self.pinned,
            combos: combos_view(self.combos@),
            custom_combos: bindings_view(self.custom_combos@),
            redefined: self.redefined@,
        }
    }
}

#[derive(Debug)]
pub struct AssembledSection {
    pub title: String,
    pub kind: SectionKind,
    pub entries: Vec<AssembledEntry>,
}

pub struct AssembledSectionV {
    pub title: Seq<char>,
    pub kind: SectionKind,
    pub entries: Seq<AssembledEntryV>,
}

pub open spec fn rows_view(v: Seq<AssembledEntry>) -> Seq<AssembledEntryV> {
    v.map_values(|e: AssembledEntry| e@)
}

impl View for AssembledSection {
    type V = AssembledSectionV;

    open spec fn view(&self) -> AssembledSectionV {
        AssembledSectionV { title: self.title@, kind: self.kind, entries: rows_view(self.entries@) }
    }
}

/// A fully assembled, render-ready page for one app, in order: Pinned,
/// Recommended, categories in file order, Taskbar last.
#[derive(Debug)]
pub struct AssembledPage {
    pub manifest_id: String,
    pub display_name: String,
    pub sections: Vec<AssembledSection>,
    pub has_taskbar: bool,
}

pub struct AssembledPageV {
    pub manifest_id: Seq<char>,
    pub display_name: Seq<char>,
    pub sections: Seq<AssembledSectionV>,
    pub has_taskbar: bool,
}

pub open spec fn asections_view(v: Seq<AssembledSection>) -> Seq<AssembledSectionV> {
    v.map_values(|s: AssembledSection| s@)
}

impl View for AssembledPage {
    type V = AssembledPageV;

    open spec fn view(&self) -> AssembledPageV {
        AssembledPageV {
            manifest_id: self.manifest_id@,
            display_name: self.display_name@,
            sections: asections_view(self.sections@),
            has_taskbar: self.has_taskbar,
        }
    }
}

/// The row shown for entry `e` of section `sec`: its pin key, whether that
/// key is pinned, and the user's customization of the entry's name.
pub open spec fn row_spec(
    sec: Seq<char>,
    e: EntryV,
    pins: Set<Seq<char>>,
    cm: Map<Seq<char>, EntryCustomizationV>,
) -> AssembledEntryV {
    let key = entry_key_spec(sec, e);
    let c = entry_or_empty(cm, e.name);
    AssembledEntryV {
        key,
        name: e.name,
        description: e.description,
        pinned: pins.contains(key),
        combos: e.combos,
        custom_combos: bindings_spec(c.custom),
        redefined: mark_all(norms_spec(e.combos), c.redefined),
    }
}

pub open spec fn rows_spec(
    s: SectionV,
    pins: Set<Seq<char>>,
    cm: Map<Seq<char>, EntryCustomizationV>,
) -> Seq<AssembledEntryV> {
    Seq::new(s.entries.len(), |i: int| row_spec(s.name, s.entries[i], pins, cm))
}

/// The pinned rows, in order.
pub open spec fn pinned_rows(rows: Seq<AssembledEntryV>) -> Seq<AssembledEntryV>
    decreases rows.len(),
{
    if rows.len() == 0 {
        rows
    } else if rows.last().pinned {
        pinned_rows(rows.drop_last()).push(rows.last())
    } else {
        pinned_rows(rows.drop_last())
    }
}

/// The rows of recommended entries, in order (`rows` parallel to `es`).
pub open spec fn recommended_rows(es: Seq<EntryV>, rows: Seq<AssembledEntryV>) -> Seq<AssembledEntryV>
    decreases rows.len(),
{
    if rows.len() == 0 || es.len() != rows.len() {
        Seq::empty()
    } else if es.last().recommended {
        recommended_rows(es.drop_last(), rows.drop_last()).push(rows.last())
    } else {
        recommended_rows(es.drop_last(), rows.drop_last())
    }
}

/// What the visible sections contribute to a page.
pub struct PageParts {
    pub pinned: Seq<AssembledEntryV>,
    pub recommended: Seq<AssembledEntryV>,
    pub categories: Seq<AssembledSectionV>,
    /// The last visible taskbar section.
    pub taskbar: Option<AssembledSectionV>,
}

/// The page contents from sections, in file order; `<...>`-named (meta)
/// sections contribute nothing.
pub open spec fn parts_spec(
    secs: Seq<SectionV>,
    pins: Set<Seq<char>>,
    cm: Map<Seq<char>, EntryCustomizationV>,
) -> PageParts
    decreases secs.len(),
{
    if secs.len() == 0 {
        PageParts { pinned: Seq::empty(), recommended: Seq::empty(), categories: Seq::empty(), taskbar: None }
    } else {
        let p = parts_spec(secs.drop_last(), pins, cm);
        let s = secs.last();
        if s.is_meta {
            p
        } else {
            let rows = rows_spec(s, pins, cm);
            PageParts {
                pinned: p.pinned + pinned_rows(rows),
                recommended: p.recommended + recommended_rows(s.entries, rows),
                categories: if s.is_taskbar {
                    p.categories
                } else {
                    p.categories.push(AssembledSectionV { title: s.name, kind: SectionKind::Category, entries: rows })
                },
                taskbar: if s.is_taskbar {
                    Some(AssembledSectionV { title: s.name, kind: SectionKind::Taskbar, entries: rows })
                } else {
                    p.taskbar
                },
            }
        }
    }
}

/// The assembled page: Pinned always (possibly empty), Recommended when
/// any entry is recommended, the categories, then the taskbar section.
pub open spec fn page_spec(
    m: Manifest,
    pins: Set<Seq<char>>,
    cm: Map<Seq<char>, EntryCustomizationV>,
) -> AssembledPageV {
    let p = parts_spec(m@.sections, pins, cm);
    let head = seq![AssembledSectionV { title: "Pinned"@, kind: SectionKind::Pinned, entries: p.pinned }];
    let rec = if p.recommended.len() > 0 {
        seq![AssembledSectionV { title: "Recommended"@, kind: SectionKind::Recommended, entries: p.recommended }]
    } else {
        Seq::empty()
    };
    let tail = match p.taskbar {
        Some(t) => seq![t],
        None => Seq::empty(),
    };
    AssembledPageV {
        manifest_id: m.id@,
        display_name: m.display_name_spec(),
        sections: head + rec + p.categories + tail,
        has_taskbar: p.taskbar is Some,
    }
}

fn clone_bools(v: &Vec<bool>) -> (r: Vec<bool>)
    ensures
        r@ == v@,
{
    let mut out: Vec<bool> = Vec::new();
    for i in 0..v.len()
        invariant
            out@ == v@.take(i as int),
    {
        out.push(v[i]);
        assert(v@.take(i + 1) =~= v@.take(i as int).push(v@[i as int]));
    }
    assert(v@.take(v@.len() as int) =~= v@);
    out
}

fn clone_bindings(v: &Vec<CustomBinding>) -> (r: Vec<CustomBinding>)
    ensures
        bindings_view(r@) == bindings_view(v@),
{
    let mut out: Vec<CustomBinding> = Vec::new();
    for i in 0..v.len()
        invariant
            out@.len() == i,
            forall|j: int| 0 <= j < i ==> #[trigger] out@[j]@ == v@[j]@,
    {
        let b = &v[i];
        let chords = clone_combos(&b.chords);
        proof {
            assert(combos_v(chords@) =~= combos_v(b.chords@)) by {
                assert(combos_view(chords@) == combos_view(b.chords@));
                assert(combos_v(chords@) =~= combos_view(chords@));
                assert(combos_v(b.chords@) =~= combos_view(b.chords@));
            }
        }
        out.push(CustomBinding { raw: b.raw.clone(), chords });
    }
    assert(bindings_view(out@) =~= bindings_view(v@));
    out
}

fn clone_row(r: &AssembledEntry) -> (c: AssembledEntry)
    ensures
        c@ == r@,
{
    AssembledEntry {
        key: r.key.clone(),
        name: r.name.clone(),
        description: clone_opt_string(&r.description),
        pinned: r.pinned,
        combos: clone_combos(&r.combos),
        custom_combos: clone_bindings(&r.custom_combos),
        redefined: clone_bools(&r.redefined),
    }
}

fn contains_str(v: &Vec<String>, s: &str) -> (r: bool)
    ensures
        r == strs_view(v@).contains(s@),
{
    for i in 0..v.len()
        invariant
            forall|j: int| 0 <= j < i ==> #[trigger] v@[j]@ != s@,
    {
        if str_eq(v[i].as_str(), s) {
            assert(strs_view(v@)[i as int] == s@);
            return true;
        }
    }
    assert forall|j: int| 0 <= j < strs_view(v@).len() implies strs_view(v@)[j] != s@ by {
        assert(strs_view(v@)[j] == v@[j]@);
    }
    false
}

/// The row for one entry.
fn make_row(sec: &str, e: &Entry, pinned: &Vec<String>, customs: &AppCustomizations) -> (r: AssembledEntry)
    ensures
        r@ == row_spec(sec@, e@, keys_set(pinned@), customs@),
{
    let key = entry_key(sec, e);
    let is_pinned = contains_str(pinned, key.as_str());
    let cust = customs.get(e.name.as_str());
    let custom_combos = custom_bindings(cust);
    let empty: Vec<String> = Vec::new();
    let redefined = match cust {
        Some(c) => mark_redefined(&e.combos, &c.redefined),
        None => mark_redefined(&e.combos, &empty),
    };
    proof {
        assert(combos_v(e.combos@) =~= combos_view(e.combos@));
        assert(strs_view(empty@) =~= Seq::<Seq<char>>::empty());
    }
    AssembledEntry {
        key,
        name: e.name.clone(),
        description: clone_opt_string(&e.description),
        pinned: is_pinned,
        combos: clone_combos(&e.combos),
        custom_combos,
        redefined,
    }
}

/// Assemble the view for one manifest. `pinned` holds this manifest's
/// pinned entry keys; keys of vanished entries are ignored. `customs`
/// layers the user's customizations onto entries, matched by entry name.
pub fn assemble(manifest: &Manifest, pinned: &Vec<String>, customs: &AppCustomizations) -> (r: AssembledPage)
    ensures
        r@ == page_spec(*manifest, keys_set(pinned@), customs@),
{
    let ghost pins = keys_set(pinned@);
    let ghost cm = customs@;
    let ghost secs = manifest@.sections;
    let mut pinned_list: Vec<AssembledEntry> = Vec::new();
    let mut recommended_list: Vec<AssembledEntry> = Vec::new();
    let mut categories: Vec<AssembledSection> = Vec::new();
    let mut taskbar: Option<AssembledSection> = None;
    for i in 0..manifest.sections.len()
        invariant
            pins == keys_set(pinned@),
            cm == customs@,
            secs == manifest@.sections,
            secs.len() == manifest.sections@.len(),
            rows_view(pinned_list@) == parts_spec(secs.take(i as int), pins, cm).pinned,
            rows_view(recommended_list@) == parts_spec(secs.take(i as int), pins, cm).recommended,
            asections_view(categories@) == parts_spec(secs.take(i as int), pins, cm).categories,
            match taskbar {
                Some(t) => parts_spec(secs.take(i as int), pins, cm).taskbar == Some(t@),
                None => parts_spec(secs.take(i as int), pins, cm).taskbar is None,
            },
    {
        let section = &manifest.sections[i];
        proof {
            assert(secs.take(i + 1).drop_last() =~= secs.take(i as int));
            assert(secs[i as int] == section@);
        }
        if !section.is_meta {
            let ghost rows_s = rows_spec(section@, pins, cm);
            let mut rows: Vec<AssembledEntry> = Vec::new();
            for j in 0..section.entries.len()
                invariant
                    pins == keys_set(pinned@),
                    cm == customs@,
                    rows_s == rows_spec(section@, pins, cm),
                    rows@.len() == j,
                    forall|q: int| 0 <= q < j ==> #[trigger] rows@[q]@ == rows_s[q],
            {
                rows.push(make_row(section.name.as_str(), &section.entries[j], pinned, customs));
            }
            assert(rows_view(rows@) =~= rows_s);
            // Pinned and recommended copies, in order.
            let ghost p0 = rows_view(pinned_list@);
            let ghost r0 = rows_view(recommended_list@);
            for j in 0..rows.len()
                invariant
                    rows_view(rows@) == rows_s,
                    rows@.len() == section.entries@.len(),
                    rows_view(pinned_list@) == p0 + pinned_rows(rows_s.take(j as int)),
                    rows_view(recommended_list@) == r0 + recommended_rows(
                        section@.entries.take(j as int),
                        rows_s.take(j as int),
                    ),
                    section@.entries.len() == section.entries@.len(),
                    forall|q: int| 0 <= q < section.entries@.len() ==> #[trigger] section@.entries[q] == section.entries@[q]@,
            {
                proof {
                    assert(rows_s.take(j + 1).drop_last() =~= rows_s.take(j as int));
                    assert(section@.entries.take(j + 1).drop_last() =~= section@.entries.take(j as int));
                    assert(rows_s[j as int] == rows@[j as int]@);
                }
                assert(rows_s.take(j + 1).last() == rows_s[j as int]);
                assert(section@.entries.take(j + 1).last() == section@.entries[j as int]);
                let ghost pl0 = rows_view(pinned_list@);
                let ghost rl0 = rows_view(recommended_list@);
                if rows[j].pinned {
                    let c = clone_row(&rows[j]);
                    pinned_list.push(c);
                    assert(rows_view(pinned_list@) =~= pl0.push(rows_s[j as int]));
                    assert(rows_view(pinned_list@) =~= p0 + pinned_rows(rows_s.take(j + 1)));
                } else {
                    assert(rows_view(pinned_list@) =~= p0 + pinned_rows(rows_s.take(j + 1)));
                }
                if section.entries[j].recommended {
                    let c = clone_row(&rows[j]);
                    recommended_list.push(c);
                    assert(rows_view(recommended_list@) =~= rl0.push(rows_s[j as int]));
                    assert(rows_view(recommended_list@) =~= r0 + recommended_rows(
                        section@.entries.take(j + 1),
                        rows_s.take(j + 1),
                    ));
                } else {
                    assert(rows_view(recommended_list@) =~= r0 + recommended_rows(
                        section@.entries.take(j + 1),
                        rows_s.take(j + 1),
                    ));
                }
            }
            proof {
                assert(rows_s.take(rows@.len() as int) =~= rows_s);
                assert(section@.entries.take(rows@.len() as int) =~= section@.entries);
            }
            let assembled = AssembledSection {
                title: section.name.clone(),
                kind: if section.is_taskbar {
                    SectionKind::Taskbar
                } else {
                    SectionKind::Category
                },
                entries: rows,
            };
            if section.is_taskbar {
                taskbar = Some(assembled);
            } else {
                categories.push(assembled);
                assert(asections_view(categories@) =~= parts_spec(secs.take(i + 1), pins, cm).categories);
            }
        }
    }
    proof {
        assert(secs.take(secs.len() as int) =~= secs);
    }
    let mut sections: Vec<AssembledSection> = Vec::new();
    let has_recommended = recommended_list.len() > 0;
    proof {
        reveal_strlit("Pinned");
        reveal_strlit("Recommended");
    }
    sections.push(AssembledSection { title: String::from_str("Pinned"), kind: SectionKind::Pinned, entries: pinned_list });
    if has_recommended {
        sections.push(
            AssembledSection {
                title: String::from_str("Recommended"),
                kind: SectionKind::Recommended,
                entries: recommended_list,
            },
        );
    }
    let ghost before_cats = asections_view(sections@);
    sections.append(&mut categories);
    let has_taskbar = taskbar.is_some();
    match taskbar {
        Some(t) => sections.push(t),
        None => {},
    }
    let r = AssembledPage {
        manifest_id: manifest.id.clone(),
        display_name: String::from_str(manifest.display_name()),
        sections,
        has_taskbar,
    };
    assert(r@.sections =~= page_spec(*manifest, pins, cm).sections);
    r
}

} // verus!
