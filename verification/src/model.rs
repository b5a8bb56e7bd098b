//! The typed manifest model: key combos, entries, sections and manifests,
//! each with the view that contracts speak of, plus identity matching.

use vstd::prelude::*;

use crate::keys::{clone_keys, keys_view, Key, KeyV};
use crate::text::{
    chars_eq_str, chars_of, ends_with, lower_chars, lower_seq, seq_eq, slice_chars, str_eq,
    string_of,
};

verus! {

/// View of an optional string.
pub open spec fn opt_view(o: Option<String>) -> Option<Seq<char>> {
    match o {
        Some(s) => Some(s@),
        None => None,
    }
}

/// Views of a list of strings.
pub open spec fn strs_view(v: Seq<String>) -> Seq<Seq<char>> {
    v.map_values(|s: String| s@)
}

pub fn clone_opt_string(o: &Option<String>) -> (r: Option<String>)
    ensures
        opt_view(r) == opt_view(*o),
{
    match o {
        Some(s) => Some(s.clone()),
        None => None,
    }
}

pub fn clone_strings(v: &Vec<String>) -> (r: Vec<String>)
    ensures
        strs_view(r@) == strs_view(v@),
{
    let mut out: Vec<String> = Vec::new();
    for i in 0..v.len()
        invariant
            out@.len() == i,
            forall|j: int| 0 <= j < i ==> #[trigger] out@[j]@ == v@[j]@,
    {
        out.push(v[i].clone());
    }
    assert(strs_view(out@) =~= strs_view(v@));
    out
}

#[derive(Debug, PartialEq)]
pub struct KeyCombo {
    pub win: bool,
    pub ctrl: bool,
    pub shift: bool,
    pub alt: bool,
    pub keys: Vec<Key>,
}

pub struct KeyComboV {
    pub win: bool,
    pub ctrl: bool,
    pub shift: bool,
    pub alt: bool,
    pub keys: Seq<KeyV>,
}

impl View for KeyCombo {
    type V = KeyComboV;

    open spec fn view(&self) -> KeyComboV {
        KeyComboV {
            win: self.win,
            ctrl: self.ctrl,
            shift: self.shift,
            alt: self.alt,
            keys: keys_view(self.keys@),
        }
    }
}

impl Clone for KeyCombo {
    fn clone(&self) -> (r: Self)
        ensures
            r@ == self@,
    {
        let keys = clone_keys(&self.keys);
        assert(keys_view(keys@) =~= keys_view(self.keys@));
        KeyCombo { win: self.win, ctrl: self.ctrl, shift: self.shift, alt: self.alt, keys }
    }
}

pub open spec fn combos_view(v: Seq<KeyCombo>) -> Seq<KeyComboV> {
    v.map_values(|c: KeyCombo| c@)
}

pub fn clone_combos(v: &Vec<KeyCombo>) -> (r: Vec<KeyCombo>)
    ensures
        combos_view(r@) == combos_view(v@),
{
    let mut out: Vec<KeyCombo> = Vec::new();
    for i in 0..v.len()
        invariant
            out@.len() == i,
            forall|j: int| 0 <= j < i ==> #[trigger] out@[j]@ == v@[j]@,
    {
        out.push(v[i].clone());
    }
    assert(combos_view(out@) =~= combos_view(v@));
    out
}

#[derive(Debug, Clone, PartialEq)]
pub struct Entry {
    pub name: String,
    pub description: Option<String>,
    pub recommended: bool,
    /// Alternative key combos for the same action.
    pub combos: Vec<KeyCombo>,
}

pub struct EntryV {
    pub name: Seq<char>,
    pub description: Option<Seq<char>>,
    pub recommended: bool,
    pub combos: Seq<KeyComboV>,
}

impl View for Entry {
    type V = EntryV;

    open spec fn view(&self) -> EntryV {
        EntryV {
            name: self.name@,
            description: opt_view(self.description),
            recommended: self.recommended,
            combos: combos_view(self.combos@),
        }
    }
}

#[derive(Debug, PartialEq)]
pub struct Section {
    pub name: String,
    /// `<TASKBAR1-9>` section: shown last and arms the badge window.
    pub is_taskbar: bool,
    /// `<...>`-named section: hidden from the normal list.
    pub is_meta: bool,
    pub entries: Vec<Entry>,
}

pub struct SectionV {
    pub name: Seq<char>,
    pub is_taskbar: bool,
    pub is_meta: bool,
    pub entries: Seq<EntryV>,
}

pub open spec fn entries_view(v: Seq<Entry>) -> Seq<EntryV> {
    v.map_values(|e: Entry| e@)
}

impl View for Section {
    type V = SectionV;

    open spec fn view(&self) -> SectionV {
        SectionV {
            name: self.name@,
            is_taskbar: self.is_taskbar,
            is_meta: self.is_meta,
            entries: entries_view(self.entries@),
        }
    }
}

pub open spec fn sections_view(v: Seq<Section>) -> Seq<SectionV> {
    v.map_values(|s: Section| s@)
}

#[derive(Debug, PartialEq)]
pub struct Manifest {
    /// PTSG PackageName, e.g. "Google.Chrome" or "+WindowsNT.Shell".
    pub id: String,
    /// Display name; a missing Name on the Shell manifest displays as
    /// "Windows".
    pub name: Option<String>,
    /// Identities to match: exe names on Windows ("Notepad.exe",
    /// case-insensitive, ".exe" optional), bundle ids on macOS, or the single
    /// entry "*" for all windows. Empty when `host` is set.
    pub window_filters: Vec<String>,
    /// true: show whenever the process runs (with "*": always shown).
    pub background_process: bool,
    /// Host class for a hosted collection ("browser"), lowercased. A hosted
    /// manifest matches only via its host class.
    pub host: Option<String>,
    /// Case-insensitive substrings matched against the foreground window
    /// title to auto-detect the hosted app. All trimmed and non-empty.
    pub title_match: Vec<String>,
    /// Image filename next to the manifest, used as the rail icon.
    pub icon: Option<String>,
    pub sections: Vec<Section>,
}

pub struct ManifestV {
    pub id: Seq<char>,
    pub name: Option<Seq<char>>,
    pub window_filters: Seq<Seq<char>>,
    pub background_process: bool,
    pub host: Option<Seq<char>>,
    pub title_match: Seq<Seq<char>>,
    pub icon: Option<Seq<char>>,
    pub sections: Seq<SectionV>,
}

impl View for Manifest {
    type V = ManifestV;

    open spec fn view(&self) -> ManifestV {
        ManifestV {
            id: self.id@,
            name: opt_view(self.name),
            window_filters: strs_view(self.window_filters@),
            background_process: self.background_process,
            host: opt_view(self.host),
            title_match: strs_view(self.title_match@),
            icon: opt_view(self.icon),
            sections: sections_view(self.sections@),
        }
    }
}

/// The "*" filter.
pub open spec fn star() -> Seq<char> {
    seq!['*']
}

pub open spec fn is_path_sep(c: char) -> bool {
    c == '\\' || c == '/'
}

/// The part of `s` after its last path separator.
pub open spec fn basename(s: Seq<char>) -> Seq<char>
    decreases s.len(),
{
    if s.len() == 0 {
        s
    } else if is_path_sep(s.last()) {
        Seq::empty()
    } else {
        basename(s.drop_last()).push(s.last())
    }
}

pub open spec fn exe_suffix() -> Seq<char> {
    seq!['.', 'e', 'x', 'e']
}

/// `s` without one trailing ".exe".
pub open spec fn strip_exe(s: Seq<char>) -> Seq<char> {
    if ends_with(s, exe_suffix()) {
        s.take(s.len() - 4)
    } else {
        s
    }
}

/// Identity as matched: basename, ASCII-lowercased, one ".exe" stripped.
pub open spec fn normalize_exe_spec(s: Seq<char>) -> Seq<char> {
    strip_exe(lower_seq(basename(s)))
}

pub fn basename_chars(s: &Vec<char>) -> (r: Vec<char>)
    ensures
        r@ == basename(s@),
{
    let mut cur: Vec<char> = Vec::new();
    for i in 0..s.len()
        invariant
            cur@ == basename(s@.take(i as int)),
    {
        let c = s[i];
        assert(s@.take(i + 1).drop_last() =~= s@.take(i as int));
        if c == '\\' || c == '/' {
            cur = Vec::new();
            assert(cur@ =~= basename(s@.take(i + 1)));
        } else {
            cur.push(c);
        }
    }
    assert(s@.take(s.len() as int) =~= s@);
    cur
}

pub fn normalize_exe_chars(s: &Vec<char>) -> (r: Vec<char>)
    ensures
        r@ == normalize_exe_spec(s@),
{
    let b = basename_chars(s);
    let l = lower_chars(&b);
    let n = l.len();
    if n >= 4 && l[n - 4] == '.' && l[n - 3] == 'e' && l[n - 2] == 'x' && l[n - 1] == 'e' {
        assert(l@.skip(n - 4) =~= exe_suffix());
        slice_chars(&l, 0, n - 4)
    } else {
        assert(!ends_with(l@, exe_suffix())) by {
            if ends_with(l@, exe_suffix()) {
                assert(l@.skip(n - 4)[0] == l@[n - 4]);
                assert(l@.skip(n - 4)[1] == l@[n - 3]);
                assert(l@.skip(n - 4)[2] == l@[n - 2]);
                assert(l@.skip(n - 4)[3] == l@[n - 1]);
            }
        }
        l
    }
}

/// Normalize an exe identifier for matching: lowercase, strip one trailing
/// ".exe", basename only.
pub fn normalize_exe(name: &str) -> (r: String)
    ensures
        r@ == normalize_exe_spec(name@),
{
    let v = chars_of(name);
    let n = normalize_exe_chars(&v);
    string_of(&n)
}

impl Manifest {
    pub open spec fn primary_filter_spec(self) -> Seq<char> {
        if self.window_filters@.len() > 0 {
            self.window_filters@[0]@
        } else {
            Seq::empty()
        }
    }

    /// The identity to show and to look a live process up by, when exactly
    /// one is needed. Empty for a hosted collection.
    pub fn primary_filter(&self) -> (r: &str)
        ensures
            r@ == self.primary_filter_spec(),
    {
        if self.window_filters.len() > 0 {
            self.window_filters[0].as_str()
        } else {
            proof {
                reveal_strlit("");
            }
            ""
        }
    }

    pub open spec fn is_wildcard_spec(self) -> bool {
        exists|i: int| 0 <= i < self.window_filters@.len() && #[trigger] self.window_filters@[i]@ == star()
    }

    /// The "*" filter: matches every window.
    pub fn is_wildcard(&self) -> (r: bool)
        ensures
            r == self.is_wildcard_spec(),
    {
        for i in 0..self.window_filters.len()
            invariant
                forall|j: int| 0 <= j < i ==> #[trigger] self.window_filters@[j]@ != star(),
        {
            proof {
                reveal_strlit("*");
                assert("*"@ =~= star());
            }
            if str_eq(self.window_filters[i].as_str(), "*") {
                return true;
            }
        }
        false
    }

    pub open spec fn matches_identity_spec(self, identity: Seq<char>) -> bool {
        exists|i: int|
            0 <= i < self.window_filters@.len() && normalize_exe_spec(
                #[trigger] self.window_filters@[i]@,
            ) == normalize_exe_spec(identity)
    }

    /// Does this manifest claim `identity`? Both sides are normalized, so
    /// an exe name and a bundle id compare by the same rule.
    pub fn matches_identity(&self, identity: &str) -> (r: bool)
        ensures
            r == self.matches_identity_spec(identity@),
    {
        let iv = chars_of(identity);
        let want = normalize_exe_chars(&iv);
        for i in 0..self.window_filters.len()
            invariant
                want@ == normalize_exe_spec(identity@),
                forall|j: int|
                    0 <= j < i ==> normalize_exe_spec(#[trigger] self.window_filters@[j]@)
                        != normalize_exe_spec(identity@),
        {
            let fv = chars_of(self.window_filters[i].as_str());
            let f = normalize_exe_chars(&fv);
            if seq_eq(&f, &want) {
                return true;
            }
        }
        false
    }

    pub open spec fn display_name_spec(self) -> Seq<char> {
        match self.name {
            Some(n) => n@,
            None => if self.id@ == "+WindowsNT.Shell"@ {
                "Windows"@
            } else {
                self.id@
            },
        }
    }

    /// The name to show: `Name`, else "Windows" for the Shell manifest,
    /// else the package id.
    pub fn display_name(&self) -> (r: &str)
        ensures
            r@ == self.display_name_spec(),
    {
        match &self.name {
            Some(n) => n.as_str(),
            None => {
                if str_eq(self.id.as_str(), "+WindowsNT.Shell") {
                    "Windows"
                } else {
                    self.id.as_str()
                }
            },
        }
    }

    pub open spec fn has_taskbar_spec(self) -> bool {
        exists|i: int| 0 <= i < self.sections@.len() && #[trigger] self.sections@[i].is_taskbar
    }

    pub fn has_taskbar_section(&self) -> (r: bool)
        ensures
            r == self.has_taskbar_spec(),
    {
        for i in 0..self.sections.len()
            invariant
                forall|j: int| 0 <= j < i ==> !#[trigger] self.sections@[j].is_taskbar,
        {
            if self.sections[i].is_taskbar {
                return true;
            }
        }
        false
    }
}

/// A user-captured title signature bound to a hosted collection: when
/// `pattern` (case-insensitive substring) hits the foreground title of a
/// host-class window, the collection named by `manifest_id` auto-selects.
/// User bindings always beat manifest `TitleMatch` patterns.
#[derive(Debug, PartialEq)]
pub struct TitleBinding {
    pub pattern: String,
    pub manifest_id: String,
}

} // verus!
