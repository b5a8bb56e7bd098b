//! Normalization of raw PTSG manifests into the typed model, and the
//! manifest file-name convention. Reading the YAML text into the raw schema
//! happens at the edge; everything after that is here.

use vstd::prelude::*;

use crate::keys::{normalize_token, normalize_token_spec, KeyV, TASKBAR_TOKEN};
use crate::model::{Entry, EntryV, KeyCombo, KeyComboV, Manifest, ManifestV, Section, SectionV};
use crate::schema::{
    RawCategory, RawCategoryV, RawEntry, RawEntryV, RawKeyCombo, RawKeyComboV, RawManifest,
    RawManifestV,
};
use crate::text::{
    chars_of, ends_with, eq_ci, eq_ignore_case_str, find_char, has_suffix, is_alnum, is_lower, lower_chars,
    lower_seq, rfind_char, slice_chars, string_of, trim, trim_chars, trim_str,
};

verus! {

/// A manifest file that could not be read as a manifest.
#[derive(Debug)]
pub struct ParseError(pub String);

impl ParseError {
    /// The message shown for this error.
    pub fn message(&self) -> (r: String)
        ensures
            r@ == "manifest parse error: "@ + self.0@,
    {
        let mut s = String::from_str("manifest parse error: ");
        s.append(self.0.as_str());
        s
    }
}

// ---------------------------------------------------------------------------
// Specification
// ---------------------------------------------------------------------------

/// Trimmed, and absent when empty.
pub open spec fn trimmed_opt(o: Option<Seq<char>>) -> Option<Seq<char>> {
    match o {
        Some(s) => if trim(s).len() > 0 {
            Some(trim(s))
        } else {
            None
        },
        None => None,
    }
}

/// Every item trimmed; empty items dropped.
pub open spec fn trimmed_list(v: Seq<Seq<char>>) -> Seq<Seq<char>>
    decreases v.len(),
{
    if v.len() == 0 {
        Seq::empty()
    } else if trim(v.last()).len() > 0 {
        trimmed_list(v.drop_last()).push(trim(v.last()))
    } else {
        trimmed_list(v.drop_last())
    }
}

pub open spec fn combo_spec(c: RawKeyComboV) -> KeyComboV {
    KeyComboV {
        win: c.win,
        ctrl: c.ctrl,
        shift: c.shift,
        alt: c.alt,
        keys: match c.keys {
            Some(ks) => ks.map_values(|t| normalize_token_spec(t)),
            None => Seq::empty(),
        },
    }
}

/// An entry with a name; entries without one are dropped.
pub open spec fn entry_spec(e: RawEntryV) -> Option<EntryV> {
    match e.name {
        None => None,
        Some(n) => Some(
            EntryV {
                name: trim(n),
                description: trimmed_opt(e.description),
                recommended: e.recommended,
                combos: match e.shortcut {
                    Some(cs) => cs.map_values(|c| combo_spec(c)),
                    None => Seq::empty(),
                },
            },
        ),
    }
}

pub open spec fn entries_spec(es: Seq<RawEntryV>) -> Seq<EntryV>
    decreases es.len(),
{
    if es.len() == 0 {
        Seq::empty()
    } else {
        match entry_spec(es.last()) {
            Some(e) => entries_spec(es.drop_last()).push(e),
            None => entries_spec(es.drop_last()),
        }
    }
}

/// The text between a leading '<' and the first '>' after it.
pub open spec fn angle_inner(t: Seq<char>) -> Option<Seq<char>> {
    if t.len() > 0 && t[0] == '<' && t.drop_first().contains('>') {
        Some(t.subrange(1, first_index(t, '>')))
    } else {
        None
    }
}

/// Index of the first `c` in `s` (`s.len()` when absent).
pub open spec fn first_index(s: Seq<char>, c: char) -> int {
    if s.contains(c) {
        choose|i: int| 0 <= i < s.len() && s[i] == c && forall|k: int| 0 <= k < i ==> s[k] != c
    } else {
        s.len() as int
    }
}

pub proof fn lemma_first_index_in(s: Seq<char>, c: char)
    requires
        s.contains(c),
    ensures
        0 <= first_index(s, c) < s.len(),
        s[first_index(s, c)] == c,
        forall|k: int| 0 <= k < first_index(s, c) ==> s[k] != c,
{
    let i = choose|i: int| 0 <= i < s.len() && s[i] == c;
    let mut j = i;
    // The choose in `first_index` has a witness: the least position of `c`.
    assert(exists|m: int| 0 <= m < s.len() && s[m] == c && forall|k: int| 0 <= k < m ==> s[k] != c) by {
        lemma_least_position(s, c, i);
    }
}

proof fn lemma_least_position(s: Seq<char>, c: char, i: int)
    requires
        0 <= i < s.len(),
        s[i] == c,
    ensures
        exists|m: int| 0 <= m < s.len() && s[m] == c && forall|k: int| 0 <= k < m ==> s[k] != c,
    decreases i,
{
    if exists|k: int| 0 <= k < i && s[k] == c {
        let k = choose|k: int| 0 <= k < i && s[k] == c;
        lemma_least_position(s, c, k);
    } else {
        assert(forall|k: int| 0 <= k < i ==> s[k] != c);
    }
}

/// A `<TASKBAR1-9>` section name (optionally followed by its title).
pub open spec fn is_taskbar_name(trimmed: Seq<char>) -> bool {
    match angle_inner(trimmed) {
        Some(inner) => eq_ci(trim(inner), TASKBAR_TOKEN@),
        None => false,
    }
}

/// The section's display name: for a taskbar section the text after the
/// tag (or "Taskbar"), otherwise the trimmed name.
pub open spec fn section_title(trimmed: Seq<char>) -> Seq<char> {
    if is_taskbar_name(trimmed) {
        let rest = trim(trimmed.subrange(first_index(trimmed, '>') + 1, trimmed.len() as int));
        if rest.len() == 0 {
            "Taskbar"@
        } else {
            rest
        }
    } else {
        trimmed
    }
}

pub open spec fn section_spec(c: RawCategoryV) -> SectionV {
    let trimmed = trim(
        match c.section_name {
            Some(n) => n,
            None => Seq::empty(),
        },
    );
    SectionV {
        name: section_title(trimmed),
        is_taskbar: is_taskbar_name(trimmed),
        is_meta: angle_inner(trimmed) is Some && !is_taskbar_name(trimmed),
        entries: match c.properties {
            Some(es) => entries_spec(es),
            None => Seq::empty(),
        },
    }
}

/// The typed manifest for a raw one; `fallback` is the package name used
/// when the file has none.
pub open spec fn normalize_spec(raw: RawManifestV, fallback: Seq<char>) -> ManifestV {
    ManifestV {
        id: match trimmed_opt(raw.package_name) {
            Some(p) => p,
            None => fallback,
        },
        name: trimmed_opt(raw.name),
        window_filters: trimmed_list(raw.window_filter),
        background_process: raw.background_process,
        host: match trimmed_opt(raw.host) {
            Some(h) => Some(lower_seq(h)),
            None => None,
        },
        title_match: trimmed_list(raw.title_match),
        icon: trimmed_opt(raw.icon),
        sections: match raw.shortcuts {
            Some(cs) => cs.map_values(|c| section_spec(c)),
            None => Seq::empty(),
        },
    }
}

// ---------------------------------------------------------------------------
// Normalization
// ---------------------------------------------------------------------------

fn trimmed_opt_exec(o: &Option<String>) -> (r: Option<String>)
    ensures
        crate::schema::opt_seq(r) == trimmed_opt(crate::schema::opt_seq(*o)),
{
    match o {
        Some(s) => {
            let t = trim_str(s.as_str());
            if t.as_str().is_empty() {
                None
            } else {
                Some(t)
            }
        },
        None => None,
    }
}

fn trimmed_list_exec(v: &Vec<String>) -> (r: Vec<String>)
    ensures
        r@.map_values(|s: String| s@) == trimmed_list(v@.map_values(|s: String| s@)),
{
    let ghost src = v@.map_values(|s: String| s@);
    let mut out: Vec<String> = Vec::new();
    for i in 0..v.len()
        invariant
            src == v@.map_values(|s: String| s@),
            out@.map_values(|s: String| s@) == trimmed_list(src.take(i as int)),
    {
        proof {
            assert(src.take(i + 1).drop_last() =~= src.take(i as int));
            assert(src.take(i + 1).last() == v@[i as int]@);
        }
        let t = trim_str(v[i].as_str());
        if !t.as_str().is_empty() {
            let ghost before = out@.map_values(|s: String| s@);
            out.push(t);
            assert(out@.map_values(|s: String| s@) =~= before.push(trim(src[i as int])));
        }
    }
    assert(src.take(v@.len() as int) =~= src);
    out
}

fn combo_exec(c: &RawKeyCombo) -> (r: KeyCombo)
    ensures
        r@ == combo_spec(c@),
{
    let mut keys: Vec<crate::keys::Key> = Vec::new();
    match &c.keys {
        Some(ks) => {
            for i in 0..ks.len()
                invariant
                    keys@.len() == i,
                    forall|j: int| 0 <= j < i ==> #[trigger] keys@[j]@ == normalize_token_spec(ks@[j]@),
            {
                keys.push(normalize_token(&ks[i]));
            }
        },
        None => {},
    }
    let r = KeyCombo { win: c.win.0, ctrl: c.ctrl.0, shift: c.shift.0, alt: c.alt.0, keys };
    assert(r@.keys =~= combo_spec(c@).keys);
    r
}

fn entry_exec(e: &RawEntry) -> (r: Option<Entry>)
    ensures
        match r {
            Some(x) => entry_spec(e@) == Some(x@),
            None => entry_spec(e@) is None,
        },
{
    let name = match &e.name {
        Some(n) => n,
        None => return None,
    };
    let mut combos: Vec<KeyCombo> = Vec::new();
    match &e.shortcut {
        Some(cs) => {
            for i in 0..cs.len()
                invariant
                    combos@.len() == i,
                    forall|j: int| 0 <= j < i ==> #[trigger] combos@[j]@ == combo_spec(cs@[j]@),
            {
                combos.push(combo_exec(&cs[i]));
            }
        },
        None => {},
    }
    let r = Entry {
        name: trim_str(name.as_str()),
        description: trimmed_opt_exec(&e.description),
        recommended: e.recommended.0,
        combos,
    };
    assert(r@.combos =~= entry_spec(e@)->0.combos);
    Some(r)
}

fn entries_exec(es: &Vec<RawEntry>) -> (r: Vec<Entry>)
    ensures
        crate::model::entries_view(r@) == entries_spec(crate::schema::raw_entries_view(es@)),
{
    let ghost src = crate::schema::raw_entries_view(es@);
    let mut out: Vec<Entry> = Vec::new();
    for i in 0..es.len()
        invariant
            src == crate::schema::raw_entries_view(es@),
            crate::model::entries_view(out@) == entries_spec(src.take(i as int)),
    {
        proof {
            assert(src.take(i + 1).drop_last() =~= src.take(i as int));
            assert(src.take(i + 1).last() == es@[i as int]@);
        }
        let ghost before = crate::model::entries_view(out@);
        match entry_exec(&es[i]) {
            Some(x) => {
                out.push(x);
                assert(crate::model::entries_view(out@) =~= before.push(x@));
            },
            None => {},
        }
    }
    assert(src.take(es@.len() as int) =~= src);
    out
}

/// The text between a leading '<' and the first '>', if any.
fn angle_inner_exec(t: &Vec<char>) -> (r: Option<Vec<char>>)
    ensures
        match r {
            Some(x) => angle_inner(t@) == Some(x@),
            None => angle_inner(t@) is None,
        },
{
    if t.len() == 0 || t[0] != '<' {
        return None;
    }
    match find_char(t, '>') {
        Some(i) => {
            proof {
                let j = choose|j: int| 0 <= j < t@.len() && t@[j] == '>' && forall|k: int| 0 <= k < j ==> t@[k] != '>';
                if j < i {
                } else if i < j {
                }
                assert(t@.drop_first()[i - 1] == '>');
            }
            Some(slice_chars(t, 1, i))
        },
        None => {
            proof {
                assert forall|k: int| 0 <= k < t@.drop_first().len() implies t@.drop_first()[k] != '>' by {
                    assert(t@.drop_first()[k] == t@[k + 1]);
                }
            }
            None
        },
    }
}

fn section_exec(c: &RawCategory) -> (r: Section)
    ensures
        r@ == section_spec(c@),
{
    let raw_name = match &c.section_name {
        Some(n) => chars_of(n.as_str()),
        None => Vec::new(),
    };
    let trimmed = trim_chars(&raw_name);
    let inner = angle_inner_exec(&trimmed);
    let is_taskbar = match &inner {
        Some(i) => {
            let ti = trim_chars(i);
            eq_ignore_case_str(&ti, TASKBAR_TOKEN)
        },
        None => false,
    };
    let is_meta = inner.is_some() && !is_taskbar;
    let name = if is_taskbar {
        // A taskbar name holds a '>' (its tag ends there).
        let gt = find_char(&trimmed, '>');
        match gt {
            Some(g) => {
                proof {
                    let j = choose|j: int|
                        0 <= j < trimmed@.len() && trimmed@[j] == '>' && forall|k: int| 0 <= k < j ==> trimmed@[k] != '>';
                    if j < g {
                    } else if g < j {
                    }
                }
                let after = slice_chars(&trimmed, g + 1, trimmed.len());
                let rest = trim_chars(&after);
                if rest.len() == 0 {
                    proof {
                        reveal_strlit("Taskbar");
                    }
                    String::from_str("Taskbar")
                } else {
                    string_of(&rest)
                }
            },
            None => {
                string_of(&trimmed)
            },
        }
    } else {
        string_of(&trimmed)
    };
    let entries = match &c.properties {
        Some(es) => entries_exec(es),
        None => Vec::new(),
    };
    proof {
        if is_taskbar {
            assert(trimmed@.contains('>'));
        }
        assert(crate::model::entries_view(entries@) =~= section_spec(c@).entries);
    }
    Section { name, is_taskbar, is_meta, entries }
}

/// The typed manifest for a raw one. `fallback_package_name` (usually the
/// file-name stem) is used when the file omits `PackageName`.
pub fn normalize(raw: &RawManifest, fallback_package_name: &str) -> (r: Manifest)
    ensures
        r@ == normalize_spec(raw@, fallback_package_name@),
{
    let mut sections: Vec<Section> = Vec::new();
    match &raw.shortcuts {
        Some(cs) => {
            for i in 0..cs.len()
                invariant
                    sections@.len() == i,
                    forall|j: int| 0 <= j < i ==> #[trigger] sections@[j]@ == section_spec(cs@[j]@),
            {
                sections.push(section_exec(&cs[i]));
            }
        },
        None => {},
    }
    let id = match trimmed_opt_exec(&raw.package_name) {
        Some(p) => p,
        None => String::from_str(fallback_package_name),
    };
    let host = match trimmed_opt_exec(&raw.host) {
        Some(h) => {
            let hv = chars_of(h.as_str());
            let lv = lower_chars(&hv);
            Some(string_of(&lv))
        },
        None => None,
    };
    let r = Manifest {
        id,
        name: trimmed_opt_exec(&raw.name),
        window_filters: trimmed_list_exec(&raw.window_filter.0),
        background_process: raw.background_process.0,
        host,
        title_match: trimmed_list_exec(&raw.title_match.0),
        icon: trimmed_opt_exec(&raw.icon),
        sections,
    };
    assert(r@.sections =~= normalize_spec(raw@, fallback_package_name@).sections);
    assert(r@.window_filters =~= normalize_spec(raw@, fallback_package_name@).window_filters);
    assert(r@.title_match =~= normalize_spec(raw@, fallback_package_name@).title_match);
    r
}

// ---------------------------------------------------------------------------
// File names
// ---------------------------------------------------------------------------

/// Every character before `n` is a lowercase ASCII letter.
pub open spec fn lower_prefix(s: Seq<char>, n: int) -> bool {
    forall|k: int| 0 <= k < n ==> is_lower(#[trigger] s[k])
}

/// Every character after `n` is an ASCII letter, digit or '-'.
pub open spec fn alnum_rest(s: Seq<char>, n: int) -> bool {
    forall|k: int| n < k < s.len() && s[k] != '-' ==> is_alnum(#[trigger] s[k])
}

/// The subtag after the '-' at `i` is non-empty and at most 8 long.
pub open spec fn subtag_ok(s: Seq<char>, i: int) -> bool {
    i + 1 < s.len() && s[i + 1] != '-' && (i + 9 >= s.len() || exists|k: int| i + 1 < k <= i + 9 && s[k] == '-')
}

/// Every subtag from `n` on is well formed.
pub open spec fn subtags_ok(s: Seq<char>, n: int) -> bool {
    forall|i: int| n <= i < s.len() && s[i] == '-' ==> #[trigger] subtag_ok(s, i)
}

/// `s` looks like a BCP-47 tag: a 2-3 letter lowercase language, then
/// '-'-separated subtags of 1 to 8 ASCII letters or digits.
pub open spec fn locale_ok(s: Seq<char>) -> bool {
    let n = first_index(s, '-');
    &&& 2 <= n <= 3
    &&& lower_prefix(s, n)
    &&& alnum_rest(s, n)
    &&& subtags_ok(s, n)
}

fn is_ascii_lower(c: char) -> (r: bool)
    ensures
        r == is_lower(c),
{
    'a' <= c && c <= 'z'
}

fn is_ascii_alnum(c: char) -> (r: bool)
    ensures
        r == is_alnum(c),
{
    ('a' <= c && c <= 'z') || ('A' <= c && c <= 'Z') || ('0' <= c && c <= '9')
}

fn subtag_check(s: &Vec<char>, i: usize) -> (r: bool)
    requires
        i < s.len(),
    ensures
        r == subtag_ok(s@, i as int),
{
    if i + 1 >= s.len() || s[i + 1] == '-' {
        return false;
    }
    if s.len() - i > 9 {
        let mut q = i + 2;
        while q <= i + 9
            invariant
                i + 9 < s.len(),
                i + 1 < s.len(),
                s@[i + 1] != '-',
                i + 2 <= q <= i + 10,
                forall|w: int| i + 1 < w < q ==> s@[w] != '-',
            decreases i + 10 - q,
        {
            if s[q] == '-' {
                assert(s@[q as int] == '-');
                return true;
            }
            q = q + 1;
        }
        false
    } else {
        true
    }
}

fn lower_prefix_check(s: &Vec<char>, n: usize) -> (r: bool)
    requires
        n <= s.len(),
    ensures
        r == lower_prefix(s@, n as int),
{
    for k in 0..n
        invariant
            n <= s.len(),
            forall|m: int| 0 <= m < k ==> is_lower(#[trigger] s@[m]),
    {
        if !is_ascii_lower(s[k]) {
            return false;
        }
    }
    true
}

fn alnum_rest_check(s: &Vec<char>, n: usize) -> (r: bool)
    requires
        n <= s.len(),
    ensures
        r == alnum_rest(s@, n as int),
{
    if n >= s.len() {
        return true;
    }
    let mut k = n + 1;
    while k < s.len()
        invariant
            n < k,
            n <= s.len(),
            forall|m: int| n < m < k && m < s@.len() && s@[m] != '-' ==> is_alnum(#[trigger] s@[m]),
        decreases s.len() - k,
    {
        if s[k] != '-' && !is_ascii_alnum(s[k]) {
            return false;
        }
        k = k + 1;
    }
    true
}

fn subtags_check(s: &Vec<char>, n: usize) -> (r: bool)
    requires
        n <= s.len(),
    ensures
        r == subtags_ok(s@, n as int),
{
    let mut i = n;
    while i < s.len()
        invariant
            n <= i <= s.len(),
            forall|m: int| n <= m < i && s@[m] == '-' ==> #[trigger] subtag_ok(s@, m),
        decreases s.len() - i,
    {
        if s[i] == '-' && !subtag_check(s, i) {
            return false;
        }
        i = i + 1;
    }
    true
}

pub fn looks_like_locale(s: &Vec<char>) -> (r: bool)
    ensures
        r == locale_ok(s@),
{
    let n = match find_char(s, '-') {
        Some(i) => i,
        None => s.len(),
    };
    proof {
        if s@.contains('-') {
            let j = choose|j: int| 0 <= j < s@.len() && s@[j] == '-' && forall|k: int| 0 <= k < j ==> s@[k] != '-';
            if j < n {
            } else if (n as int) < j {
            }
        }
        assert(first_index(s@, '-') == n);
    }
    if n < 2 || n > 3 {
        return false;
    }
    lower_prefix_check(s, n) && alnum_rest_check(s, n) && subtags_check(s, n)
}

/// Index of the last `c` in `s` (-1 when absent).
pub open spec fn last_index(s: Seq<char>, c: char) -> int {
    if s.contains(c) {
        choose|i: int| 0 <= i < s.len() && s[i] == c && forall|k: int| i < k < s.len() ==> s[k] != c
    } else {
        -1
    }
}

/// The file name without its ".yml" or ".yaml" extension.
pub open spec fn manifest_stem(f: Seq<char>) -> Option<Seq<char>> {
    if ends_with(f, ".yml"@) {
        Some(f.take(f.len() - 4))
    } else if ends_with(f, ".yaml"@) {
        Some(f.take(f.len() - 5))
    } else {
        None
    }
}

/// `<PackageName>.<locale>.yml` split into package name and locale. The
/// package name itself contains dots, so the last segment is the locale
/// only if it looks like one and a package name precedes it; otherwise the
/// whole stem is the package name and the locale is "en-US".
pub open spec fn split_filename_spec(f: Seq<char>) -> Option<(Seq<char>, Seq<char>)> {
    match manifest_stem(f) {
        None => None,
        Some(stem) => {
            let d = last_index(stem, '.');
            if d >= 0 && locale_ok(stem.skip(d + 1)) && d > 0 {
                Some((stem.take(d), stem.skip(d + 1)))
            } else {
                Some((stem, "en-US"@))
            }
        },
    }
}

pub fn split_filename(file_name: &str) -> (r: Option<(String, String)>)
    ensures
        match r {
            Some((p, l)) => split_filename_spec(file_name@) == Some((p@, l@)),
            None => split_filename_spec(file_name@) is None,
        },
{
    let f = chars_of(file_name);
    let yml = chars_of(".yml");
    let yaml = chars_of(".yaml");
    proof {
        reveal_strlit(".yml");
        reveal_strlit(".yaml");
    }
    let stem = if has_suffix(&f, &yml) {
        slice_chars(&f, 0, f.len() - 4)
    } else if has_suffix(&f, &yaml) {
        slice_chars(&f, 0, f.len() - 5)
    } else {
        return None;
    };
    assert(manifest_stem(file_name@) == Some(stem@));
    match rfind_char(&stem, '.') {
        Some(d) => {
            proof {
                let j = choose|j: int| 0 <= j < stem@.len() && stem@[j] == '.' && forall|k: int| j < k < stem@.len() ==> stem@[k] != '.';
                if j < d {
                } else if (d as int) < j {
                }
                assert(last_index(stem@, '.') == d);
            }
            let tail = slice_chars(&stem, d + 1, stem.len());
            assert(tail@ =~= stem@.skip(d + 1));
            if d > 0 && looks_like_locale(&tail) {
                let pkg = slice_chars(&stem, 0, d);
                assert(pkg@ =~= stem@.take(d as int));
                return Some((string_of(&pkg), string_of(&tail)));
            }
        },
        None => {},
    }
    proof {
        reveal_strlit("en-US");
    }
    Some((string_of(&stem), String::from_str("en-US")))
}

// ---------------------------------------------------------------------------
// Laws
// ---------------------------------------------------------------------------

/// The raw shortcuts of an entry (none when the field is absent).
pub open spec fn raw_shortcuts(e: RawEntryV) -> Seq<RawKeyComboV> {
    match e.shortcut {
        Some(cs) => cs,
        None => Seq::empty(),
    }
}

/// `out` shows the raw entry `raw` faithfully: same (trimmed) name, one
/// combo per raw shortcut in order, each with exactly the raw modifier
/// flags and as many keys as the raw shortcut lists.
pub open spec fn mirrors_raw(out: EntryV, raw: RawEntryV) -> bool {
    &&& raw.name is Some
    &&& out.name == trim(raw.name->0)
    &&& out.combos.len() == raw_shortcuts(raw).len()
    &&& forall|i: int|
        0 <= i < out.combos.len() ==> {
            let c = #[trigger] out.combos[i];
            let r = raw_shortcuts(raw)[i];
            &&& c.win == r.win
            &&& c.ctrl == r.ctrl
            &&& c.shift == r.shift
            &&& c.alt == r.alt
            &&& c.keys.len() == (match r.keys {
                Some(ks) => ks.len(),
                None => 0,
            })
        }
}

/// Normalizing a named entry keeps every shortcut's modifiers: Win, Ctrl,
/// Shift and Alt of each combo are those the raw document sets.
pub proof fn lemma_entry_keeps_modifiers(e: RawEntryV)
    requires
        e.name is Some,
    ensures
        entry_spec(e) is Some,
        mirrors_raw(entry_spec(e)->0, e),
{
}

proof fn lemma_entries_from_raw(es: Seq<RawEntryV>)
    ensures
        forall|j: int|
            0 <= j < entries_spec(es).len() ==> exists|k: int|
                0 <= k < es.len() && mirrors_raw(#[trigger] entries_spec(es)[j], es[k]),
    decreases es.len(),
{
    if es.len() > 0 {
        let init = es.drop_last();
        lemma_entries_from_raw(init);
        let prev = entries_spec(init);
        assert forall|j: int| 0 <= j < entries_spec(es).len() implies exists|k: int|
            0 <= k < es.len() && mirrors_raw(#[trigger] entries_spec(es)[j], es[k]) by {
            if j < prev.len() {
                assert(entries_spec(es)[j] == prev[j]);
                let k = choose|k: int| 0 <= k < init.len() && mirrors_raw(prev[j], init[k]);
                assert(es[k] == init[k]);
            } else {
                let k = es.len() - 1;
                assert(es[k] == es.last());
                lemma_entry_keeps_modifiers(es.last());
            }
        }
    }
}

/// Every entry of a normalized manifest comes from a named raw entry of the
/// same section and shows it faithfully, modifier flags included.
pub proof fn lemma_manifest_keeps_modifiers(raw: RawManifestV, fallback: Seq<char>, i: int, j: int)
    requires
        0 <= i < normalize_spec(raw, fallback).sections.len(),
        0 <= j < normalize_spec(raw, fallback).sections[i].entries.len(),
    ensures
        raw.shortcuts is Some,
        raw.shortcuts->0[i].properties is Some,
        exists|k: int|
            0 <= k < raw.shortcuts->0[i].properties->0.len() && mirrors_raw(
                normalize_spec(raw, fallback).sections[i].entries[j],
                #[trigger] raw.shortcuts->0[i].properties->0[k],
            ),
{
    let es = raw.shortcuts->0[i].properties->0;
    lemma_entries_from_raw(es);
    assert(normalize_spec(raw, fallback).sections[i].entries[j] == entries_spec(es)[j]);
}

} // verus!
