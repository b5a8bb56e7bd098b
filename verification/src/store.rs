//! The in-memory manifest index: source layering, locale selection, and
//! foreground matching. Reading manifest folders is the caller's business;
//! the store receives each parsed manifest with its source and locale.

use vstd::prelude::*;

use crate::host::HostClasses;
use crate::model::{normalize_exe, normalize_exe_spec, strs_view, Manifest, TitleBinding};
use crate::text::{
    chars_of, contains_chars, contains_sub, eq_ci, eq_ignore_case, eq_ignore_case_str, find_char,
    slice_chars, str_eq, trim, trim_str,
};
use vstd::utf8::encode_utf8;

verus! {

/// Where a manifest came from. Later sources override earlier ones for the
/// same `(PackageName, locale)` — whole-file override, no per-entry merging.
#[derive(Debug, Clone, Copy, PartialEq, Eq, Structural)]
pub enum SourceKind {
    /// Manifests shipped with Quicuts.
    Bundled,
    /// PowerToys Shortcut Guide's runtime folder.
    PtsgRuntime,
    /// User-authored manifests in Quicuts' config dir.
    User,
}

pub open spec fn source_rank(s: SourceKind) -> int {
    match s {
        SourceKind::Bundled => 0,
        SourceKind::PtsgRuntime => 1,
        SourceKind::User => 2,
    }
}

/// `a` comes from a later source than `b`.
pub fn source_after(a: SourceKind, b: SourceKind) -> (r: bool)
    ensures
        r == (source_rank(a) > source_rank(b)),
{
    match (a, b) {
        (SourceKind::User, SourceKind::User) => false,
        (SourceKind::User, _) => true,
        (SourceKind::PtsgRuntime, SourceKind::Bundled) => true,
        _ => false,
    }
}

#[derive(Debug)]
pub struct LoadedManifest {
    pub manifest: Manifest,
    pub source: SourceKind,
    pub locale: String,
    pub path: String,
}

/// The identity of a loaded manifest in the store: package id and locale.
pub open spec fn key_of(lm: LoadedManifest) -> (Seq<char>, Seq<char>) {
    (lm.manifest.id@, lm.locale@)
}

pub open spec fn unique_keys(e: Seq<LoadedManifest>) -> bool {
    forall|i: int, j: int|
        0 <= i < e.len() && 0 <= j < e.len() && i != j ==> key_of(#[trigger] e[i]) != key_of(#[trigger] e[j])
}

pub open spec fn has_key(e: Seq<LoadedManifest>, k: (Seq<char>, Seq<char>)) -> bool {
    exists|i: int| 0 <= i < e.len() && key_of(#[trigger] e[i]) == k
}

pub open spec fn map_of(e: Seq<LoadedManifest>) -> Map<(Seq<char>, Seq<char>), LoadedManifest> {
    Map::new(
        |k: (Seq<char>, Seq<char>)| has_key(e, k),
        |k: (Seq<char>, Seq<char>)| e[choose|i: int| 0 <= i < e.len() && key_of(#[trigger] e[i]) == k],
    )
}

/// The value stored under the key of entry `i` is entry `i`.
pub proof fn lemma_map_at(e: Seq<LoadedManifest>, i: int)
    requires
        unique_keys(e),
        0 <= i < e.len(),
    ensures
        map_of(e).dom().contains(key_of(e[i])),
        map_of(e)[key_of(e[i])] == e[i],
{
    let k = key_of(e[i]);
    assert(has_key(e, k));
    let j = choose|j: int| 0 <= j < e.len() && key_of(#[trigger] e[j]) == k;
    assert(j == i);
}

/// Every manifest loaded, one per `(package id, locale)`.
#[derive(Debug)]
pub struct ManifestStore {
    entries: Vec<LoadedManifest>,
}

impl View for ManifestStore {
    type V = Map<(Seq<char>, Seq<char>), LoadedManifest>;

    closed spec fn view(&self) -> Map<(Seq<char>, Seq<char>), LoadedManifest> {
        map_of(self.entries@)
    }
}

impl ManifestStore {
    #[verifier::type_invariant]
    spec fn wf(self) -> bool {
        unique_keys(self.entries@)
    }

    pub closed spec fn count(self) -> nat {
        self.entries@.len()
    }

    /// The store's contents are finite and counted by `count`.
    proof fn lemma_count(self)
        requires
            unique_keys(self.entries@),
        ensures
            self@.dom().finite(),
            self@.dom().len() == self.count(),
    {
        lemma_dom_len(self.entries@);
    }

    pub fn new() -> (r: ManifestStore)
        ensures
            r@ == Map::<(Seq<char>, Seq<char>), LoadedManifest>::empty(),
            r.count() == 0,
    {
        let r = ManifestStore { entries: Vec::new() };
        assert(r@ =~= Map::<(Seq<char>, Seq<char>), LoadedManifest>::empty());
        r
    }

    /// Add one parsed manifest. Whole-file override: a manifest from the
    /// same or a later source replaces the one stored under its
    /// `(package id, locale)`; one from an earlier source is dropped, so
    /// reloading a lower layer never downgrades a higher one.
    pub fn insert_loaded(&mut self, lm: LoadedManifest)
        ensures
            ({
                let k = key_of(lm);
                if old(self)@.dom().contains(k) && source_rank(old(self)@[k].source) > source_rank(
                    lm.source,
                ) {
                    final(self)@ == old(self)@
                } else {
                    final(self)@ == old(self)@.insert(k, lm)
                }
            }),
    {
        proof {
            use_type_invariant(&*self);
        }
        let ghost e = self.entries@;
        let ghost k = key_of(lm);
        let mut i: usize = 0;
        while i < self.entries.len()
            invariant
                0 <= i <= self.entries@.len(),
                self.entries@ == e,
                old(self)@ == map_of(e),
                unique_keys(e),
                k == key_of(lm),
                forall|j: int| 0 <= j < i ==> key_of(#[trigger] e[j]) != k,
            decreases self.entries@.len() - i,
        {
            if str_eq(self.entries[i].manifest.id.as_str(), lm.manifest.id.as_str()) && str_eq(
                self.entries[i].locale.as_str(),
                lm.locale.as_str(),
            ) {
                proof {
                    lemma_map_at(e, i as int);
                }
                if source_after(self.entries[i].source, lm.source) {
                    return ;
                }
                let mut entries = Vec::new();
                std::mem::swap(&mut entries, &mut self.entries);
                entries.set(i, lm);
                proof {
                    let e2 = entries@;
                    assert(e2 == e.update(i as int, lm));
                    assert(unique_keys(e2)) by {
                        assert forall|a: int, b: int|
                            0 <= a < e2.len() && 0 <= b < e2.len() && a != b implies key_of(
                                #[trigger] e2[a],
                            ) != key_of(#[trigger] e2[b]) by {
                            if a != i && b != i {
                                assert(key_of(e[a]) != key_of(e[b]));
                            } else if a == i {
                                assert(key_of(e[i as int]) != key_of(e[b]));
                            } else {
                                assert(key_of(e[i as int]) != key_of(e[a]));
                            }
                        }
                    }
                    lemma_update_map(e, i as int, lm);
                }
                self.entries = entries;
                return ;
            }
            i = i + 1;
        }
        proof {
            assert(!has_key(e, k));
        }
        let mut entries = Vec::new();
        std::mem::swap(&mut entries, &mut self.entries);
        entries.push(lm);
        proof {
            let e2 = entries@;
            assert(e2 == e.push(lm));
            assert(unique_keys(e2)) by {
                assert forall|a: int, b: int|
                    0 <= a < e2.len() && 0 <= b < e2.len() && a != b implies key_of(#[trigger] e2[a])
                        != key_of(#[trigger] e2[b]) by {
                    if a < e.len() && b < e.len() {
                        assert(key_of(e[a]) != key_of(e[b]));
                    } else if a < e.len() {
                        assert(key_of(e[a]) != k);
                    } else {
                        assert(key_of(e[b]) != k);
                    }
                }
            }
            lemma_push_map(e, lm);
        }
        self.entries = entries;
    }

    pub fn clear(&mut self)
        ensures
            final(self)@ == Map::<(Seq<char>, Seq<char>), LoadedManifest>::empty(),
            final(self).count() == 0,
    {
        self.entries = Vec::new();
        assert(self@ =~= Map::<(Seq<char>, Seq<char>), LoadedManifest>::empty());
    }

    /// How many `(package id, locale)` variants are stored.
    pub fn len(&self) -> (r: usize)
        ensures
            r == self.count(),
            r == self@.dom().len(),
    {
        proof {
            use_type_invariant(self);
            self.lemma_count();
        }
        self.entries.len()
    }

    pub fn is_empty(&self) -> (r: bool)
        ensures
            r == (self@.dom().len() == 0),
    {
        proof {
            use_type_invariant(self);
            self.lemma_count();
        }
        self.entries.len() == 0
    }
}

proof fn lemma_update_map(e: Seq<LoadedManifest>, i: int, lm: LoadedManifest)
    requires
        unique_keys(e),
        0 <= i < e.len(),
        key_of(e[i]) == key_of(lm),
        unique_keys(e.update(i, lm)),
    ensures
        map_of(e.update(i, lm)) == map_of(e).insert(key_of(lm), lm),
{
    let e2 = e.update(i, lm);
    let k = key_of(lm);
    assert forall|x: (Seq<char>, Seq<char>)| #[trigger] map_of(e2).dom().contains(x) == map_of(e).insert(k, lm).dom().contains(x) by {
        if has_key(e, x) {
            let j = choose|j: int| 0 <= j < e.len() && key_of(#[trigger] e[j]) == x;
            if j == i {
                assert(key_of(e2[i]) == x);
            } else {
                assert(e2[j] == e[j]);
            }
        }
        if has_key(e2, x) {
            let j = choose|j: int| 0 <= j < e2.len() && key_of(#[trigger] e2[j]) == x;
            if j != i {
                assert(e2[j] == e[j]);
            }
        }
    }
    assert forall|x: (Seq<char>, Seq<char>)| #[trigger] map_of(e2).dom().contains(x) implies map_of(e2)[x] == map_of(e).insert(k, lm)[x] by {
        let j = choose|j: int| 0 <= j < e2.len() && key_of(#[trigger] e2[j]) == x;
        lemma_map_at(e2, j);
        if j != i {
            assert(e2[j] == e[j]);
            lemma_map_at(e, j);
        }
    }
    assert(map_of(e2) =~= map_of(e).insert(k, lm));
}

proof fn lemma_push_map(e: Seq<LoadedManifest>, lm: LoadedManifest)
    requires
        unique_keys(e),
        !has_key(e, key_of(lm)),
        unique_keys(e.push(lm)),
    ensures
        map_of(e.push(lm)) == map_of(e).insert(key_of(lm), lm),
{
    let e2 = e.push(lm);
    let k = key_of(lm);
    assert forall|x: (Seq<char>, Seq<char>)| #[trigger] map_of(e2).dom().contains(x) == map_of(e).insert(k, lm).dom().contains(x) by {
        if has_key(e, x) {
            let j = choose|j: int| 0 <= j < e.len() && key_of(#[trigger] e[j]) == x;
            assert(e2[j] == e[j]);
        }
        if x == k {
            assert(key_of(e2[e.len() as int]) == x);
        }
        if has_key(e2, x) {
            let j = choose|j: int| 0 <= j < e2.len() && key_of(#[trigger] e2[j]) == x;
            if j < e.len() {
                assert(e2[j] == e[j]);
            }
        }
    }
    assert forall|x: (Seq<char>, Seq<char>)| #[trigger] map_of(e2).dom().contains(x) implies map_of(e2)[x] == map_of(e).insert(k, lm)[x] by {
        let j = choose|j: int| 0 <= j < e2.len() && key_of(#[trigger] e2[j]) == x;
        lemma_map_at(e2, j);
        if j < e.len() {
            assert(e2[j] == e[j]);
            lemma_map_at(e, j);
        }
    }
    assert(map_of(e2) =~= map_of(e).insert(k, lm));
}

proof fn lemma_dom_len(e: Seq<LoadedManifest>)
    requires
        unique_keys(e),
    ensures
        map_of(e).dom().finite(),
        map_of(e).dom().len() == e.len(),
    decreases e.len(),
{
    if e.len() == 0 {
        assert(map_of(e).dom() =~= Set::<(Seq<char>, Seq<char>)>::empty());
    } else {
        let p = e.drop_last();
        let lm = e.last();
        assert(unique_keys(p)) by {
            assert forall|a: int, b: int|
                0 <= a < p.len() && 0 <= b < p.len() && a != b implies key_of(#[trigger] p[a]) != key_of(
                    #[trigger] p[b],
                ) by {
                assert(p[a] == e[a] && p[b] == e[b]);
            }
        }
        lemma_dom_len(p);
        assert(!has_key(p, key_of(lm))) by {
            if has_key(p, key_of(lm)) {
                let j = choose|j: int| 0 <= j < p.len() && key_of(#[trigger] p[j]) == key_of(lm);
                assert(p[j] == e[j]);
                assert(key_of(e[j]) != key_of(e[e.len() - 1]));
            }
        }
        assert(p.push(lm) =~= e);
        lemma_push_map(p, lm);
        assert(map_of(e).dom() =~= map_of(p).dom().insert(key_of(lm)));
    }
}

/// Layering never downgrades: after any insertion, the variant stored under
/// a key comes from a source at least as late as the one stored before.
pub proof fn lemma_layering_never_downgrades(
    before: Map<(Seq<char>, Seq<char>), LoadedManifest>,
    after: Map<(Seq<char>, Seq<char>), LoadedManifest>,
    lm: LoadedManifest,
    k: (Seq<char>, Seq<char>),
)
    requires
        (if before.dom().contains(key_of(lm)) && source_rank(before[key_of(lm)].source) > source_rank(
            lm.source,
        ) {
            after == before
        } else {
            after == before.insert(key_of(lm), lm)
        }),
        before.dom().contains(k),
    ensures
        after.dom().contains(k),
        source_rank(after[k].source) >= source_rank(before[k].source),
        k != key_of(lm) ==> after[k] == before[k],
{
}

// ---------------------------------------------------------------------------
// String order and locale preference
// ---------------------------------------------------------------------------

/// Lexicographic order of character sequences: Rust's `str` order (UTF-8
/// byte order agrees with code point order).
pub open spec fn seq_lt(a: Seq<char>, b: Seq<char>) -> bool
    decreases a.len(),
{
    if a.len() == 0 {
        b.len() > 0
    } else if b.len() == 0 {
        false
    } else if a[0] != b[0] {
        a[0] < b[0]
    } else {
        seq_lt(a.drop_first(), b.drop_first())
    }
}

pub proof fn lemma_seq_lt_irreflexive(a: Seq<char>)
    ensures
        !seq_lt(a, a),
    decreases a.len(),
{
    if a.len() > 0 {
        lemma_seq_lt_irreflexive(a.drop_first());
    }
}

pub proof fn lemma_seq_lt_asym(a: Seq<char>, b: Seq<char>)
    ensures
        seq_lt(a, b) ==> !seq_lt(b, a),
    decreases a.len(),
{
    if a.len() > 0 && b.len() > 0 && a[0] == b[0] {
        lemma_seq_lt_asym(a.drop_first(), b.drop_first());
    }
}

pub proof fn lemma_seq_lt_trans(a: Seq<char>, b: Seq<char>, c: Seq<char>)
    requires
        seq_lt(a, b),
        seq_lt(b, c),
    ensures
        seq_lt(a, c),
    decreases a.len(),
{
    if a.len() > 0 && b.len() > 0 && c.len() > 0 && a[0] == b[0] && b[0] == c[0] {
        lemma_seq_lt_trans(a.drop_first(), b.drop_first(), c.drop_first());
    }
}

pub proof fn lemma_seq_lt_total(a: Seq<char>, b: Seq<char>)
    ensures
        a != b ==> seq_lt(a, b) || seq_lt(b, a),
    decreases a.len(),
{
    if a.len() > 0 && b.len() > 0 {
        if a[0] == b[0] {
            lemma_seq_lt_total(a.drop_first(), b.drop_first());
            if a.drop_first() == b.drop_first() {
                assert(a =~= seq![a[0]] + a.drop_first());
                assert(b =~= seq![b[0]] + b.drop_first());
            }
        }
    } else if a.len() == 0 && b.len() == 0 {
        assert(a =~= b);
    }
}

/// `a < b` in string order.
pub fn lex_lt(a: &Vec<char>, b: &Vec<char>) -> (r: bool)
    ensures
        r == seq_lt(a@, b@),
{
    let mut i: usize = 0;
    assert(a@.skip(0) =~= a@ && b@.skip(0) =~= b@);
    while i < a.len() && i < b.len()
        invariant
            i <= a.len(),
            i <= b.len(),
            seq_lt(a@, b@) == seq_lt(a@.skip(i as int), b@.skip(i as int)),
        decreases a.len() - i,
    {
        if a[i] != b[i] {
            proof {
                assert(a@.skip(i as int)[0] == a@[i as int]);
                assert(b@.skip(i as int)[0] == b@[i as int]);
            }
            return a[i] < b[i];
        }
        proof {
            assert(a@.skip(i as int).drop_first() =~= a@.skip(i + 1));
            assert(b@.skip(i as int).drop_first() =~= b@.skip(i + 1));
        }
        i = i + 1;
    }
    i < b.len()
}

/// Position of the first '-' in `s`, or its length.
pub open spec fn lang_len(s: Seq<char>) -> int {
    if s.contains('-') {
        choose|i: int| 0 <= i < s.len() && s[i] == '-' && forall|k: int| 0 <= k < i ==> s[k] != '-'
    } else {
        s.len() as int
    }
}

/// The language part of a locale: everything before the first '-'.
pub open spec fn lang_of(s: Seq<char>) -> Seq<char> {
    s.take(lang_len(s))
}

fn lang_chars(s: &Vec<char>) -> (r: Vec<char>)
    ensures
        r@ == lang_of(s@),
{
    match find_char(s, '-') {
        Some(i) => {
            proof {
                let j = choose|j: int|
                    0 <= j < s@.len() && s@[j] == '-' && forall|k: int| 0 <= k < j ==> s@[k] != '-';
                assert(s@[i as int] == '-');
                if j < i {
                } else if i < j {
                }
                assert(j == i);
            }
            slice_chars(s, 0, i)
        },
        None => {
            assert(s@.take(s@.len() as int) =~= s@);
            slice_chars(s, 0, s.len())
        },
    }
}

/// How well a manifest locale serves the UI locale: exact (any case) 3,
/// same language 2, en-US 1, anything else 0.
pub open spec fn locale_rank(locale: Seq<char>, ui: Seq<char>) -> int {
    if eq_ci(locale, ui) {
        3
    } else if eq_ci(lang_of(locale), lang_of(ui)) {
        2
    } else if eq_ci(locale, "en-US"@) {
        1
    } else {
        0
    }
}

fn rank_of(locale: &Vec<char>, ui: &Vec<char>, ui_lang: &Vec<char>) -> (r: u8)
    requires
        ui_lang@ == lang_of(ui@),
    ensures
        r as int == locale_rank(locale@, ui@),
{
    if eq_ignore_case(locale, ui) {
        3
    } else {
        let l = lang_chars(locale);
        if eq_ignore_case(&l, ui_lang) {
            2
        } else if eq_ignore_case_str(locale, "en-US") {
            1
        } else {
            0
        }
    }
}

/// Among the variants of one package, `a` is preferred over `b`: a better
/// locale rank, or on a tie the smaller locale name.
pub open spec fn preferred(a: LoadedManifest, b: LoadedManifest, ui: Seq<char>) -> bool {
    locale_rank(a.locale@, ui) > locale_rank(b.locale@, ui) || (locale_rank(a.locale@, ui)
        == locale_rank(b.locale@, ui) && seq_lt(a.locale@, b.locale@))
}

/// `lm` is the variant of its package shown for UI locale `ui`.
pub open spec fn selected(m: Map<(Seq<char>, Seq<char>), LoadedManifest>, ui: Seq<char>, lm: LoadedManifest) -> bool {
    &&& m.dom().contains(key_of(lm))
    &&& m[key_of(lm)] == lm
    &&& forall|k: (Seq<char>, Seq<char>)|
        #![trigger m.dom().contains(k)]
        m.dom().contains(k) && k.0 == lm.manifest.id@ && k != key_of(lm) ==> preferred(lm, m[k], ui)
}

/// `l` is the store's package list for `ui`: one selected variant per
/// package, in package-id order.
pub open spec fn localized_ok(
    m: Map<(Seq<char>, Seq<char>), LoadedManifest>,
    ui: Seq<char>,
    l: Seq<LoadedManifest>,
) -> bool {
    &&& forall|i: int| 0 <= i < l.len() ==> selected(m, ui, #[trigger] l[i])
    &&& forall|i: int, j: int|
        0 <= i < j < l.len() ==> seq_lt((#[trigger] l[i]).manifest.id@, (#[trigger] l[j]).manifest.id@)
    &&& forall|k: (Seq<char>, Seq<char>)|
        #![trigger m.dom().contains(k)]
        m.dom().contains(k) ==> exists|i: int| 0 <= i < l.len() && (#[trigger] l[i]).manifest.id@ == k.0
}

proof fn lemma_preferred_trans(a: LoadedManifest, b: LoadedManifest, c: LoadedManifest, ui: Seq<char>)
    requires
        preferred(a, b, ui),
        preferred(b, c, ui),
    ensures
        preferred(a, c, ui),
{
    if seq_lt(a.locale@, b.locale@) && seq_lt(b.locale@, c.locale@) {
        lemma_seq_lt_trans(a.locale@, b.locale@, c.locale@);
    }
}

proof fn lemma_preferred_total(a: LoadedManifest, b: LoadedManifest, ui: Seq<char>)
    requires
        a.locale@ != b.locale@,
    ensures
        preferred(a, b, ui) || preferred(b, a, ui),
        !(preferred(a, b, ui) && preferred(b, a, ui)),
{
    lemma_seq_lt_total(a.locale@, b.locale@);
    lemma_seq_lt_asym(a.locale@, b.locale@);
}

/// The manifests at positions `idx` of `e`.
pub open spec fn pick(e: Seq<LoadedManifest>, idx: Seq<usize>) -> Seq<LoadedManifest> {
    Seq::new(idx.len(), |i: int| e[idx[i] as int])
}

pub open spec fn id_at(e: Seq<LoadedManifest>, j: int) -> Seq<char> {
    e[j].manifest.id@
}

/// Some kept position holds the package of entry `j`.
pub open spec fn covered(e: Seq<LoadedManifest>, best: Seq<usize>, j: int) -> bool {
    exists|p: int| 0 <= p < best.len() && id_at(e, #[trigger] best[p] as int) == id_at(e, j)
}

impl ManifestStore {
    /// Positions of the selected variants, in package-id order.
    fn localized_indices(&self, ui: &str) -> (r: Vec<usize>)
        ensures
            forall|p: int| 0 <= p < r@.len() ==> #[trigger] r@[p] < self.entries@.len(),
            localized_ok(self@, ui@, pick(self.entries@, r@)),
    {
        proof {
            use_type_invariant(self);
        }
        let ghost e = self.entries@;
        let uiv = chars_of(ui);
        let ui_lang = lang_chars(&uiv);
        let n = self.entries.len();
        let mut ids: Vec<Vec<char>> = Vec::new();
        let mut locs: Vec<Vec<char>> = Vec::new();
        let mut ranks: Vec<u8> = Vec::new();
        for j in 0..n
            invariant
                n == e.len(),
                e == self.entries@,
                ui_lang@ == lang_of(uiv@),
                uiv@ == ui@,
                ids@.len() == j && locs@.len() == j && ranks@.len() == j,
                forall|q: int| 0 <= q < j ==> (#[trigger] ids@[q])@ == id_at(e, q),
                forall|q: int| 0 <= q < j ==> (#[trigger] locs@[q])@ == e[q].locale@,
                forall|q: int| 0 <= q < j ==> (#[trigger] ranks@[q]) as int == locale_rank(e[q].locale@, ui@),
        {
            let lm = &self.entries[j];
            let lv = chars_of(lm.locale.as_str());
            ranks.push(rank_of(&lv, &uiv, &ui_lang));
            locs.push(lv);
            ids.push(chars_of(lm.manifest.id.as_str()));
        }
        let mut best: Vec<usize> = Vec::new();
        for i in 0..n
            invariant
                n == e.len(),
                unique_keys(e),
                ids@.len() == n && locs@.len() == n && ranks@.len() == n,
                forall|q: int| 0 <= q < n ==> (#[trigger] ids@[q])@ == id_at(e, q),
                forall|q: int| 0 <= q < n ==> (#[trigger] locs@[q])@ == e[q].locale@,
                forall|q: int| 0 <= q < n ==> (#[trigger] ranks@[q]) as int == locale_rank(e[q].locale@, ui@),
                forall|p: int| 0 <= p < best@.len() ==> #[trigger] best@[p] < i,
                forall|p: int, q: int|
                    0 <= p < q < best@.len() ==> seq_lt(id_at(e, #[trigger] best@[p] as int), id_at(e, #[trigger] best@[q] as int)),
                forall|j: int| 0 <= j < i ==> #[trigger] covered(e, best@, j),
                forall|p: int, j: int|
                    0 <= p < best@.len() && 0 <= j < i && j != best@[p] && id_at(e, j) == id_at(e, #[trigger] best@[p] as int)
                        ==> preferred(e[best@[p] as int], #[trigger] e[j], ui@),
        {
            // Find the first kept package whose id is not below this one.
            let mut p: usize = 0;
            while p < best.len() && lex_lt(&ids[best[p]], &ids[i])
                invariant
                    p <= best@.len(),
                    i < n,
                    ids@.len() == n,
                    forall|q: int| 0 <= q < n ==> (#[trigger] ids@[q])@ == id_at(e, q),
                    forall|q: int| 0 <= q < best@.len() ==> #[trigger] best@[q] < i,
                    forall|q: int| 0 <= q < p ==> seq_lt(id_at(e, #[trigger] best@[q] as int), id_at(e, i as int)),
                decreases best@.len() - p,
            {
                p = p + 1;
            }
            let ghost old_best = best@;
            if p < best.len() && crate::text::seq_eq(&ids[best[p]], &ids[i]) {
                let b = best[p];
                proof {
                    assert(key_of(e[b as int]) != key_of(e[i as int]));
                    lemma_preferred_total(e[i as int], e[b as int], ui@);
                }
                if ranks[i] > ranks[b] || (ranks[i] == ranks[b] && lex_lt(&locs[i], &locs[b])) {
                    best.set(p, i);
                    proof {
                        assert forall|q: int, j: int|
                            0 <= q < best@.len() && 0 <= j < i + 1 && j != best@[q] && id_at(e, j) == id_at(e, #[trigger] best@[q] as int)
                                implies preferred(e[best@[q] as int], #[trigger] e[j], ui@) by {
                            if q == p {
                                if j != b {
                                    lemma_preferred_trans(e[i as int], e[b as int], e[j], ui@);
                                }
                            } else {
                                assert(best@[q] == old_best[q]);
                                if j == i {
                                    // Distinct kept packages have distinct ids.
                                    if q < p {
                                        assert(seq_lt(id_at(e, old_best[q] as int), id_at(e, old_best[p as int] as int)));
                                    } else {
                                        assert(seq_lt(id_at(e, old_best[p as int] as int), id_at(e, old_best[q] as int)));
                                    }
                                    lemma_seq_lt_irreflexive(id_at(e, i as int));
                                }
                            }
                        }
                        assert forall|j: int| 0 <= j < i + 1 implies #[trigger] covered(e, best@, j) by {
                            if j == i {
                                assert(id_at(e, best@[p as int] as int) == id_at(e, j));
                            } else {
                                assert(covered(e, old_best, j));
                                let q = choose|q: int| 0 <= q < old_best.len() && id_at(e, #[trigger] old_best[q] as int) == id_at(e, j);
                                if q == p {
                                    assert(id_at(e, best@[p as int] as int) == id_at(e, j));
                                } else {
                                    assert(best@[q] == old_best[q]);
                                }
                            }
                        }
                    }
                } else {
                    proof {
                        assert forall|q: int, j: int|
                            0 <= q < best@.len() && 0 <= j < i + 1 && j != best@[q] && id_at(e, j) == id_at(e, #[trigger] best@[q] as int)
                                implies preferred(e[best@[q] as int], #[trigger] e[j], ui@) by {
                            if j == i && q != p {
                                if q < p {
                                    assert(seq_lt(id_at(e, old_best[q] as int), id_at(e, old_best[p as int] as int)));
                                } else {
                                    assert(seq_lt(id_at(e, old_best[p as int] as int), id_at(e, old_best[q] as int)));
                                }
                                lemma_seq_lt_irreflexive(id_at(e, i as int));
                            }
                        }
                        assert forall|j: int| 0 <= j < i + 1 implies #[trigger] covered(e, best@, j) by {
                            if j == i {
                                assert(id_at(e, best@[p as int] as int) == id_at(e, j));
                            }
                        }
                    }
                }
            } else {
                proof {
                    if p < best@.len() {
                        lemma_seq_lt_total(id_at(e, best@[p as int] as int), id_at(e, i as int));
                    }
                }
                best.insert(p, i);
                proof {
                    assert forall|q: int| 0 <= q < best@.len() implies #[trigger] best@[q] < i + 1 by {
                        if q < p {
                            assert(best@[q] == old_best[q]);
                        } else if q > p {
                            assert(best@[q] == old_best[q - 1]);
                        }
                    }
                    assert forall|a: int, b: int|
                        0 <= a < b < best@.len() implies seq_lt(id_at(e, #[trigger] best@[a] as int), id_at(e, #[trigger] best@[b] as int)) by {
                        if b < p {
                            assert(best@[a] == old_best[a] && best@[b] == old_best[b]);
                        } else if b == p {
                            assert(best@[a] == old_best[a]);
                        } else if a == p {
                            assert(best@[b] == old_best[b - 1]);
                            if b - 1 > p {
                                assert(seq_lt(id_at(e, old_best[p as int] as int), id_at(e, old_best[b - 1] as int)));
                                lemma_seq_lt_trans(id_at(e, i as int), id_at(e, old_best[p as int] as int), id_at(e, old_best[b - 1] as int));
                            }
                        } else if a < p {
                            assert(best@[a] == old_best[a] && best@[b] == old_best[b - 1]);
                            if a < p - 1 || b - 1 > p - 1 {
                                assert(seq_lt(id_at(e, old_best[a] as int), id_at(e, old_best[b - 1] as int)));
                            }
                        } else {
                            assert(best@[a] == old_best[a - 1] && best@[b] == old_best[b - 1]);
                        }
                    }
                    assert forall|j: int| 0 <= j < i + 1 implies #[trigger] covered(e, best@, j) by {
                        if j == i {
                            assert(id_at(e, best@[p as int] as int) == id_at(e, j));
                        } else {
                            assert(covered(e, old_best, j));
                            let q = choose|q: int| 0 <= q < old_best.len() && id_at(e, #[trigger] old_best[q] as int) == id_at(e, j);
                            if q < p {
                                assert(best@[q] == old_best[q]);
                            } else {
                                assert(best@[q + 1] == old_best[q]);
                            }
                        }
                    }
                    assert forall|q: int, j: int|
                        0 <= q < best@.len() && 0 <= j < i + 1 && j != best@[q] && id_at(e, j) == id_at(e, #[trigger] best@[q] as int)
                            implies preferred(e[best@[q] as int], #[trigger] e[j], ui@) by {
                        if q == p {
                            // No earlier entry shares the new package's id.
                            if j < i {
                                assert(covered(e, old_best, j));
                                let r = choose|r: int| 0 <= r < old_best.len() && id_at(e, #[trigger] old_best[r] as int) == id_at(e, j);
                                if r < p {
                                    lemma_seq_lt_irreflexive(id_at(e, i as int));
                                } else {
                                    lemma_seq_lt_irreflexive(id_at(e, i as int));
                                    if r > p {
                                        lemma_seq_lt_trans(id_at(e, i as int), id_at(e, old_best[p as int] as int), id_at(e, old_best[r] as int));
                                    }
                                }
                            }
                        } else {
                            let oq = if q < p { q } else { q - 1 };
                            assert(best@[q] == old_best[oq]);
                            if j == i {
                                if oq < p {
                                    lemma_seq_lt_irreflexive(id_at(e, i as int));
                                } else {
                                    lemma_seq_lt_irreflexive(id_at(e, i as int));
                                    if oq > p {
                                        lemma_seq_lt_trans(id_at(e, i as int), id_at(e, old_best[p as int] as int), id_at(e, old_best[oq] as int));
                                    }
                                }
                            }
                        }
                    }
                }
            }
        }
        proof {
            let l = pick(e, best@);
            let m = self@;
            assert forall|x: int| 0 <= x < l.len() implies selected(m, ui@, #[trigger] l[x]) by {
                let bx = best@[x] as int;
                lemma_map_at(e, bx);
                assert forall|k: (Seq<char>, Seq<char>)|
                    #![trigger m.dom().contains(k)]
                    m.dom().contains(k) && k.0 == l[x].manifest.id@ && k != key_of(l[x]) implies preferred(l[x], m[k], ui@) by {
                    let j = choose|j: int| 0 <= j < e.len() && key_of(#[trigger] e[j]) == k;
                    lemma_map_at(e, j);
                    assert(id_at(e, j) == id_at(e, best@[x] as int));
                }
            }
            assert forall|a: int, b: int|
                0 <= a < b < l.len() implies seq_lt((#[trigger] l[a]).manifest.id@, (#[trigger] l[b]).manifest.id@) by {
                assert(seq_lt(id_at(e, best@[a] as int), id_at(e, best@[b] as int)));
            }
            assert forall|k: (Seq<char>, Seq<char>)|
                #![trigger m.dom().contains(k)]
                m.dom().contains(k) implies exists|x: int| 0 <= x < l.len() && (#[trigger] l[x]).manifest.id@ == k.0 by {
                let j = choose|j: int| 0 <= j < e.len() && key_of(#[trigger] e[j]) == k;
                assert(covered(e, best@, j));
                let q = choose|q: int| 0 <= q < best@.len() && id_at(e, #[trigger] best@[q] as int) == id_at(e, j);
                assert(l[q].manifest.id@ == k.0);
            }
        }
        best
    }
}

// ---------------------------------------------------------------------------
// Foreground matching
// ---------------------------------------------------------------------------

/// Which matching rule admitted a manifest into the rail.
#[derive(Debug, Clone, Copy, PartialEq, Eq, Structural)]
pub enum MatchKind {
    /// A window filter names the foreground identity.
    Exact,
    /// Hosted collection whose host class contains the foreground identity.
    Hosted,
    /// The "*" filter.
    Wildcard,
    /// `BackgroundProcess: true` (always on with "*", else while running).
    Background,
}

#[derive(Debug)]
pub struct Matched<'a> {
    pub kind: MatchKind,
    pub lm: &'a LoadedManifest,
}

pub open spec fn opt_str(o: Option<&str>) -> Option<Seq<char>> {
    match o {
        Some(s) => Some(s@),
        None => None,
    }
}

/// The rail group a manifest joins, in rail order: 0 exact, 1 hosted,
/// 2 wildcard, 3 background while its process runs, 4 always-on
/// background. A hosted collection joins only through its host class.
/// `running` holds normalized identities of live processes.
pub open spec fn rail_group(m: Manifest, fg: Option<Seq<char>>, hc: HostClasses, running: Seq<Seq<char>>) -> Option<int> {
    match m.host {
        Some(class) => match fg {
            Some(f) => if hc.contains_spec(class@, f) {
                Some(1)
            } else {
                None
            },
            None => None,
        },
        None => if m.background_process {
            if m.is_wildcard_spec() {
                Some(4)
            } else if running.contains(normalize_exe_spec(m.primary_filter_spec())) {
                Some(3)
            } else {
                None
            }
        } else if m.is_wildcard_spec() {
            Some(2)
        } else {
            match fg {
                Some(f) => if m.matches_identity_spec(f) {
                    Some(0)
                } else {
                    None
                },
                None => None,
            }
        },
    }
}

pub open spec fn kind_of_group(g: int) -> MatchKind {
    if g == 0 {
        MatchKind::Exact
    } else if g == 1 {
        MatchKind::Hosted
    } else if g == 2 {
        MatchKind::Wildcard
    } else {
        MatchKind::Background
    }
}

fn contains_name(list: &Vec<String>, name: &str) -> (r: bool)
    ensures
        r == strs_view(list@).contains(name@),
{
    for i in 0..list.len()
        invariant
            forall|j: int| 0 <= j < i ==> #[trigger] list@[j]@ != name@,
    {
        if str_eq(list[i].as_str(), name) {
            assert(strs_view(list@)[i as int] == name@);
            return true;
        }
    }
    assert forall|j: int| 0 <= j < strs_view(list@).len() implies strs_view(list@)[j] != name@ by {
        assert(strs_view(list@)[j] == list@[j]@);
    }
    false
}

fn group_exec(m: &Manifest, fg: Option<&str>, hc: &HostClasses, running: &Vec<String>) -> (r: Option<u8>)
    ensures
        match r {
            Some(g) => rail_group(*m, opt_str(fg), *hc, strs_view(running@)) == Some(g as int),
            None => rail_group(*m, opt_str(fg), *hc, strs_view(running@)) is None,
        },
{
    match &m.host {
        Some(class) => match fg {
            Some(f) => if hc.contains(class.as_str(), f) {
                Some(1)
            } else {
                None
            },
            None => None,
        },
        None => {
            if m.background_process {
                if m.is_wildcard() {
                    Some(4)
                } else {
                    let n = normalize_exe(m.primary_filter());
                    if contains_name(running, n.as_str()) {
                        Some(3)
                    } else {
                        None
                    }
                }
            } else if m.is_wildcard() {
                Some(2)
            } else {
                match fg {
                    Some(f) => if m.matches_identity(f) {
                        Some(0)
                    } else {
                        None
                    },
                    None => None,
                }
            }
        },
    }
}

fn kind_exec(g: u8) -> (k: MatchKind)
    ensures
        k == kind_of_group(g as int),
{
    if g == 0 {
        MatchKind::Exact
    } else if g == 1 {
        MatchKind::Hosted
    } else if g == 2 {
        MatchKind::Wildcard
    } else {
        MatchKind::Background
    }
}

/// Rail order: by group, then by package id.
pub open spec fn rail_before(g1: int, a: LoadedManifest, g2: int, b: LoadedManifest) -> bool {
    g1 < g2 || (g1 == g2 && seq_lt(a.manifest.id@, b.manifest.id@))
}

/// `r` is the rail for this foreground: every selected variant that some
/// rule admits, tagged with its rule, in rail order.
pub open spec fn rail_ok(
    m: Map<(Seq<char>, Seq<char>), LoadedManifest>,
    ui: Seq<char>,
    fg: Option<Seq<char>>,
    hc: HostClasses,
    running: Seq<Seq<char>>,
    r: Seq<Matched>,
) -> bool {
    &&& forall|i: int|
        #![trigger r[i]]
        0 <= i < r.len() ==> selected(m, ui, *r[i].lm) && rail_group(r[i].lm.manifest, fg, hc, running) is Some
            && r[i].kind == kind_of_group(rail_group(r[i].lm.manifest, fg, hc, running)->0)
    &&& forall|i: int, j: int|
        #![trigger r[i], r[j]]
        0 <= i < j < r.len() ==> rail_before(
            rail_group(r[i].lm.manifest, fg, hc, running)->0,
            *r[i].lm,
            rail_group(r[j].lm.manifest, fg, hc, running)->0,
            *r[j].lm,
        )
    &&& forall|k: (Seq<char>, Seq<char>)|
        #![trigger m.dom().contains(k)]
        m.dom().contains(k) && selected(m, ui, m[k]) && rail_group(m[k].manifest, fg, hc, running) is Some
            ==> exists|i: int| 0 <= i < r.len() && *(#[trigger] r[i]).lm == m[k]
}

/// What the rail builder guarantees about its output, in terms of the
/// positions `pos` it took from the package list `l` with groups `gs`.
pub open spec fn rail_built(
    e: Seq<LoadedManifest>,
    l: Seq<usize>,
    gs: Seq<Option<u8>>,
    out: Seq<Matched>,
    pos: Seq<int>,
    g: int,
    x: int,
) -> bool {
    &&& pos.len() == out.len()
    &&& forall|t: int|
        0 <= t < pos.len() ==> 0 <= #[trigger] pos[t] < l.len() && gs[pos[t]] is Some && (gs[pos[t]]->0 < g || (
        gs[pos[t]]->0 == g && pos[t] < x)) && *out[t].lm == e[l[pos[t]] as int] && out[t].kind
            == kind_of_group(gs[pos[t]]->0 as int)
    &&& forall|t: int, u: int|
        0 <= t < u < pos.len() ==> (gs[#[trigger] pos[t]]->0 < gs[#[trigger] pos[u]]->0 || (gs[pos[t]]->0
            == gs[pos[u]]->0 && pos[t] < pos[u]))
    &&& forall|p: int|
        0 <= p < l.len() && (#[trigger] gs[p]) is Some && (gs[p]->0 < g || (gs[p]->0 == g && p < x)) ==> exists|t: int|
            0 <= t < pos.len() && #[trigger] pos[t] == p
}

pub open spec fn groups_ok(
    e: Seq<LoadedManifest>,
    l: Seq<usize>,
    gs: Seq<Option<u8>>,
    fg: Option<Seq<char>>,
    hc: HostClasses,
    rv: Seq<Seq<char>>,
    n: int,
) -> bool {
    forall|p: int|
        0 <= p < n ==> match #[trigger] gs[p] {
            Some(h) => rail_group(e[l[p] as int].manifest, fg, hc, rv) == Some(h as int),
            None => rail_group(e[l[p] as int].manifest, fg, hc, rv) is None,
        }
}

impl ManifestStore {
    fn groups_of(&self, l: &Vec<usize>, foreground: Option<&str>, host_classes: &HostClasses, running: &Vec<String>) -> (gs: Vec<Option<u8>>)
        requires
            forall|p: int| 0 <= p < l@.len() ==> #[trigger] l@[p] < self.entries@.len(),
        ensures
            gs@.len() == l@.len(),
            groups_ok(self.entries@, l@, gs@, opt_str(foreground), *host_classes, strs_view(running@), l@.len() as int),
    {
        let mut gs: Vec<Option<u8>> = Vec::new();
        for x in 0..l.len()
            invariant
                gs@.len() == x,
                forall|p: int| 0 <= p < l@.len() ==> #[trigger] l@[p] < self.entries@.len(),
                groups_ok(self.entries@, l@, gs@, opt_str(foreground), *host_classes, strs_view(running@), x as int),
        {
            gs.push(group_exec(&self.entries[l[x]].manifest, foreground, host_classes, running));
        }
        gs
    }

    fn build_rail<'a>(&'a self, l: &Vec<usize>, gs: &Vec<Option<u8>>) -> (res: (Vec<Matched<'a>>, Ghost<Seq<int>>))
        requires
            gs@.len() == l@.len(),
            forall|p: int| 0 <= p < l@.len() ==> #[trigger] l@[p] < self.entries@.len(),
        ensures
            rail_built(self.entries@, l@, gs@, res.0@, res.1@, 5, 0),
    {
        let ghost e = self.entries@;
        let mut out: Vec<Matched<'a>> = Vec::new();
        let ghost mut pos: Seq<int> = Seq::empty();
        let mut g: u8 = 0;
        while g < 5
            invariant
                g <= 5,
                e == self.entries@,
                gs@.len() == l@.len(),
                forall|p: int| 0 <= p < l@.len() ==> #[trigger] l@[p] < e.len(),
                rail_built(e, l@, gs@, out@, pos, g as int, 0),
            decreases 5 - g,
        {
            for x in 0..l.len()
                invariant
                    g < 5,
                    e == self.entries@,
                    gs@.len() == l@.len(),
                    forall|p: int| 0 <= p < l@.len() ==> #[trigger] l@[p] < e.len(),
                    rail_built(e, l@, gs@, out@, pos, g as int, x as int),
            {
                if gs[x] == Some(g) {
                    let k = kind_exec(g);
                    let ghost before = pos;
                    out.push(Matched { kind: k, lm: &self.entries[l[x]] });
                    proof {
                        pos = pos.push(x as int);
                        assert forall|p: int|
                            0 <= p < l@.len() && (#[trigger] gs@[p]) is Some && (gs@[p]->0 < g || (gs@[p]->0 == g && p < x + 1))
                                implies exists|t: int| 0 <= t < pos.len() && #[trigger] pos[t] == p by {
                            if p == x {
                                assert(pos[pos.len() - 1] == p);
                            } else {
                                let t = choose|t: int| 0 <= t < before.len() && #[trigger] before[t] == p;
                                assert(pos[t] == p);
                            }
                        }
                        assert forall|t: int| 0 <= t < pos.len() implies 0 <= #[trigger] pos[t] < l@.len() && gs@[pos[t]] is Some && (gs@[pos[t]]->0 < g || (
                            gs@[pos[t]]->0 == g && pos[t] < x + 1)) && *out@[t].lm == e[l@[pos[t]] as int] && out@[t].kind
                                == kind_of_group(gs@[pos[t]]->0 as int) by {
                            if t < before.len() {
                                assert(pos[t] == before[t]);
                            }
                        }
                        assert forall|t: int, u: int|
                            0 <= t < u < pos.len() implies (gs@[#[trigger] pos[t]]->0 < gs@[#[trigger] pos[u]]->0 || (gs@[pos[t]]->0
                                == gs@[pos[u]]->0 && pos[t] < pos[u])) by {
                            if u < before.len() {
                                assert(pos[t] == before[t] && pos[u] == before[u]);
                            } else {
                                assert(pos[t] == before[t]);
                            }
                        }
                    }
                } else {
                    proof {
                        assert forall|p: int|
                            0 <= p < l@.len() && (#[trigger] gs@[p]) is Some && (gs@[p]->0 < g || (gs@[p]->0 == g && p < x + 1))
                                implies exists|t: int| 0 <= t < pos.len() && #[trigger] pos[t] == p by {
                            if p == x {
                                assert(gs@[p]->0 != g);
                            }
                        }
                    }
                }
            }
            proof {
                assert forall|p: int|
                    0 <= p < l@.len() && (#[trigger] gs@[p]) is Some && (gs@[p]->0 < g + 1 || (gs@[p]->0 == g + 1 && p < 0))
                        implies exists|t: int| 0 <= t < pos.len() && #[trigger] pos[t] == p by {
                    assert(gs@[p]->0 < g || (gs@[p]->0 == g && p < l@.len()));
                }
            }
            g = g + 1;
        }
        (out, Ghost(pos))
    }

    /// The rail for a foreground identity (exe name or bundle id): exact
    /// filter matches, then hosted collections of the foreground's host
    /// class, then "*" manifests, then background manifests (those whose
    /// process is in `running`, then the always-on "*" ones), each group in
    /// package-id order, one locale variant per package.
    pub fn match_foreground<'a>(
        &'a self,
        foreground: Option<&str>,
        ui_locale: &str,
        host_classes: &HostClasses,
        running: &Vec<String>,
    ) -> (r: Vec<Matched<'a>>)
        ensures
            rail_ok(self@, ui_locale@, opt_str(foreground), *host_classes, strs_view(running@), r@),
    {
        let l = self.localized_indices(ui_locale);
        let gs = self.groups_of(&l, foreground, host_classes, running);
        let (out, Ghost(pos)) = self.build_rail(&l, &gs);
        proof {
            use_type_invariant(self);
            lemma_keyed(self.entries@);
            lemma_rail_sound(
                self@,
                self.entries@,
                ui_locale@,
                opt_str(foreground),
                *host_classes,
                strs_view(running@),
                l@,
                gs@,
                out@,
                pos,
            );
            lemma_rail_complete(
                self@,
                self.entries@,
                ui_locale@,
                opt_str(foreground),
                *host_classes,
                strs_view(running@),
                l@,
                gs@,
                out@,
                pos,
            );
        }
        out
    }
}

/// Every stored variant sits under its own key.
pub open spec fn keyed(m: Map<(Seq<char>, Seq<char>), LoadedManifest>) -> bool {
    forall|k: (Seq<char>, Seq<char>)| #[trigger] m.dom().contains(k) ==> key_of(m[k]) == k
}

proof fn lemma_keyed(e: Seq<LoadedManifest>)
    requires
        unique_keys(e),
    ensures
        keyed(map_of(e)),
{
    assert forall|k: (Seq<char>, Seq<char>)| #[trigger] map_of(e).dom().contains(k) implies key_of(map_of(e)[k]) == k by {
        let j = choose|j: int| 0 <= j < e.len() && key_of(#[trigger] e[j]) == k;
        lemma_map_at(e, j);
    }
}

/// Two selected variants of one package are the same variant.
proof fn lemma_selected_unique(
    m: Map<(Seq<char>, Seq<char>), LoadedManifest>,
    ui: Seq<char>,
    a: LoadedManifest,
    b: LoadedManifest,
)
    requires
        keyed(m),
        selected(m, ui, a),
        selected(m, ui, b),
        a.manifest.id@ == b.manifest.id@,
    ensures
        a == b,
{
    if a != b {
        assert(key_of(a) != key_of(b));
        assert(m.dom().contains(key_of(b)));
        assert(m.dom().contains(key_of(a)));
        lemma_preferred_total(a, b, ui);
        assert(preferred(a, m[key_of(b)], ui));
        assert(preferred(b, m[key_of(a)], ui));
    }
}

/// The locale fallback order: the variant shown for UI locale `ui` is
/// never beaten by another variant of its package that serves `ui` better.
/// An exact locale (any case) wins over everything; failing that, a variant
/// in the UI's language wins over en-US; failing that, en-US wins over any
/// other locale.
pub proof fn lemma_locale_fallback_order(
    m: Map<(Seq<char>, Seq<char>), LoadedManifest>,
    ui: Seq<char>,
    lm: LoadedManifest,
    k: (Seq<char>, Seq<char>),
)
    requires
        selected(m, ui, lm),
        m.dom().contains(k),
        k.0 == lm.manifest.id@,
    ensures
        eq_ci(m[k].locale@, ui) ==> eq_ci(lm.locale@, ui),
        eq_ci(lang_of(m[k].locale@), lang_of(ui)) ==> eq_ci(lm.locale@, ui) || eq_ci(
            lang_of(lm.locale@),
            lang_of(ui),
        ),
        eq_ci(m[k].locale@, "en-US"@) ==> eq_ci(lm.locale@, ui) || eq_ci(lang_of(lm.locale@), lang_of(ui))
            || eq_ci(lm.locale@, "en-US"@),
{
    if k != key_of(lm) {
        assert(preferred(lm, m[k], ui));
    }
}

/// Two selected variants of one package in a store are the same variant.
pub proof fn lemma_selected_unique_pub(
    m: Map<(Seq<char>, Seq<char>), LoadedManifest>,
    ui: Seq<char>,
    a: LoadedManifest,
    b: LoadedManifest,
)
    requires
        keyed(m),
        selected(m, ui, a),
        selected(m, ui, b),
        a.manifest.id@ == b.manifest.id@,
    ensures
        a == b,
{
    lemma_selected_unique(m, ui, a, b);
}

proof fn lemma_rail_sound(
    m: Map<(Seq<char>, Seq<char>), LoadedManifest>,
    e: Seq<LoadedManifest>,
    ui: Seq<char>,
    fg: Option<Seq<char>>,
    hc: HostClasses,
    rv: Seq<Seq<char>>,
    l: Seq<usize>,
    gs: Seq<Option<u8>>,
    r: Seq<Matched>,
    pos: Seq<int>,
)
    requires
        forall|p: int| 0 <= p < l.len() ==> #[trigger] l[p] < e.len(),
        gs.len() == l.len(),
        localized_ok(m, ui, pick(e, l)),
        groups_ok(e, l, gs, fg, hc, rv, l.len() as int),
        rail_built(e, l, gs, r, pos, 5, 0),
    ensures
        forall|i: int|
            #![trigger r[i]]
            0 <= i < r.len() ==> selected(m, ui, *r[i].lm) && rail_group(r[i].lm.manifest, fg, hc, rv) is Some
                && r[i].kind == kind_of_group(rail_group(r[i].lm.manifest, fg, hc, rv)->0),
        forall|i: int, j: int|
            #![trigger r[i], r[j]]
            0 <= i < j < r.len() ==> rail_before(
                rail_group(r[i].lm.manifest, fg, hc, rv)->0,
                *r[i].lm,
                rail_group(r[j].lm.manifest, fg, hc, rv)->0,
                *r[j].lm,
            ),
{
    let lv = pick(e, l);
    assert forall|i: int| #![trigger r[i]] 0 <= i < r.len() implies selected(m, ui, *r[i].lm)
        && rail_group(r[i].lm.manifest, fg, hc, rv) is Some && r[i].kind == kind_of_group(
        rail_group(r[i].lm.manifest, fg, hc, rv)->0,
    ) by {
        let p = pos[i];
        assert(lv[p] == e[l[p] as int]);
        assert(gs[p] is Some);
    }
    assert forall|i: int, j: int| #![trigger r[i], r[j]] 0 <= i < j < r.len() implies rail_before(
        rail_group(r[i].lm.manifest, fg, hc, rv)->0,
        *r[i].lm,
        rail_group(r[j].lm.manifest, fg, hc, rv)->0,
        *r[j].lm,
    ) by {
        let p = pos[i];
        let q = pos[j];
        assert(gs[p] is Some && gs[q] is Some);
        assert(lv[p] == e[l[p] as int] && lv[q] == e[l[q] as int]);
        if gs[p]->0 == gs[q]->0 {
            assert(p < q);
            assert(seq_lt(lv[p].manifest.id@, lv[q].manifest.id@));
        }
    }
}

proof fn lemma_rail_complete(
    m: Map<(Seq<char>, Seq<char>), LoadedManifest>,
    e: Seq<LoadedManifest>,
    ui: Seq<char>,
    fg: Option<Seq<char>>,
    hc: HostClasses,
    rv: Seq<Seq<char>>,
    l: Seq<usize>,
    gs: Seq<Option<u8>>,
    r: Seq<Matched>,
    pos: Seq<int>,
)
    requires
        keyed(m),
        forall|p: int| 0 <= p < l.len() ==> #[trigger] l[p] < e.len(),
        gs.len() == l.len(),
        localized_ok(m, ui, pick(e, l)),
        groups_ok(e, l, gs, fg, hc, rv, l.len() as int),
        rail_built(e, l, gs, r, pos, 5, 0),
    ensures
        forall|k: (Seq<char>, Seq<char>)|
            #![trigger m.dom().contains(k)]
            m.dom().contains(k) && selected(m, ui, m[k]) && rail_group(m[k].manifest, fg, hc, rv) is Some
                ==> exists|i: int| 0 <= i < r.len() && *(#[trigger] r[i]).lm == m[k],
{
    let lv = pick(e, l);
    assert forall|k: (Seq<char>, Seq<char>)|
        #![trigger m.dom().contains(k)]
        m.dom().contains(k) && selected(m, ui, m[k]) && rail_group(m[k].manifest, fg, hc, rv) is Some implies exists|i: int|
            0 <= i < r.len() && *(#[trigger] r[i]).lm == m[k] by {
        let p = choose|p: int| 0 <= p < lv.len() && (#[trigger] lv[p]).manifest.id@ == k.0;
        assert(selected(m, ui, lv[p]));
        lemma_selected_unique(m, ui, lv[p], m[k]);
        assert(lv[p] == e[l[p] as int]);
        assert(gs[p] is Some);
        let t = choose|t: int| 0 <= t < pos.len() && #[trigger] pos[t] == p;
        assert(*r[t].lm == m[k]);
    }
}

// ---------------------------------------------------------------------------
// Lookup, hosted collections, title detection
// ---------------------------------------------------------------------------

impl ManifestStore {
    /// The variant of package `id` shown for `ui_locale`, if the package is
    /// loaded at all.
    pub fn get(&self, id: &str, ui_locale: &str) -> (r: Option<&LoadedManifest>)
        ensures
            keyed(self@),
            match r {
                Some(lm) => selected(self@, ui_locale@, *lm) && lm.manifest.id@ == id@,
                None => forall|k: (Seq<char>, Seq<char>)| #[trigger] self@.dom().contains(k) ==> k.0 != id@,
            },
    {
        proof {
            use_type_invariant(self);
            lemma_keyed(self.entries@);
        }
        let l = self.localized_indices(ui_locale);
        let ghost lv = pick(self.entries@, l@);
        for x in 0..l.len()
            invariant
                forall|p: int| 0 <= p < l@.len() ==> #[trigger] l@[p] < self.entries@.len(),
                lv == pick(self.entries@, l@),
                localized_ok(self@, ui_locale@, lv),
                forall|p: int| 0 <= p < x ==> (#[trigger] lv[p]).manifest.id@ != id@,
        {
            if str_eq(self.entries[l[x]].manifest.id.as_str(), id) {
                assert(lv[x as int] == self.entries@[l@[x as int] as int]);
                return Some(&self.entries[l[x]]);
            }
            assert(lv[x as int] == self.entries@[l@[x as int] as int]);
        }
        None
    }

    /// Installed hosted collections (one variant per package, in package-id
    /// order): the valid targets for a title binding.
    pub fn hosted<'a>(&'a self, ui_locale: &str) -> (r: Vec<&'a LoadedManifest>)
        ensures
            forall|i: int| 0 <= i < r@.len() ==> selected(self@, ui_locale@, *#[trigger] r@[i]) && r@[i].manifest.host is Some,
            forall|i: int, j: int|
                0 <= i < j < r@.len() ==> seq_lt((#[trigger] r@[i]).manifest.id@, (#[trigger] r@[j]).manifest.id@),
            forall|k: (Seq<char>, Seq<char>)|
                #![trigger self@.dom().contains(k)]
                self@.dom().contains(k) && selected(self@, ui_locale@, self@[k]) && self@[k].manifest.host is Some
                    ==> exists|i: int| 0 <= i < r@.len() && *#[trigger] r@[i] == self@[k],
    {
        proof {
            use_type_invariant(self);
            lemma_keyed(self.entries@);
        }
        let l = self.localized_indices(ui_locale);
        let ghost lv = pick(self.entries@, l@);
        let mut out: Vec<&'a LoadedManifest> = Vec::new();
        let ghost mut pos: Seq<int> = Seq::empty();
        for x in 0..l.len()
            invariant
                forall|p: int| 0 <= p < l@.len() ==> #[trigger] l@[p] < self.entries@.len(),
                lv == pick(self.entries@, l@),
                pos.len() == out@.len(),
                forall|t: int| 0 <= t < pos.len() ==> 0 <= #[trigger] pos[t] < x && *out@[t] == lv[pos[t]] && lv[pos[t]].manifest.host is Some,
                forall|t: int, u: int| 0 <= t < u < pos.len() ==> #[trigger] pos[t] < #[trigger] pos[u],
                forall|p: int| 0 <= p < x && (#[trigger] lv[p]).manifest.host is Some ==> exists|t: int| 0 <= t < pos.len() && #[trigger] pos[t] == p,
        {
            assert(lv[x as int] == self.entries@[l@[x as int] as int]);
            if self.entries[l[x]].manifest.host.is_some() {
                let ghost before = pos;
                out.push(&self.entries[l[x]]);
                proof {
                    pos = pos.push(x as int);
                    assert forall|p: int| 0 <= p < x + 1 && (#[trigger] lv[p]).manifest.host is Some implies exists|t: int| 0 <= t < pos.len() && #[trigger] pos[t] == p by {
                        if p == x {
                            assert(pos[pos.len() - 1] == p);
                        } else {
                            let t = choose|t: int| 0 <= t < before.len() && #[trigger] before[t] == p;
                            assert(pos[t] == p);
                        }
                    }
                }
            }
        }
        proof {
            lemma_hosted_ok(self@, ui_locale@, lv, out@, pos);
        }
        out
    }
}

proof fn lemma_hosted_ok(
    m: Map<(Seq<char>, Seq<char>), LoadedManifest>,
    ui: Seq<char>,
    lv: Seq<LoadedManifest>,
    r: Seq<&LoadedManifest>,
    pos: Seq<int>,
)
    requires
        keyed(m),
        localized_ok(m, ui, lv),
        pos.len() == r.len(),
        forall|t: int| 0 <= t < pos.len() ==> 0 <= #[trigger] pos[t] < lv.len() && *r[t] == lv[pos[t]] && lv[pos[t]].manifest.host is Some,
        forall|t: int, u: int| 0 <= t < u < pos.len() ==> #[trigger] pos[t] < #[trigger] pos[u],
        forall|p: int| 0 <= p < lv.len() && (#[trigger] lv[p]).manifest.host is Some ==> exists|t: int| 0 <= t < pos.len() && #[trigger] pos[t] == p,
    ensures
        forall|i: int| 0 <= i < r.len() ==> selected(m, ui, *#[trigger] r[i]) && r[i].manifest.host is Some,
        forall|i: int, j: int| 0 <= i < j < r.len() ==> seq_lt((#[trigger] r[i]).manifest.id@, (#[trigger] r[j]).manifest.id@),
        forall|k: (Seq<char>, Seq<char>)|
            #![trigger m.dom().contains(k)]
            m.dom().contains(k) && selected(m, ui, m[k]) && m[k].manifest.host is Some ==> exists|i: int| 0 <= i < r.len() && *#[trigger] r[i] == m[k],
{
    assert forall|i: int| 0 <= i < r.len() implies selected(m, ui, *#[trigger] r[i]) && r[i].manifest.host is Some by {
        assert(selected(m, ui, lv[pos[i]]));
    }
    assert forall|i: int, j: int| 0 <= i < j < r.len() implies seq_lt((#[trigger] r[i]).manifest.id@, (#[trigger] r[j]).manifest.id@) by {
        assert(pos[i] < pos[j]);
        assert(seq_lt(lv[pos[i]].manifest.id@, lv[pos[j]].manifest.id@));
    }
    assert forall|k: (Seq<char>, Seq<char>)|
        #![trigger m.dom().contains(k)]
        m.dom().contains(k) && selected(m, ui, m[k]) && m[k].manifest.host is Some implies exists|i: int| 0 <= i < r.len() && *#[trigger] r[i] == m[k] by {
        let p = choose|p: int| 0 <= p < lv.len() && (#[trigger] lv[p]).manifest.id@ == k.0;
        lemma_selected_unique(m, ui, lv[p], m[k]);
        let t = choose|t: int| 0 <= t < pos.len() && #[trigger] pos[t] == p;
        assert(*r[t] == m[k]);
    }
}

/// Unicode lowercase of a string, as `str::to_lowercase` computes it.
pub uninterp spec fn unicode_lower(s: Seq<char>) -> Seq<char>;

/// `str::to_lowercase`: the full Unicode lowercase mapping. Its result
/// depends on the string alone; the mapping itself is not restated here.
#[verifier::external_body]
fn to_lowercase(s: &str) -> (r: String)
    ensures
        r@ == unicode_lower(s@),
{
    s.to_lowercase()
}

/// A title pattern hits a title: case-insensitive substring, the pattern
/// trimmed and non-empty.
pub open spec fn pattern_hits(pattern: Seq<char>, title: Seq<char>) -> bool {
    trim(pattern).len() > 0 && contains_sub(unicode_lower(title), unicode_lower(trim(pattern)))
}

/// A pattern's weight: its trimmed length in UTF-8 bytes.
pub open spec fn pattern_len(pattern: Seq<char>) -> int {
    encode_utf8(trim(pattern)).len() as int
}

/// User binding `b` hits the title for `lm` with weight `n`.
pub open spec fn binding_hit(lm: LoadedManifest, title: Seq<char>, b: TitleBinding, n: int) -> bool {
    b.manifest_id@ == lm.manifest.id@ && pattern_hits(b.pattern@, title) && pattern_len(b.pattern@) == n
}

/// A hit scored `(user, len)`: `user` for a user binding, `len` the
/// pattern's weight.
pub open spec fn has_hit(lm: LoadedManifest, title: Seq<char>, bindings: Seq<TitleBinding>, user: bool, len: int) -> bool {
    if user {
        exists|b: int| 0 <= b < bindings.len() && #[trigger] binding_hit(lm, title, bindings[b], len)
    } else {
        exists|q: int|
            0 <= q < lm.manifest.title_match@.len() && pattern_hits(#[trigger] lm.manifest.title_match@[q]@, title)
                && pattern_len(lm.manifest.title_match@[q]@) == len
    }
}

/// Score order: a user binding beats a manifest pattern, then the longer
/// pattern wins.
pub open spec fn score_lt(u1: bool, l1: int, u2: bool, l2: int) -> bool {
    (!u1 && u2) || (u1 == u2 && l1 < l2)
}

/// `lm` takes part in title detection for this foreground: a hosted
/// collection whose host class contains the foreground identity.
pub open spec fn gated(lm: LoadedManifest, fg: Seq<char>, hc: HostClasses) -> bool {
    match lm.manifest.host {
        Some(class) => hc.contains_spec(class@, fg),
        None => false,
    }
}

/// No hit of any candidate outranks the hit `(u, n)` of `lm`; an equal hit
/// only belongs to a package whose id is not smaller.
pub open spec fn outranks_all(
    m: Map<(Seq<char>, Seq<char>), LoadedManifest>,
    ui: Seq<char>,
    fg: Seq<char>,
    title: Seq<char>,
    hc: HostClasses,
    bindings: Seq<TitleBinding>,
    lm: LoadedManifest,
    u: bool,
    n: int,
) -> bool {
    forall|k: (Seq<char>, Seq<char>), u2: bool, n2: int|
        #![trigger m.dom().contains(k), has_hit(m[k], title, bindings, u2, n2)]
        m.dom().contains(k) && selected(m, ui, m[k]) && gated(m[k], fg, hc) && has_hit(m[k], title, bindings, u2, n2)
            ==> score_lt(u2, n2, u, n) || (u2 == u && n2 == n && !seq_lt(m[k].manifest.id@, lm.manifest.id@))
}

/// No candidate has any hit.
pub open spec fn no_hit(
    m: Map<(Seq<char>, Seq<char>), LoadedManifest>,
    ui: Seq<char>,
    fg: Seq<char>,
    title: Seq<char>,
    hc: HostClasses,
    bindings: Seq<TitleBinding>,
) -> bool {
    forall|k: (Seq<char>, Seq<char>), u: bool, n: int|
        #![trigger m.dom().contains(k), has_hit(m[k], title, bindings, u, n)]
        m.dom().contains(k) && selected(m, ui, m[k]) && gated(m[k], fg, hc) ==> !has_hit(m[k], title, bindings, u, n)
}

/// `lm` wins title detection: a candidate with a hit that no other hit
/// outranks.
pub open spec fn title_winner(
    m: Map<(Seq<char>, Seq<char>), LoadedManifest>,
    ui: Seq<char>,
    fg: Seq<char>,
    title: Seq<char>,
    hc: HostClasses,
    bindings: Seq<TitleBinding>,
    lm: LoadedManifest,
) -> bool {
    &&& selected(m, ui, lm)
    &&& gated(lm, fg, hc)
    &&& exists|u: bool, n: int|
        #![trigger has_hit(lm, title, bindings, u, n)]
        has_hit(lm, title, bindings, u, n) && outranks_all(m, ui, fg, title, hc, bindings, lm, u, n)
}

/// The outcome of title detection over the store's variants for `ui`.
pub open spec fn title_match_ok(
    m: Map<(Seq<char>, Seq<char>), LoadedManifest>,
    ui: Seq<char>,
    fg: Option<Seq<char>>,
    title: Option<Seq<char>>,
    hc: HostClasses,
    bindings: Seq<TitleBinding>,
    r: Option<LoadedManifest>,
) -> bool {
    if fg is Some && title is Some {
        let f = fg->0;
        let tt = title->0;
        match r {
            None => no_hit(m, ui, f, tt, hc, bindings),
            Some(lm) => title_winner(m, ui, f, tt, hc, bindings, lm),
        }
    } else {
        r is None
    }
}

/// Weight of `pattern` if it hits the lowercased title `tl`.
fn hit_len(pattern: &str, tl: &Vec<char>, Ghost(title): Ghost<Seq<char>>) -> (r: Option<usize>)
    requires
        tl@ == unicode_lower(title),
    ensures
        match r {
            Some(n) => pattern_hits(pattern@, title) && pattern_len(pattern@) == n,
            None => !pattern_hits(pattern@, title),
        },
{
    let p = trim_str(pattern);
    if p.as_str().is_empty() {
        return None;
    }
    let pl = to_lowercase(p.as_str());
    let plv = chars_of(pl.as_str());
    if contains_chars(tl, &plv) {
        Some(p.as_str().as_bytes().len())
    } else {
        None
    }
}

/// The heaviest user binding of `lm` that hits the title.
fn best_binding(lm: &LoadedManifest, tl: &Vec<char>, bindings: &[TitleBinding], Ghost(title): Ghost<Seq<char>>) -> (r: Option<usize>)
    requires
        tl@ == unicode_lower(title),
    ensures
        match r {
            None => forall|n: int| !#[trigger] has_hit(*lm, title, bindings@, true, n),
            Some(n) => has_hit(*lm, title, bindings@, true, n as int) && forall|m: int|
                #[trigger] has_hit(*lm, title, bindings@, true, m) ==> m <= n,
        },
{
    let mut best: Option<usize> = None;
    for b in 0..bindings.len()
        invariant
            tl@ == unicode_lower(title),
            match best {
                None => forall|c: int, m: int| 0 <= c < b ==> !#[trigger] binding_hit(*lm, title, bindings@[c], m),
                Some(n) => has_hit(*lm, title, bindings@, true, n as int) && forall|c: int, m: int|
                    0 <= c < b && #[trigger] binding_hit(*lm, title, bindings@[c], m) ==> m <= n,
            },
    {
        if str_eq(bindings[b].manifest_id.as_str(), lm.manifest.id.as_str()) {
            match hit_len(bindings[b].pattern.as_str(), tl, Ghost(title)) {
                Some(n) => {
                    assert(binding_hit(*lm, title, bindings@[b as int], n as int));
                    let better = match best {
                        None => true,
                        Some(m) => n > m,
                    };
                    if better {
                        best = Some(n);
                    }
                },
                None => {},
            }
        }
    }
    best
}

/// The heaviest `TitleMatch` pattern of `lm` that hits the title.
fn best_pattern(lm: &LoadedManifest, tl: &Vec<char>, Ghost(title): Ghost<Seq<char>>, Ghost(bindings): Ghost<Seq<TitleBinding>>) -> (r: Option<usize>)
    requires
        tl@ == unicode_lower(title),
    ensures
        match r {
            None => forall|n: int| !#[trigger] has_hit(*lm, title, bindings, false, n),
            Some(n) => has_hit(*lm, title, bindings, false, n as int) && forall|m: int|
                #[trigger] has_hit(*lm, title, bindings, false, m) ==> m <= n,
        },
{
    let tm = &lm.manifest.title_match;
    let mut best: Option<usize> = None;
    for t in 0..tm.len()
        invariant
            tl@ == unicode_lower(title),
            tm@ == lm.manifest.title_match@,
            match best {
                None => forall|c: int| 0 <= c < t ==> !pattern_hits(#[trigger] tm@[c]@, title),
                Some(n) => has_hit(*lm, title, bindings, false, n as int) && forall|c: int|
                    0 <= c < t && pattern_hits(#[trigger] tm@[c]@, title) ==> pattern_len(tm@[c]@) <= n,
            },
    {
        match hit_len(tm[t].as_str(), tl, Ghost(title)) {
            Some(n) => {
                let better = match best {
                    None => true,
                    Some(m) => n > m,
                };
                if better {
                    best = Some(n);
                }
            },
            None => {},
        }
    }
    best
}

/// The best hit of one collection: its heaviest user binding if any hits,
/// else its heaviest own pattern.
fn best_hit(lm: &LoadedManifest, tl: &Vec<char>, bindings: &[TitleBinding], Ghost(title): Ghost<Seq<char>>) -> (r: Option<(bool, usize)>)
    requires
        tl@ == unicode_lower(title),
    ensures
        match r {
            None => forall|u: bool, n: int| !#[trigger] has_hit(*lm, title, bindings@, u, n),
            Some((u, n)) => has_hit(*lm, title, bindings@, u, n as int) && forall|u2: bool, n2: int|
                #[trigger] has_hit(*lm, title, bindings@, u2, n2) ==> !score_lt(u, n as int, u2, n2),
        },
{
    match best_binding(lm, tl, bindings, Ghost(title)) {
        Some(n) => Some((true, n)),
        None => match best_pattern(lm, tl, Ghost(title), Ghost(bindings@)) {
            Some(n) => Some((false, n)),
            None => None,
        },
    }
}

/// The loop state of title detection over the first `x` packages of `lv`.
pub open spec fn choice_ok(
    lv: Seq<LoadedManifest>,
    fg: Seq<char>,
    t: Seq<char>,
    hc: HostClasses,
    bindings: Seq<TitleBinding>,
    chosen: Option<(usize, bool, usize)>,
    x: int,
) -> bool {
    match chosen {
        None => forall|p: int, u: bool, n: int|
            #![trigger has_hit(lv[p], t, bindings, u, n)]
            0 <= p < x && gated(lv[p], fg, hc) ==> !has_hit(lv[p], t, bindings, u, n),
        Some((c, cu, cn)) => c < x && gated(lv[c as int], fg, hc) && has_hit(lv[c as int], t, bindings, cu, cn as int)
            && forall|p: int, u: bool, n: int|
            #![trigger has_hit(lv[p], t, bindings, u, n)]
            0 <= p < x && gated(lv[p], fg, hc) && has_hit(lv[p], t, bindings, u, n) ==> score_lt(u, n, cu, cn as int) || (u
                == cu && n == cn && c <= p),
    }
}

proof fn lemma_choice_none(
    m: Map<(Seq<char>, Seq<char>), LoadedManifest>,
    ui: Seq<char>,
    lv: Seq<LoadedManifest>,
    fg: Seq<char>,
    t: Seq<char>,
    hc: HostClasses,
    bindings: Seq<TitleBinding>,
)
    requires
        keyed(m),
        localized_ok(m, ui, lv),
        choice_ok(lv, fg, t, hc, bindings, None, lv.len() as int),
    ensures
        title_match_ok(m, ui, Some(fg), Some(t), hc, bindings, None),
{
    assert forall|k: (Seq<char>, Seq<char>), u: bool, n: int|
        #![trigger m.dom().contains(k), has_hit(m[k], t, bindings, u, n)]
        m.dom().contains(k) && selected(m, ui, m[k]) && gated(m[k], fg, hc) implies !has_hit(m[k], t, bindings, u, n) by {
        let p = choose|p: int| 0 <= p < lv.len() && (#[trigger] lv[p]).manifest.id@ == k.0;
        lemma_selected_unique(m, ui, lv[p], m[k]);
    }
}

proof fn lemma_choice_some(
    m: Map<(Seq<char>, Seq<char>), LoadedManifest>,
    ui: Seq<char>,
    lv: Seq<LoadedManifest>,
    fg: Seq<char>,
    t: Seq<char>,
    hc: HostClasses,
    bindings: Seq<TitleBinding>,
    c: usize,
    cu: bool,
    cn: usize,
)
    requires
        keyed(m),
        localized_ok(m, ui, lv),
        choice_ok(lv, fg, t, hc, bindings, Some((c, cu, cn)), lv.len() as int),
    ensures
        title_match_ok(m, ui, Some(fg), Some(t), hc, bindings, Some(lv[c as int])),
{
    let lm = lv[c as int];
    assert(selected(m, ui, lm));
    assert(gated(lm, fg, hc));
    assert(outranks_all(m, ui, fg, t, hc, bindings, lm, cu, cn as int)) by {
    assert forall|k: (Seq<char>, Seq<char>), u2: bool, n2: int|
        #![trigger m.dom().contains(k), has_hit(m[k], t, bindings, u2, n2)]
        m.dom().contains(k) && selected(m, ui, m[k]) && gated(m[k], fg, hc) && has_hit(m[k], t, bindings, u2, n2)
            implies score_lt(u2, n2, cu, cn as int) || (u2 == cu && n2 == cn && !seq_lt(m[k].manifest.id@, lm.manifest.id@)) by {
        let p = choose|p: int| 0 <= p < lv.len() && (#[trigger] lv[p]).manifest.id@ == k.0;
        lemma_selected_unique(m, ui, lv[p], m[k]);
        assert(has_hit(lv[p], t, bindings, u2, n2));
        if !score_lt(u2, n2, cu, cn as int) {
            if (c as int) < p {
                assert(seq_lt(lm.manifest.id@, lv[p].manifest.id@));
                lemma_seq_lt_asym(lm.manifest.id@, lv[p].manifest.id@);
            } else {
                lemma_seq_lt_irreflexive(lm.manifest.id@);
            }
        }
    }
    }
    assert(has_hit(lm, t, bindings, cu, cn as int));
    assert(title_winner(m, ui, fg, t, hc, bindings, lm));
}

impl ManifestStore {
    fn title_choice(
        &self,
        l: &Vec<usize>,
        fg: &str,
        tl: &Vec<char>,
        host_classes: &HostClasses,
        bindings: &[TitleBinding],
        Ghost(t): Ghost<Seq<char>>,
    ) -> (r: Option<(usize, bool, usize)>)
        requires
            forall|p: int| 0 <= p < l@.len() ==> #[trigger] l@[p] < self.entries@.len(),
            tl@ == unicode_lower(t),
        ensures
            choice_ok(pick(self.entries@, l@), fg@, t, *host_classes, bindings@, r, l@.len() as int),
            match r {
                Some((c, _, _)) => c < l@.len(),
                None => true,
            },
    {
        let ghost lv = pick(self.entries@, l@);
        let mut chosen: Option<(usize, bool, usize)> = None;
        for x in 0..l.len()
            invariant
                forall|p: int| 0 <= p < l@.len() ==> #[trigger] l@[p] < self.entries@.len(),
                lv == pick(self.entries@, l@),
                tl@ == unicode_lower(t),
                choice_ok(lv, fg@, t, *host_classes, bindings@, chosen, x as int),
        {
            let lm = &self.entries[l[x]];
            assert(lv[x as int] == *lm);
            let gate = match &lm.manifest.host {
                Some(class) => host_classes.contains(class.as_str(), fg),
                None => false,
            };
            if gate {
                match best_hit(lm, tl, bindings, Ghost(t)) {
                    None => {},
                    Some((u, n)) => {
                        let better = match chosen {
                            None => true,
                            Some((_, cu, cn)) => (!cu && u) || (cu == u && cn < n),
                        };
                        if better {
                            chosen = Some((x, u, n));
                        }
                    },
                }
            }
        }
        chosen
    }

    /// Title detection: the hosted collection whose pattern hits the
    /// foreground window title (case-insensitive substring), among the
    /// collections whose host class contains the foreground identity. User
    /// bindings beat manifest `TitleMatch` patterns, then the longest
    /// pattern wins, ties going to the smaller package id. Bindings naming a
    /// package that is not an installed hosted collection are inert.
    pub fn match_title<'a>(
        &'a self,
        foreground: Option<&str>,
        title: Option<&str>,
        ui_locale: &str,
        host_classes: &HostClasses,
        bindings: &[TitleBinding],
    ) -> (r: Option<&'a LoadedManifest>)
        ensures
            title_match_ok(
                self@,
                ui_locale@,
                opt_str(foreground),
                opt_str(title),
                *host_classes,
                bindings@,
                match r {
                    Some(lm) => Some(*lm),
                    None => None,
                },
            ),
    {
        proof {
            use_type_invariant(self);
            lemma_keyed(self.entries@);
        }
        let fg = match foreground {
            Some(f) => f,
            None => return None,
        };
        let t = match title {
            Some(t) => t,
            None => return None,
        };
        let tl = to_lowercase(t);
        let tlv = chars_of(tl.as_str());
        let l = self.localized_indices(ui_locale);
        let chosen = self.title_choice(&l, fg, &tlv, host_classes, bindings, Ghost(t@));
        match chosen {
            None => {
                proof {
                    lemma_choice_none(self@, ui_locale@, pick(self.entries@, l@), fg@, t@, *host_classes, bindings@);
                }
                None
            },
            Some((c, cu, cn)) => {
                proof {
                    lemma_choice_some(self@, ui_locale@, pick(self.entries@, l@), fg@, t@, *host_classes, bindings@, c, cu, cn);
                }
                Some(&self.entries[l[c]])
            },
        }
    }
}

/// A hosted collection joins the rail only as `Hosted`, and only when a
/// foreground identity is in its host class; every other manifest never
/// joins as `Hosted`.
pub proof fn lemma_hosted_only_by_host_class(
    m: Map<(Seq<char>, Seq<char>), LoadedManifest>,
    ui: Seq<char>,
    fg: Option<Seq<char>>,
    hc: HostClasses,
    running: Seq<Seq<char>>,
    r: Seq<Matched>,
    i: int,
)
    requires
        rail_ok(m, ui, fg, hc, running, r),
        0 <= i < r.len(),
    ensures
        (r[i].kind == MatchKind::Hosted) == (r[i].lm.manifest.host is Some),
        r[i].kind == MatchKind::Hosted ==> fg is Some && hc.contains_spec(r[i].lm.manifest.host->0@, fg->0),
{
    let g = rail_group(r[i].lm.manifest, fg, hc, running);
    assert(g is Some && r[i].kind == kind_of_group(g->0));
}

/// Title detection only ever picks a hosted collection whose host class
/// holds the foreground identity, and a title that some candidate's user
/// binding hits is won by a user binding.
pub proof fn lemma_title_winner_gated_and_bindings_first(
    m: Map<(Seq<char>, Seq<char>), LoadedManifest>,
    ui: Seq<char>,
    fg: Seq<char>,
    title: Seq<char>,
    hc: HostClasses,
    bindings: Seq<TitleBinding>,
    lm: LoadedManifest,
    k: (Seq<char>, Seq<char>),
    n: int,
)
    requires
        title_match_ok(m, ui, Some(fg), Some(title), hc, bindings, Some(lm)),
    ensures
        selected(m, ui, lm),
        lm.manifest.host is Some && hc.contains_spec(lm.manifest.host->0@, fg),
        m.dom().contains(k) && selected(m, ui, m[k]) && gated(m[k], fg, hc) && has_hit(m[k], title, bindings, true, n)
            ==> exists|n2: int| has_hit(lm, title, bindings, true, n2),
{
    let (u, n1) = choose|u: bool, n1: int|
        #![trigger has_hit(lm, title, bindings, u, n1)]
        has_hit(lm, title, bindings, u, n1) && outranks_all(m, ui, fg, title, hc, bindings, lm, u, n1);
    if m.dom().contains(k) && selected(m, ui, m[k]) && gated(m[k], fg, hc) && has_hit(m[k], title, bindings, true, n) {
        assert(score_lt(true, n, u, n1) || (true == u && n == n1 && !seq_lt(m[k].manifest.id@, lm.manifest.id@)));
        assert(u);
        assert(has_hit(lm, title, bindings, true, n1));
    }
}

} // verus!
