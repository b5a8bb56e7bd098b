//! User shortcut customizations: per-app files layered over the default
//! manifests without touching them. Quicuts only *documents* bindings — a
//! customization records what the user rebound in the app itself.
//!
//! Entries are keyed by shortcut name, so a customization survives manifest
//! updates that only change the default keys. Combo strings use the codec in
//! `combo`.

use vstd::prelude::*;

use crate::combo::{
    chord_norms, combo_eq, combo_eq_spec, combos_v, norms_spec, parse_combo_seq,
    parse_combo_seq_spec,
};
use crate::model::{clone_strings, strs_view, KeyCombo, KeyComboV};
use crate::text::{str_eq};

verus! {

#[derive(Debug, PartialEq)]
pub struct EntryCustomization {
    /// User-added bindings, in display order (combo-sequence strings).
    pub custom: Vec<String>,
    /// Default bindings the user reassigned in the app (no longer available).
    pub redefined: Vec<String>,
}

pub struct EntryCustomizationV {
    pub custom: Seq<Seq<char>>,
    pub redefined: Seq<Seq<char>>,
}

impl View for EntryCustomization {
    type V = EntryCustomizationV;

    open spec fn view(&self) -> EntryCustomizationV {
        EntryCustomizationV { custom: strs_view(self.custom@), redefined: strs_view(self.redefined@) }
    }
}

impl EntryCustomizationV {
    pub open spec fn empty() -> EntryCustomizationV {
        EntryCustomizationV { custom: Seq::empty(), redefined: Seq::empty() }
    }

    pub open spec fn is_empty(self) -> bool {
        self.custom.len() == 0 && self.redefined.len() == 0
    }
}

impl EntryCustomization {
    pub fn new() -> (r: EntryCustomization)
        ensures
            r@ == EntryCustomizationV::empty(),
    {
        let r = EntryCustomization { custom: Vec::new(), redefined: Vec::new() };
        assert(r@.custom =~= Seq::<Seq<char>>::empty());
        assert(r@.redefined =~= Seq::<Seq<char>>::empty());
        r
    }

    pub fn is_empty(&self) -> (r: bool)
        ensures
            r == self@.is_empty(),
    {
        self.custom.len() == 0 && self.redefined.len() == 0
    }

    pub fn duplicate(&self) -> (r: EntryCustomization)
        ensures
            r@ == self@,
    {
        EntryCustomization { custom: clone_strings(&self.custom), redefined: clone_strings(&self.redefined) }
    }
}

/// `s` without the strings that equal `combo` as combos.
pub open spec fn retain_not_eq(s: Seq<Seq<char>>, combo: Seq<char>) -> Seq<Seq<char>>
    decreases s.len(),
{
    if s.len() == 0 {
        s
    } else if combo_eq_spec(s.last(), combo) {
        retain_not_eq(s.drop_last(), combo)
    } else {
        retain_not_eq(s.drop_last(), combo).push(s.last())
    }
}

/// Some string of `s` equals `combo` as a combo.
pub open spec fn has_combo(s: Seq<Seq<char>>, combo: Seq<char>) -> bool {
    exists|i: int| 0 <= i < s.len() && combo_eq_spec(#[trigger] s[i], combo)
}

/// `s` with `combo` appended unless an equal combo is already there.
pub open spec fn push_unique(s: Seq<Seq<char>>, combo: Seq<char>) -> Seq<Seq<char>> {
    if has_combo(s, combo) {
        s
    } else {
        s.push(combo)
    }
}

fn retain_not_eq_exec(v: &Vec<String>, combo: &str) -> (r: Vec<String>)
    ensures
        strs_view(r@) == retain_not_eq(strs_view(v@), combo@),
{
    let mut out: Vec<String> = Vec::new();
    for i in 0..v.len()
        invariant
            strs_view(out@) == retain_not_eq(strs_view(v@).take(i as int), combo@),
    {
        assert(strs_view(v@).take(i + 1).drop_last() =~= strs_view(v@).take(i as int));
        assert(strs_view(v@).take(i + 1).last() == v@[i as int]@);
        if !combo_eq(v[i].as_str(), combo) {
            out.push(v[i].clone());
            assert(strs_view(out@) =~= retain_not_eq(strs_view(v@).take(i as int), combo@).push(v@[i as int]@));
        }
    }
    assert(strs_view(v@).take(v.len() as int) =~= strs_view(v@));
    out
}

fn has_combo_exec(v: &Vec<String>, combo: &str) -> (r: bool)
    ensures
        r == has_combo(strs_view(v@), combo@),
{
    for i in 0..v.len()
        invariant
            forall|j: int| 0 <= j < i ==> !combo_eq_spec(#[trigger] strs_view(v@)[j], combo@),
    {
        if combo_eq(v[i].as_str(), combo) {
            assert(combo_eq_spec(strs_view(v@)[i as int], combo@));
            return true;
        }
    }
    false
}

/// All customizations for one app: shortcut name -> customization.
pub struct AppCustomizations {
    entries: Vec<(String, EntryCustomization)>,
}

impl AppCustomizations {
    #[verifier::type_invariant]
    spec fn unique_names(self) -> bool {
        forall|i: int, j: int|
            0 <= i < self.entries@.len() && 0 <= j < self.entries@.len() && i != j ==> (
            #[trigger] self.entries@[i]).0@ != (#[trigger] self.entries@[j]).0@
    }

    pub closed spec fn index_of(self, name: Seq<char>) -> int {
        choose|i: int| 0 <= i < self.entries@.len() && self.entries@[i].0@ == name
    }

    pub closed spec fn has_name(self, name: Seq<char>) -> bool {
        exists|i: int| 0 <= i < self.entries@.len() && self.entries@[i].0@ == name
    }

    pub closed spec fn names(self) -> Seq<Seq<char>> {
        self.entries@.map_values(|e: (String, EntryCustomization)| e.0@)
    }
}

impl View for AppCustomizations {
    type V = Map<Seq<char>, EntryCustomizationV>;

    closed spec fn view(&self) -> Map<Seq<char>, EntryCustomizationV> {
        Map::new(
            |k: Seq<char>| self.has_name(k),
            |k: Seq<char>| self.entries@[self.index_of(k)].1@,
        )
    }
}

/// The customization for `name`, or an empty one.
pub open spec fn entry_or_empty(m: Map<Seq<char>, EntryCustomizationV>, name: Seq<char>) -> EntryCustomizationV {
    if m.contains_key(name) {
        m[name]
    } else {
        EntryCustomizationV::empty()
    }
}

/// The map after `name`'s customization became `e`: dropped when `e` is
/// empty.
pub open spec fn store_entry(
    m: Map<Seq<char>, EntryCustomizationV>,
    name: Seq<char>,
    e: EntryCustomizationV,
) -> Map<Seq<char>, EntryCustomizationV> {
    if e.is_empty() {
        m.remove(name)
    } else {
        m.insert(name, e)
    }
}

/// No name maps to an empty customization.
pub open spec fn no_empty_entries(m: Map<Seq<char>, EntryCustomizationV>) -> bool {
    forall|k: Seq<char>| #[trigger] m.contains_key(k) ==> !m[k].is_empty()
}

/// Storing an entry keeps a map free of empty customizations; every
/// mutator of `AppCustomizations` stores through `store_entry`, so from
/// `new` no name ever maps to an empty customization.
pub proof fn lemma_store_entry_no_empty(
    m: Map<Seq<char>, EntryCustomizationV>,
    name: Seq<char>,
    e: EntryCustomizationV,
)
    requires
        no_empty_entries(m),
    ensures
        no_empty_entries(store_entry(m, name, e)),
{
}

impl AppCustomizations {
    pub fn new() -> (r: AppCustomizations)
        ensures
            r@ == Map::<Seq<char>, EntryCustomizationV>::empty(),
            no_empty_entries(r@),
    {
        let r = AppCustomizations { entries: Vec::new() };
        assert(r@ =~= Map::<Seq<char>, EntryCustomizationV>::empty());
        r
    }

    /// Names with a customization, in the order they were recorded.
    pub fn entries(&self) -> (r: &Vec<(String, EntryCustomization)>)
        ensures
            forall|k: Seq<char>| self@.contains_key(k) <==> exists|i: int| 0 <= i < r@.len() && #[trigger] r@[i].0@ == k,
            forall|i: int| 0 <= i < r@.len() ==> self@[#[trigger] r@[i].0@] == r@[i].1@,
    {
        proof {
            use_type_invariant(self);
            assert forall|i: int| 0 <= i < self.entries@.len() implies self@[#[trigger] self.entries@[i].0@] == self.entries@[i].1@ by {
                let k = self.entries@[i].0@;
                assert(self.has_name(k));
                let j = self.index_of(k);
                assert(j == i);
            }
        }
        &self.entries
    }

    proof fn lemma_index(self, i: int)
        requires
            self.unique_names(),
            0 <= i < self.entries@.len(),
        ensures
            self.has_name(self.entries@[i].0@),
            self.index_of(self.entries@[i].0@) == i,
            self@.contains_key(self.entries@[i].0@),
            self@[self.entries@[i].0@] == self.entries@[i].1@,
    {
        let k = self.entries@[i].0@;
        assert(self.has_name(k));
    }

    fn find(&self, name: &str) -> (r: Option<usize>)
        ensures
            match r {
                Some(i) => i < self.entries@.len() && self.entries@[i as int].0@ == name@
                    && self@.contains_key(name@) && self@[name@] == self.entries@[i as int].1@,
                None => !self@.contains_key(name@),
            },
    {
        proof {
            use_type_invariant(self);
        }
        for i in 0..self.entries.len()
            invariant
                self.unique_names(),
                forall|j: int| 0 <= j < i ==> (#[trigger] self.entries@[j]).0@ != name@,
        {
            if str_eq(self.entries[i].0.as_str(), name) {
                proof {
                    self.lemma_index(i as int);
                }
                return Some(i);
            }
        }
        None
    }

    /// No entry carries any customization.
    pub fn is_empty(&self) -> (r: bool)
        ensures
            r == forall|k: Seq<char>| #[trigger] self@.contains_key(k) ==> self@[k].is_empty(),
    {
        proof {
            use_type_invariant(self);
        }
        for i in 0..self.entries.len()
            invariant
                self.unique_names(),
                forall|j: int| 0 <= j < i ==> (#[trigger] self.entries@[j]).1@.is_empty(),
        {
            if !self.entries[i].1.is_empty() {
                proof {
                    self.lemma_index(i as int);
                }
                return false;
            }
        }
        proof {
            assert forall|k: Seq<char>| #[trigger] self@.contains_key(k) implies self@[k].is_empty() by {
                let j = self.index_of(k);
                assert(0 <= j < self.entries@.len());
            }
        }
        true
    }

    pub fn get(&self, entry_name: &str) -> (r: Option<&EntryCustomization>)
        ensures
            match r {
                Some(e) => self@.contains_key(entry_name@) && self@[entry_name@] == e@,
                None => !self@.contains_key(entry_name@),
            },
    {
        match self.find(entry_name) {
            Some(i) => Some(&self.entries[i].1),
            None => None,
        }
    }

    /// Set `name`'s customization to `e` (dropping it when empty).
    fn put(&mut self, entry_name: &str, e: EntryCustomization)
        ensures
            final(self)@ == store_entry(old(self)@, entry_name@, e@),
    {
        proof {
            use_type_invariant(&*self);
        }
        let ghost old_self = *self;
        let found = self.find(entry_name);
        let mut entries: Vec<(String, EntryCustomization)> = Vec::new();
        std::mem::swap(&mut entries, &mut self.entries);
        let ghost old_entries = entries@;
        match found {
            Some(i) => {
                if e.is_empty() {
                    entries.remove(i);
                } else {
                    let name = entries[i].0.clone();
                    entries.set(i, (name, e));
                }
            },
            None => {
                if !e.is_empty() {
                    entries.push((String::from_str(entry_name), e));
                }
            },
        }
        let ghost new_entries = entries@;
        proof {
            assert forall|a: int, b: int|
                0 <= a < new_entries.len() && 0 <= b < new_entries.len() && a != b implies (
                #[trigger] new_entries[a]).0@ != (#[trigger] new_entries[b]).0@ by {
                match found {
                    Some(i) => {
                        if e@.is_empty() {
                            let a0 = if a < i { a } else { a + 1 };
                            let b0 = if b < i { b } else { b + 1 };
                            assert(new_entries[a] == old_entries[a0]);
                            assert(new_entries[b] == old_entries[b0]);
                        } else {
                            assert(new_entries[a].0@ == old_entries[a].0@);
                            assert(new_entries[b].0@ == old_entries[b].0@);
                        }
                    },
                    None => {
                        if a < old_entries.len() && b < old_entries.len() {
                        } else if a < old_entries.len() {
                            assert(old_self.entries@[a].0@ != entry_name@) by {
                                if old_self.entries@[a].0@ == entry_name@ {
                                    old_self.lemma_index(a);
                                }
                            }
                        } else {
                            assert(old_self.entries@[b].0@ != entry_name@) by {
                                if old_self.entries@[b].0@ == entry_name@ {
                                    old_self.lemma_index(b);
                                }
                            }
                        }
                    },
                }
            }
        }
        self.entries = entries;
        proof {
            let m = store_entry(old_self@, entry_name@, e@);
            assert forall|k: Seq<char>| #[trigger] self@.contains_key(k) <==> m.contains_key(k) by {
                if self@.contains_key(k) {
                    let j = self.index_of(k);
                    assert(0 <= j < new_entries.len() && new_entries[j].0@ == k);
                    match found {
                        Some(i) => {
                            if e@.is_empty() {
                                let j0 = if j < i { j } else { j + 1 };
                                assert(new_entries[j] == old_entries[j0]);
                                old_self.lemma_index(j0);
                            } else {
                                old_self.lemma_index(j);
                            }
                        },
                        None => {
                            if j < old_entries.len() {
                                old_self.lemma_index(j);
                            }
                        },
                    }
                }
                if m.contains_key(k) {
                    if k == entry_name@ {
                        match found {
                            Some(i) => {
                                assert(new_entries[i as int].0@ == k);
                                self.lemma_index(i as int);
                            },
                            None => {
                                assert(new_entries[old_entries.len() as int].0@ == k);
                                self.lemma_index(old_entries.len() as int);
                            },
                        }
                    } else {
                        let j0 = old_self.index_of(k);
                        assert(0 <= j0 < old_entries.len() && old_entries[j0].0@ == k);
                        match found {
                            Some(i) => {
                                if e@.is_empty() {
                                    let j = if j0 < i { j0 } else { j0 - 1 };
                                    assert(new_entries[j] == old_entries[j0]);
                                    self.lemma_index(j);
                                } else {
                                    assert(new_entries[j0].0@ == k);
                                    self.lemma_index(j0);
                                }
                            },
                            None => {
                                assert(new_entries[j0] == old_entries[j0]);
                                self.lemma_index(j0);
                            },
                        }
                    }
                }
            }
            assert forall|k: Seq<char>| #[trigger] self@.contains_key(k) implies self@[k] == m[k] by {
                let j = self.index_of(k);
                self.lemma_index(j);
                if k == entry_name@ {
                    match found {
                        Some(i) => {
                            assert(j == i);
                        },
                        None => {
                            assert(j == old_entries.len());
                        },
                    }
                } else {
                    match found {
                        Some(i) => {
                            if e@.is_empty() {
                                let j0 = if j < i { j } else { j + 1 };
                                assert(new_entries[j] == old_entries[j0]);
                                old_self.lemma_index(j0);
                            } else {
                                assert(j != i);
                                old_self.lemma_index(j);
                            }
                        },
                        None => {
                            old_self.lemma_index(j);
                        },
                    }
                }
            }
            assert(self@ =~= m);
        }
    }

    fn current(&self, entry_name: &str) -> (r: EntryCustomization)
        ensures
            r@ == entry_or_empty(self@, entry_name@),
    {
        match self.get(entry_name) {
            Some(e) => e.duplicate(),
            None => EntryCustomization::new(),
        }
    }

    /// Record a user-added binding unless an equal combo is already there.
    pub fn add_custom(&mut self, entry_name: &str, combo: &str)
        ensures
            no_empty_entries(old(self)@) ==> no_empty_entries(final(self)@),
            ({
                let e = entry_or_empty(old(self)@, entry_name@);
                final(self)@ == store_entry(
                    old(self)@,
                    entry_name@,
                    EntryCustomizationV { custom: push_unique(e.custom, combo@), ..e },
                )
            }),
    {
        let mut e = self.current(entry_name);
        if !has_combo_exec(&e.custom, combo) {
            e.custom.push(String::from_str(combo));
            assert(e@.custom =~= entry_or_empty(old(self)@, entry_name@).custom.push(combo@));
        }
        self.put(entry_name, e);
    }

    /// Drop user-added bindings equal to `combo`; an entry left with
    /// nothing is removed.
    pub fn remove_custom(&mut self, entry_name: &str, combo: &str)
        ensures
            no_empty_entries(old(self)@) ==> no_empty_entries(final(self)@),
            if old(self)@.contains_key(entry_name@) {
                let e = old(self)@[entry_name@];
                final(self)@ == store_entry(
                    old(self)@,
                    entry_name@,
                    EntryCustomizationV { custom: retain_not_eq(e.custom, combo@), ..e },
                )
            } else {
                final(self)@ == old(self)@
            },
    {
        if let Some(cur) = self.get(entry_name) {
            let custom = retain_not_eq_exec(&cur.custom, combo);
            let e = EntryCustomization { custom, redefined: clone_strings(&cur.redefined) };
            self.put(entry_name, e);
        }
    }

    /// Mark (`on`) or unmark a default binding as reassigned in the app.
    pub fn set_redefined(&mut self, entry_name: &str, combo: &str, on: bool)
        ensures
            no_empty_entries(old(self)@) ==> no_empty_entries(final(self)@),
            if on {
                let e = entry_or_empty(old(self)@, entry_name@);
                final(self)@ == store_entry(
                    old(self)@,
                    entry_name@,
                    EntryCustomizationV { redefined: push_unique(e.redefined, combo@), ..e },
                )
            } else if old(self)@.contains_key(entry_name@) {
                let e = old(self)@[entry_name@];
                final(self)@ == store_entry(
                    old(self)@,
                    entry_name@,
                    EntryCustomizationV { redefined: retain_not_eq(e.redefined, combo@), ..e },
                )
            } else {
                final(self)@ == old(self)@
            },
    {
        if on {
            let mut e = self.current(entry_name);
            if !has_combo_exec(&e.redefined, combo) {
                e.redefined.push(String::from_str(combo));
                assert(e@.redefined =~= entry_or_empty(old(self)@, entry_name@).redefined.push(combo@));
            }
            self.put(entry_name, e);
        } else if let Some(cur) = self.get(entry_name) {
            let redefined = retain_not_eq_exec(&cur.redefined, combo);
            let e = EntryCustomization { custom: clone_strings(&cur.custom), redefined };
            self.put(entry_name, e);
        }
    }

    /// Set a whole entry, as read back from a customization file.
    pub fn insert_entry(&mut self, entry_name: &str, e: EntryCustomization)
        ensures
            no_empty_entries(old(self)@) ==> no_empty_entries(final(self)@),
            final(self)@ == store_entry(old(self)@, entry_name@, e@),
    {
        self.put(entry_name, e);
    }
}

/// One parsed custom binding; `raw` is the stored string (its identity for
/// removal, and what a hand-editing user sees).
#[derive(Debug, PartialEq)]
pub struct CustomBinding {
    pub raw: String,
    pub chords: Vec<KeyCombo>,
}

pub struct CustomBindingV {
    pub raw: Seq<char>,
    pub chords: Seq<KeyComboV>,
}

impl View for CustomBinding {
    type V = CustomBindingV;

    open spec fn view(&self) -> CustomBindingV {
        CustomBindingV { raw: self.raw@, chords: combos_v(self.chords@) }
    }
}

pub open spec fn bindings_view(v: Seq<CustomBinding>) -> Seq<CustomBindingV> {
    v.map_values(|b: CustomBinding| b@)
}

/// The custom strings that parse, each with its chords, in order.
pub open spec fn bindings_spec(customs: Seq<Seq<char>>) -> Seq<CustomBindingV>
    decreases customs.len(),
{
    if customs.len() == 0 {
        Seq::empty()
    } else {
        let prev = bindings_spec(customs.drop_last());
        match parse_combo_seq_spec(customs.last()) {
            Some(ch) => prev.push(CustomBindingV { raw: customs.last(), chords: ch }),
            None => prev,
        }
    }
}

/// Parse the entry's custom strings, silently skipping unparseable ones
/// (the file is user-edited; bad lines must not take the page down).
pub fn custom_bindings(c: Option<&EntryCustomization>) -> (r: Vec<CustomBinding>)
    ensures
        bindings_view(r@) == match c {
            Some(e) => bindings_spec(e@.custom),
            None => Seq::empty(),
        },
{
    let mut out: Vec<CustomBinding> = Vec::new();
    match c {
        None => {
            assert(bindings_view(out@) =~= Seq::<CustomBindingV>::empty());
        },
        Some(e) => {
            let ghost cs = e@.custom;
            for i in 0..e.custom.len()
                invariant
                    cs == strs_view(e.custom@),
                    bindings_view(out@) == bindings_spec(cs.take(i as int)),
            {
                assert(cs.take(i + 1).drop_last() =~= cs.take(i as int));
                assert(cs.take(i + 1).last() == e.custom@[i as int]@);
                let raw = &e.custom[i];
                match parse_combo_seq(raw.as_str()) {
                    Some(chords) => {
                        out.push(CustomBinding { raw: raw.clone(), chords });
                        assert(bindings_view(out@) =~= bindings_spec(cs.take(i as int)).push(
                            out@.last()@,
                        ));
                    },
                    None => {},
                }
            }
            assert(cs.take(e.custom.len() as int) =~= cs);
        },
    }
    out
}

// --- redefined markers -------------------------------------------------------

/// First start position, from `start` on, where `n` occurs as a contiguous
/// window of `d`.
pub open spec fn first_window(d: Seq<Seq<char>>, n: Seq<Seq<char>>, start: int) -> Option<int>
    decreases d.len() - start,
{
    if start < 0 || start >= d.len() || start + n.len() > d.len() {
        None
    } else if d.subrange(start, start + n.len()) == n {
        Some(start)
    } else {
        first_window(d, n, start + 1)
    }
}

/// Flags after one `redefined` string: a parsed sequence marks the first
/// window of the defaults it matches.
pub open spec fn mark_one(flags: Seq<bool>, d: Seq<Seq<char>>, r: Seq<char>) -> Seq<bool> {
    match parse_combo_seq_spec(r) {
        None => flags,
        Some(seq) => {
            let n = norms_spec(seq);
            if n.len() == 0 || n.len() > d.len() {
                flags
            } else {
                match first_window(d, n, 0) {
                    Some(w) => Seq::new(flags.len(), |i: int| flags[i] || (w <= i < w + n.len())),
                    None => flags,
                }
            }
        },
    }
}

pub open spec fn mark_all(d: Seq<Seq<char>>, rs: Seq<Seq<char>>) -> Seq<bool>
    decreases rs.len(),
{
    if rs.len() == 0 {
        Seq::new(d.len(), |i: int| false)
    } else {
        mark_one(mark_all(d, rs.drop_last()), d, rs.last())
    }
}

pub proof fn lemma_mark_all_len(d: Seq<Seq<char>>, rs: Seq<Seq<char>>)
    ensures
        mark_all(d, rs).len() == d.len(),
    decreases rs.len(),
{
    if rs.len() > 0 {
        lemma_mark_all_len(d, rs.drop_last());
    }
}

fn window_eq(d: &Vec<String>, n: &Vec<String>, start: usize) -> (r: bool)
    requires
        start + n.len() <= d.len(),
    ensures
        r == (strs_view(d@).subrange(start as int, start + n.len()) == strs_view(n@)),
{
    for k in 0..n.len()
        invariant
            start + n.len() <= d.len(),
            forall|m: int| 0 <= m < k ==> d@[start + m]@ == #[trigger] n@[m]@,
    {
        if !str_eq(d[start + k].as_str(), n[k].as_str()) {
            assert(strs_view(d@).subrange(start as int, start + n.len())[k as int] != strs_view(n@)[k as int]);
            return false;
        }
    }
    assert(strs_view(d@).subrange(start as int, start + n.len()) =~= strs_view(n@));
    true
}

/// Flags parallel to `defaults`: true where a `redefined` string matches. A
/// multi-chord string marks its contiguous window (a whole sequence
/// binding); matching is semantic (case-insensitive, `Enter` == `<Enter>`),
/// so hand edits still line up.
pub fn mark_redefined(defaults: &Vec<KeyCombo>, redefined: &Vec<String>) -> (r: Vec<bool>)
    ensures
        r@ == mark_all(norms_spec(combos_v(defaults@)), strs_view(redefined@)),
        r@.len() == defaults@.len(),
{
    let def_norms = chord_norms(defaults);
    let ghost d = strs_view(def_norms@);
    let mut flags: Vec<bool> = Vec::new();
    for i in 0..defaults.len()
        invariant
            flags@ == Seq::new(i as nat, |k: int| false),
    {
        flags.push(false);
        assert(flags@ =~= Seq::new((i + 1) as nat, |k: int| false));
    }
    let ghost rs = strs_view(redefined@);
    for ri in 0..redefined.len()
        invariant
            d == strs_view(def_norms@),
            d == norms_spec(combos_v(defaults@)),
            d.len() == defaults@.len(),
            rs == strs_view(redefined@),
            flags@ == mark_all(d, rs.take(ri as int)),
            flags@.len() == d.len(),
    {
        assert(rs.take(ri + 1).drop_last() =~= rs.take(ri as int));
        assert(rs.take(ri + 1).last() == redefined@[ri as int]@);
        let ghost before = flags@;
        match parse_combo_seq(redefined[ri].as_str()) {
            None => {},
            Some(seq) => {
                let norms = chord_norms(&seq);
                let ghost n = strs_view(norms@);
                if norms.len() > 0 && norms.len() <= def_norms.len() {
                    let last = def_norms.len() - norms.len();
                    let mut start: usize = 0;
                    let mut found: Option<usize> = None;
                    while start <= last && found.is_none()
                        invariant
                            n == strs_view(norms@),
                            d == strs_view(def_norms@),
                            n.len() > 0,
                            last + n.len() == d.len(),
                            last < def_norms.len(),
                            start <= last + 1,
                            match found {
                                Some(w) => first_window(d, n, 0) == Some(w as int) && w <= last,
                                None => first_window(d, n, 0) == first_window(d, n, start as int),
                            },
                        decreases last + 1 - start, (if found is None { 1int } else { 0int }),
                    {
                        if window_eq(&def_norms, &norms, start) {
                            found = Some(start);
                        } else {
                            start += 1;
                        }
                    }
                    match found {
                        Some(w) => {
                            let ghost target = Seq::new(before.len(), |i: int| before[i] || (w <= i < w + n.len()));
                            let end = w + norms.len();
                            let mut k = w;
                            while k < end
                                invariant
                                    end == w + n.len(),
                                    w <= k <= end,
                                    end <= flags@.len(),
                                    flags@.len() == before.len(),
                                    forall|i: int| 0 <= i < flags@.len() ==> #[trigger] flags@[i] == (before[i] || (w <= i < k)),
                                decreases end - k,
                            {
                                flags.set(k, true);
                                k += 1;
                            }
                            assert(flags@ =~= target);
                        },
                        None => {
                            assert(first_window(d, n, start as int) is None);
                        },
                    }
                }
            },
        }
        assert(flags@ == mark_all(d, rs.take(ri + 1)));
    }
    assert(rs.take(redefined.len() as int) =~= rs);
    flags
}

/// A manifest id with every character that could leave the
/// customizations directory ('/', '\\', ':') replaced by '_'.
pub open spec fn safe_id_spec(id: Seq<char>) -> Seq<char> {
    id.map_values(|c: char| if c == '/' || c == '\\' || c == ':' { '_' } else { c })
}

/// The file holding one app's customizations: `<safe id>.custom.yml`.
pub open spec fn custom_file_name_spec(id: Seq<char>) -> Seq<char> {
    safe_id_spec(id) + ".custom.yml"@
}

/// File name of the customizations of `manifest_id` within the
/// customizations directory.
pub fn custom_file_name(manifest_id: &str) -> (r: String)
    ensures
        r@ == custom_file_name_spec(manifest_id@),
{
    let v = crate::text::chars_of(manifest_id);
    let mut out: Vec<char> = Vec::new();
    for i in 0..v.len()
        invariant
            v@ == manifest_id@,
            out@ == safe_id_spec(v@.take(i as int)),
    {
        let c = v[i];
        let d = if c == '/' || c == '\\' || c == ':' { '_' } else { c };
        proof {
            assert(safe_id_spec(v@.take(i + 1)) =~= safe_id_spec(v@.take(i as int)).push(d));
        }
        out.push(d);
    }
    proof {
        assert(v@.take(v.len() as int) =~= v@);
    }
    let mut s = crate::text::string_of(&out);
    crate::text::push_all(&mut s, ".custom.yml");
    s
}

/// Combo equality is an equivalence: symmetric and transitive.
pub proof fn lemma_combo_eq_equiv(a: Seq<char>, b: Seq<char>, c: Seq<char>)
    ensures
        combo_eq_spec(a, a),
        combo_eq_spec(a, b) ==> combo_eq_spec(b, a),
        combo_eq_spec(a, b) && combo_eq_spec(b, c) ==> combo_eq_spec(a, c),
{
}

/// `retain_not_eq` keeps a list none of whose combos equals `combo`, nor
/// anything equal to it.
pub proof fn lemma_retain_none(s: Seq<Seq<char>>, combo: Seq<char>, other: Seq<char>)
    requires
        !has_combo(s, combo),
        combo_eq_spec(combo, other),
    ensures
        retain_not_eq(s, other) == s,
    decreases s.len(),
{
    if s.len() > 0 {
        assert(s.drop_last().len() < s.len());
        assert(!has_combo(s.drop_last(), combo)) by {
            if has_combo(s.drop_last(), combo) {
                let i = choose|i: int| 0 <= i < s.drop_last().len() && combo_eq_spec(#[trigger] s.drop_last()[i], combo);
                assert(s[i] == s.drop_last()[i]);
            }
        }
        lemma_retain_none(s.drop_last(), combo, other);
        assert(!combo_eq_spec(s[s.len() - 1], combo));
        lemma_combo_eq_equiv(s.last(), other, combo);
        lemma_combo_eq_equiv(combo, other, combo);
        assert(!combo_eq_spec(s.last(), other));
        assert(s.drop_last().push(s.last()) =~= s);
    }
}

/// Adding a user binding that the entry does not hold yet, then removing
/// a binding equal to it as a combo, leaves the customizations as they
/// were (an entry stored empty aside, which the removal drops).
pub proof fn lemma_add_then_remove_custom(
    m: Map<Seq<char>, EntryCustomizationV>,
    name: Seq<char>,
    combo: Seq<char>,
    removed: Seq<char>,
)
    requires
        !has_combo(entry_or_empty(m, name).custom, combo),
        combo_eq_spec(combo, removed),
        m.contains_key(name) ==> !m[name].is_empty(),
    ensures
        ({
            let e = entry_or_empty(m, name);
            let added = store_entry(m, name, EntryCustomizationV { custom: push_unique(e.custom, combo), ..e });
            let e2 = added[name];
            &&& added.contains_key(name)
            &&& store_entry(
                added,
                name,
                EntryCustomizationV { custom: retain_not_eq(e2.custom, removed), ..e2 },
            ) == m
        }),
{
    let e = entry_or_empty(m, name);
    let pushed = push_unique(e.custom, combo);
    assert(pushed == e.custom.push(combo));
    let added = store_entry(m, name, EntryCustomizationV { custom: pushed, ..e });
    assert(added == m.insert(name, EntryCustomizationV { custom: pushed, ..e }));
    assert(pushed.drop_last() =~= e.custom);
    assert(combo_eq_spec(pushed.last(), removed));
    lemma_retain_none(e.custom, combo, removed);
    assert(retain_not_eq(pushed, removed) == e.custom);
    let back = EntryCustomizationV { custom: retain_not_eq(pushed, removed), ..EntryCustomizationV { custom: pushed, ..e } };
    assert(back == e);
    if m.contains_key(name) {
        assert(store_entry(added, name, back) =~= m);
    } else {
        assert(e.is_empty());
        assert(store_entry(added, name, back) =~= m);
    }
}

/// Marking a default binding as reassigned that was not marked yet, then
/// unmarking a binding equal to it as a combo, leaves the customizations
/// as they were (an entry stored empty aside).
pub proof fn lemma_mark_then_unmark_redefined(
    m: Map<Seq<char>, EntryCustomizationV>,
    name: Seq<char>,
    combo: Seq<char>,
    unmarked: Seq<char>,
)
    requires
        !has_combo(entry_or_empty(m, name).redefined, combo),
        combo_eq_spec(combo, unmarked),
        m.contains_key(name) ==> !m[name].is_empty(),
    ensures
        ({
            let e = entry_or_empty(m, name);
            let marked = store_entry(
                m,
                name,
                EntryCustomizationV { redefined: push_unique(e.redefined, combo), ..e },
            );
            let e2 = marked[name];
            &&& marked.contains_key(name)
            &&& store_entry(
                marked,
                name,
                EntryCustomizationV { redefined: retain_not_eq(e2.redefined, unmarked), ..e2 },
            ) == m
        }),
{
    let e = entry_or_empty(m, name);
    let pushed = push_unique(e.redefined, combo);
    assert(pushed == e.redefined.push(combo));
    let marked = store_entry(m, name, EntryCustomizationV { redefined: pushed, ..e });
    assert(marked == m.insert(name, EntryCustomizationV { redefined: pushed, ..e }));
    assert(pushed.drop_last() =~= e.redefined);
    assert(combo_eq_spec(pushed.last(), unmarked));
    lemma_retain_none(e.redefined, combo, unmarked);
    let back = EntryCustomizationV {
        redefined: retain_not_eq(pushed, unmarked),
        ..EntryCustomizationV { redefined: pushed, ..e }
    };
    assert(back == e);
    if m.contains_key(name) {
        assert(store_entry(marked, name, back) =~= m);
    } else {
        assert(e.is_empty());
        assert(store_entry(marked, name, back) =~= m);
    }
}

/// Adding a user binding equal, as a combo, to one the entry already holds
/// changes nothing (an entry stored empty aside).
pub proof fn lemma_add_custom_duplicate_is_noop(
    m: Map<Seq<char>, EntryCustomizationV>,
    name: Seq<char>,
    combo: Seq<char>,
)
    requires
        has_combo(entry_or_empty(m, name).custom, combo),
    ensures
        ({
            let e = entry_or_empty(m, name);
            store_entry(m, name, EntryCustomizationV { custom: push_unique(e.custom, combo), ..e }) == m
        }),
{
    let e = entry_or_empty(m, name);
    assert(EntryCustomizationV { custom: push_unique(e.custom, combo), ..e } == e);
    assert(m.contains_key(name));
    assert(!e.is_empty());
    assert(m.insert(name, e) =~= m);
}

} // verus!
