//! Pinned entries: for each manifest, the set of entry keys the user pinned.
//! Persistence (the JSON file) is the caller's business.

use vstd::prelude::*;

use crate::model::strs_view;
use crate::text::str_eq;

verus! {

/// manifest id -> pinned entry keys. A manifest with no pins has no record.
#[derive(Debug)]
pub struct PinStore {
    map: Vec<(String, Vec<String>)>,
}

pub open spec fn keys_set(v: Seq<String>) -> Set<Seq<char>> {
    Set::new(|k: Seq<char>| strs_view(v).contains(k))
}

pub open spec fn no_dup_strings(v: Seq<String>) -> bool {
    forall|i: int, j: int| 0 <= i < v.len() && 0 <= j < v.len() && i != j ==> (#[trigger] v[i])@ != (#[trigger] v[j])@
}

pub open spec fn uniq_ids(s: Seq<(String, Vec<String>)>) -> bool {
    forall|i: int, j: int| 0 <= i < s.len() && 0 <= j < s.len() && i != j ==> (#[trigger] s[i]).0@ != (#[trigger] s[j]).0@
}

pub open spec fn has_id(s: Seq<(String, Vec<String>)>, id: Seq<char>) -> bool {
    exists|i: int| 0 <= i < s.len() && (#[trigger] s[i]).0@ == id
}

pub open spec fn pmap(s: Seq<(String, Vec<String>)>) -> Map<Seq<char>, Set<Seq<char>>> {
    Map::new(
        |id: Seq<char>| has_id(s, id),
        |id: Seq<char>| keys_set(s[choose|i: int| 0 <= i < s.len() && (#[trigger] s[i]).0@ == id].1@),
    )
}

proof fn lemma_pmap_at(s: Seq<(String, Vec<String>)>, i: int)
    requires
        uniq_ids(s),
        0 <= i < s.len(),
    ensures
        pmap(s).contains_key(s[i].0@),
        pmap(s)[s[i].0@] == keys_set(s[i].1@),
{
    let id = s[i].0@;
    assert(has_id(s, id));
    let j = choose|j: int| 0 <= j < s.len() && (#[trigger] s[j]).0@ == id;
    assert(j == i);
}

proof fn lemma_pmap_remove(s: Seq<(String, Vec<String>)>, i: int)
    requires
        uniq_ids(s),
        0 <= i < s.len(),
    ensures
        uniq_ids(s.remove(i)),
        !has_id(s.remove(i), s[i].0@),
        pmap(s.remove(i)) == pmap(s).remove(s[i].0@),
{
    let r = s.remove(i);
    let id = s[i].0@;
    assert forall|a: int| 0 <= a < r.len() implies #[trigger] r[a] == s[if a < i { a } else { a + 1 }] by {}
    assert(uniq_ids(r)) by {
        assert forall|a: int, b: int| 0 <= a < r.len() && 0 <= b < r.len() && a != b implies (#[trigger] r[a]).0@ != (#[trigger] r[b]).0@ by {
            let oa = if a < i { a } else { a + 1 };
            let ob = if b < i { b } else { b + 1 };
            assert(r[a] == s[oa] && r[b] == s[ob]);
        }
    }
    assert(!has_id(r, id)) by {
        if has_id(r, id) {
            let a = choose|a: int| 0 <= a < r.len() && (#[trigger] r[a]).0@ == id;
            let oa = if a < i { a } else { a + 1 };
            assert(r[a] == s[oa]);
        }
    }
    assert forall|x: Seq<char>| #[trigger] pmap(r).contains_key(x) == pmap(s).remove(id).contains_key(x) by {
        if has_id(r, x) {
            let a = choose|a: int| 0 <= a < r.len() && (#[trigger] r[a]).0@ == x;
            let oa = if a < i { a } else { a + 1 };
            assert(r[a] == s[oa]);
            assert(has_id(s, x));
        }
        if has_id(s, x) && x != id {
            let a = choose|a: int| 0 <= a < s.len() && (#[trigger] s[a]).0@ == x;
            assert(a != i);
            let na = if a < i { a } else { a - 1 };
            assert(r[na] == s[a]);
        }
    }
    assert forall|x: Seq<char>| #[trigger] pmap(r).contains_key(x) implies pmap(r)[x] == pmap(s).remove(id)[x] by {
        let a = choose|a: int| 0 <= a < r.len() && (#[trigger] r[a]).0@ == x;
        lemma_pmap_at(r, a);
        let oa = if a < i { a } else { a + 1 };
        assert(r[a] == s[oa]);
        lemma_pmap_at(s, oa);
    }
    assert(pmap(r) =~= pmap(s).remove(id));
}

proof fn lemma_pmap_push(s: Seq<(String, Vec<String>)>, e: (String, Vec<String>))
    requires
        uniq_ids(s),
        !has_id(s, e.0@),
    ensures
        uniq_ids(s.push(e)),
        pmap(s.push(e)) == pmap(s).insert(e.0@, keys_set(e.1@)),
{
    let r = s.push(e);
    assert(uniq_ids(r)) by {
        assert forall|a: int, b: int| 0 <= a < r.len() && 0 <= b < r.len() && a != b implies (#[trigger] r[a]).0@ != (#[trigger] r[b]).0@ by {
            if a < s.len() && b < s.len() {
                assert(r[a] == s[a] && r[b] == s[b]);
            } else if a < s.len() {
                assert(r[a] == s[a]);
            } else {
                assert(r[b] == s[b]);
            }
        }
    }
    assert forall|x: Seq<char>| #[trigger] pmap(r).contains_key(x) == pmap(s).insert(e.0@, keys_set(e.1@)).contains_key(x) by {
        if has_id(r, x) {
            let a = choose|a: int| 0 <= a < r.len() && (#[trigger] r[a]).0@ == x;
            if a < s.len() {
                assert(r[a] == s[a]);
            }
        }
        if has_id(s, x) {
            let a = choose|a: int| 0 <= a < s.len() && (#[trigger] s[a]).0@ == x;
            assert(r[a] == s[a]);
        }
        if x == e.0@ {
            assert(r[s.len() as int] == e);
        }
    }
    assert forall|x: Seq<char>| #[trigger] pmap(r).contains_key(x) implies pmap(r)[x] == pmap(s).insert(e.0@, keys_set(e.1@))[x] by {
        let a = choose|a: int| 0 <= a < r.len() && (#[trigger] r[a]).0@ == x;
        lemma_pmap_at(r, a);
        if a < s.len() {
            assert(r[a] == s[a]);
            lemma_pmap_at(s, a);
        }
    }
    assert(pmap(r) =~= pmap(s).insert(e.0@, keys_set(e.1@)));
}

impl PinStore {
    #[verifier::type_invariant]
    spec fn wf(self) -> bool {
        &&& uniq_ids(self.map@)
        &&& forall|i: int| 0 <= i < self.map@.len() ==> no_dup_strings((#[trigger] self.map@[i]).1@)
        &&& forall|i: int| 0 <= i < self.map@.len() ==> (#[trigger] self.map@[i]).1@.len() > 0
    }
}

impl PinStore {
    proof fn lemma_wf_no_empty(self)
        requires
            self.wf(),
        ensures
            no_empty_pins(self@),
    {
        assert forall|x: Seq<char>| #[trigger] self@.contains_key(x) implies !self@[x].is_empty() by {
            let i = choose|i: int| 0 <= i < self.map@.len() && (#[trigger] self.map@[i]).0@ == x;
            lemma_pmap_at(self.map@, i);
            let l = self.map@[i].1@;
            assert(strs_view(l)[0] == l[0]@);
            assert(keys_set(l).contains(l[0]@));
        }
    }
}

/// Toggling keeps every record non-empty.
pub proof fn lemma_toggled_no_empty(m: Map<Seq<char>, Set<Seq<char>>>, id: Seq<char>, key: Seq<char>)
    requires
        no_empty_pins(m),
    ensures
        no_empty_pins(toggled(m, id, key)),
{
}

impl View for PinStore {
    type V = Map<Seq<char>, Set<Seq<char>>>;

    closed spec fn view(&self) -> Map<Seq<char>, Set<Seq<char>>> {
        pmap(self.map@)
    }
}

/// No manifest keeps a record with no pins.
pub open spec fn no_empty_pins(m: Map<Seq<char>, Set<Seq<char>>>) -> bool {
    forall|x: Seq<char>| #[trigger] m.contains_key(x) ==> !m[x].is_empty()
}

/// The pins of `id`, empty when it has none.
pub open spec fn pins_of(m: Map<Seq<char>, Set<Seq<char>>>, id: Seq<char>) -> Set<Seq<char>> {
    if m.contains_key(id) {
        m[id]
    } else {
        Set::empty()
    }
}

/// The store after toggling `key` under `id`: the key is removed if pinned,
/// added otherwise, and a manifest left with no pins loses its record.
pub open spec fn toggled(m: Map<Seq<char>, Set<Seq<char>>>, id: Seq<char>, key: Seq<char>) -> Map<
    Seq<char>,
    Set<Seq<char>>,
> {
    let s = pins_of(m, id);
    let s2 = if s.contains(key) {
        s.remove(key)
    } else {
        s.insert(key)
    };
    if s2.is_empty() {
        m.remove(id)
    } else {
        m.insert(id, s2)
    }
}

impl PinStore {
    pub fn new() -> (r: PinStore)
        ensures
            r@ == Map::<Seq<char>, Set<Seq<char>>>::empty(),
            no_empty_pins(r@),
    {
        let r = PinStore { map: Vec::new() };
        assert(r@ =~= Map::<Seq<char>, Set<Seq<char>>>::empty());
        r
    }

    fn find(&self, id: &str) -> (r: Option<usize>)
        ensures
            match r {
                Some(i) => i < self.map@.len() && self.map@[i as int].0@ == id@,
                None => forall|i: int| 0 <= i < self.map@.len() ==> (#[trigger] self.map@[i]).0@ != id@,
            },
    {
        proof {
            use_type_invariant(self);
        }
        for i in 0..self.map.len()
            invariant
                forall|j: int| 0 <= j < i ==> (#[trigger] self.map@[j]).0@ != id@,
        {
            if str_eq(self.map[i].0.as_str(), id) {
                return Some(i);
            }
        }
        None
    }

    /// The keys pinned for `manifest_id`, each once.
    pub fn get(&self, manifest_id: &str) -> (r: Vec<String>)
        ensures
            keys_set(r@) == pins_of(self@, manifest_id@),
            no_dup_strings(r@),
    {
        proof {
            use_type_invariant(self);
        }
        match self.find(manifest_id) {
            Some(i) => {
                proof {
                    lemma_pmap_at(self.map@, i as int);
                }
                let v = &self.map[i].1;
                let mut out: Vec<String> = Vec::new();
                for j in 0..v.len()
                    invariant
                        out@.len() == j,
                        forall|q: int| 0 <= q < j ==> (#[trigger] out@[q])@ == v@[q]@,
                {
                    out.push(v[j].clone());
                }
                proof {
                    assert(strs_view(out@) =~= strs_view(v@));
                    assert(keys_set(out@) =~= keys_set(v@));
                    assert(no_dup_strings(v@));
                }
                out
            },
            None => {
                proof {
                    assert(!self@.contains_key(manifest_id@));
                    assert(keys_set(Seq::<String>::empty()) =~= Set::<Seq<char>>::empty());
                }
                Vec::new()
            },
        }
    }

    /// Pin `entry_key` under `manifest_id`, or unpin it if pinned.
    pub fn toggle(&mut self, manifest_id: &str, entry_key: &str)
        ensures
            final(self)@ == toggled(old(self)@, manifest_id@, entry_key@),
            no_empty_pins(final(self)@),
    {
        proof {
            use_type_invariant(&*self);
            self.lemma_wf_no_empty();
            lemma_toggled_no_empty(self@, manifest_id@, entry_key@);
        }
        let found = self.find(manifest_id);
        let ghost old_map = self.map@;
        let ghost old_view = self@;
        let mut slots: Vec<(String, Vec<String>)> = Vec::new();
        std::mem::swap(&mut slots, &mut self.map);
        match found {
            Some(i) => {
                proof {
                    lemma_pmap_at(slots@, i as int);
                }
                let mut entry = slots.remove(i);
                let ghost ks = entry.1@;
                // Look for the key.
                let mut pos: Option<usize> = None;
                for j in 0..entry.1.len()
                    invariant
                        entry.1@ == ks,
                        match pos {
                            Some(p) => p < j && ks[p as int]@ == entry_key@,
                            None => forall|q: int| 0 <= q < j ==> (#[trigger] ks[q])@ != entry_key@,
                        },
                {
                    if pos.is_none() && str_eq(entry.1[j].as_str(), entry_key) {
                        pos = Some(j);
                    }
                }
                match pos {
                    Some(p) => {
                        entry.1.remove(p);
                    },
                    None => {
                        entry.1.push(String::from_str(entry_key));
                    },
                }
                proof {
                    let ks2 = entry.1@;
                    let s = keys_set(ks);
                    assert(s.contains(entry_key@) == pos.is_some()) by {
                        if pos.is_some() {
                            assert(strs_view(ks)[pos.unwrap() as int] == entry_key@);
                        } else {
                            assert forall|q: int| 0 <= q < strs_view(ks).len() implies strs_view(ks)[q] != entry_key@ by {
                                assert(strs_view(ks)[q] == ks[q]@);
                            }
                        }
                    }
                    if pos.is_some() {
                        let p = pos.unwrap() as int;
                        assert(ks2 == ks.remove(p));
                        assert(keys_set(ks2) =~= s.remove(entry_key@)) by {
                            assert forall|k: Seq<char>| keys_set(ks2).contains(k) == s.remove(entry_key@).contains(k) by {
                                if keys_set(ks2).contains(k) {
                                    let q = choose|q: int| 0 <= q < strs_view(ks2).len() && strs_view(ks2)[q] == k;
                                    let oq = if q < p { q } else { q + 1 };
                                    assert(strs_view(ks)[oq] == k);
                                    assert(oq != p);
                                }
                                if s.remove(entry_key@).contains(k) {
                                    let q = choose|q: int| 0 <= q < strs_view(ks).len() && strs_view(ks)[q] == k;
                                    assert(q != p);
                                    let nq = if q < p { q } else { q - 1 };
                                    assert(strs_view(ks2)[nq] == k);
                                }
                            }
                        }
                        assert(no_dup_strings(ks2)) by {
                            assert forall|a: int, b: int| 0 <= a < ks2.len() && 0 <= b < ks2.len() && a != b implies (#[trigger] ks2[a])@ != (#[trigger] ks2[b])@ by {
                                let oa = if a < p { a } else { a + 1 };
                                let ob = if b < p { b } else { b + 1 };
                                assert(ks2[a] == ks[oa] && ks2[b] == ks[ob]);
                            }
                        }
                    } else {
                        assert(ks2.drop_last() =~= ks && ks2.len() == ks.len() + 1 && ks2.last()@ == entry_key@);
                        assert forall|q: int| 0 <= q < ks.len() implies #[trigger] ks2[q] == ks[q] by { assert(ks2.drop_last()[q] == ks2[q]); }
                        assert(keys_set(ks2) =~= s.insert(entry_key@)) by {
                            assert forall|k: Seq<char>| keys_set(ks2).contains(k) == s.insert(entry_key@).contains(k) by {
                                if keys_set(ks2).contains(k) {
                                    let q = choose|q: int| 0 <= q < strs_view(ks2).len() && strs_view(ks2)[q] == k;
                                    if q < ks.len() {
                                        assert(strs_view(ks)[q] == k);
                                    }
                                }
                                if s.contains(k) {
                                    let q = choose|q: int| 0 <= q < strs_view(ks).len() && strs_view(ks)[q] == k;
                                    assert(strs_view(ks2)[q] == k);
                                }
                                if k == entry_key@ {
                                    assert(strs_view(ks2)[ks.len() as int] == k);
                                }
                            }
                        }
                        assert(no_dup_strings(ks2)) by {
                            assert forall|a: int, b: int| 0 <= a < ks2.len() && 0 <= b < ks2.len() && a != b implies (#[trigger] ks2[a])@ != (#[trigger] ks2[b])@ by {
                                if a < ks.len() && b < ks.len() {
                                } else if a < ks.len() {
                                    assert(ks[a]@ != entry_key@);
                                } else {
                                    assert(ks[b]@ != entry_key@);
                                }
                            }
                        }
                    }
                    assert(keys_set(ks2).is_empty() <==> ks2.len() == 0) by {
                        if ks2.len() > 0 {
                            assert(strs_view(ks2)[0] == ks2[0]@);
                            assert(keys_set(ks2).contains(ks2[0]@));
                        } else {
                            assert(keys_set(ks2) =~= Set::<Seq<char>>::empty());
                        }
                    }
                }
                let ghost rest = old_map.remove(i as int);
                proof {
                    lemma_pmap_remove(old_map, i as int);
                    assert(slots@ == rest);
                }
                if entry.1.len() > 0 {
                    let ghost e = entry;
                    slots.push(entry);
                    proof {
                        lemma_pmap_push(rest, e);
                        assert forall|q: int| 0 <= q < slots@.len() implies no_dup_strings((#[trigger] slots@[q]).1@) && slots@[q].1@.len() > 0 by {
                            if q < rest.len() {
                                let oq = if q < i { q } else { q + 1 };
                                assert(slots@[q] == old_map[oq]);
                            }
                        }
                    }
                } else {
                    proof {
                        assert forall|q: int| 0 <= q < slots@.len() implies no_dup_strings((#[trigger] slots@[q]).1@) && slots@[q].1@.len() > 0 by {
                            let oq = if q < i { q } else { q + 1 };
                            assert(slots@[q] == old_map[oq]);
                        }
                    }
                }
            },
            None => {
                let mut keys: Vec<String> = Vec::new();
                keys.push(String::from_str(entry_key));
                let e = (String::from_str(manifest_id), keys);
                proof {
                    assert(!has_id(old_map, manifest_id@)) by {
                        if has_id(old_map, manifest_id@) {
                            let a = choose|a: int| 0 <= a < old_map.len() && (#[trigger] old_map[a]).0@ == manifest_id@;
                        }
                    }
                    lemma_pmap_push(old_map, e);
                    assert(keys_set(e.1@) =~= Set::<Seq<char>>::empty().insert(entry_key@)) by {
                        assert(strs_view(e.1@)[0] == entry_key@);
                    }
                    assert(!old_view.contains_key(manifest_id@));
                    assert(pins_of(old_view, manifest_id@) =~= Set::<Seq<char>>::empty());
                }
                slots.push(e);
                proof {
                    assert forall|q: int| 0 <= q < slots@.len() implies no_dup_strings((#[trigger] slots@[q]).1@) && slots@[q].1@.len() > 0 by {
                        if q < old_map.len() {
                            assert(slots@[q] == old_map[q]);
                        }
                    }
                }
            },
        }
        self.map = slots;
    }
}

impl PinStore {
    /// Is `entry_key` pinned under `manifest_id`?
    pub fn is_pinned(&self, manifest_id: &str, entry_key: &str) -> (r: bool)
        ensures
            r == pins_of(self@, manifest_id@).contains(entry_key@),
    {
        let keys = self.get(manifest_id);
        for j in 0..keys.len()
            invariant
                keys_set(keys@) == pins_of(self@, manifest_id@),
                forall|q: int| 0 <= q < j ==> (#[trigger] keys@[q])@ != entry_key@,
        {
            if str_eq(keys[j].as_str(), entry_key) {
                assert(strs_view(keys@)[j as int] == entry_key@);
                return true;
            }
        }
        assert forall|q: int| 0 <= q < strs_view(keys@).len() implies strs_view(keys@)[q] != entry_key@ by {
            assert(strs_view(keys@)[q] == keys@[q]@);
        }
        false
    }

    /// Pin `entry_key` under `manifest_id` (no change if already pinned).
    pub fn pin(&mut self, manifest_id: &str, entry_key: &str)
        ensures
            final(self)@ == old(self)@.insert(manifest_id@, pins_of(old(self)@, manifest_id@).insert(entry_key@)),
            no_empty_pins(final(self)@),
    {
        proof {
            use_type_invariant(&*self);
            self.lemma_wf_no_empty();
            assert(pins_of(self@, manifest_id@).insert(entry_key@).contains(entry_key@));
        }
        if self.is_pinned(manifest_id, entry_key) {
            proof {
                let m = self@;
                let s = pins_of(m, manifest_id@);
                assert(s.insert(entry_key@) =~= s);
                assert(m.contains_key(manifest_id@)) by {
                    if !m.contains_key(manifest_id@) {
                        assert(s =~= Set::<Seq<char>>::empty());
                    }
                }
                assert(m.insert(manifest_id@, s) =~= m);
            }
        } else {
            self.toggle(manifest_id, entry_key);
            proof {
                let s = pins_of(old(self)@, manifest_id@).insert(entry_key@);
                assert(!s.is_empty()) by {
                    assert(s.contains(entry_key@));
                }
            }
        }
    }

    /// Every record, for persisting: manifest id and its pinned keys.
    pub fn entries(&self) -> (r: Vec<(String, Vec<String>)>)
        ensures
            pmap(r@) == self@,
            uniq_ids(r@),
    {
        proof {
            use_type_invariant(self);
        }
        let mut out: Vec<(String, Vec<String>)> = Vec::new();
        for i in 0..self.map.len()
            invariant
                out@.len() == i,
                forall|q: int| 0 <= q < i ==> (#[trigger] out@[q]).0@ == self.map@[q].0@ && strs_view(out@[q].1@)
                    == strs_view(self.map@[q].1@),
        {
            let e = &self.map[i];
            let mut keys: Vec<String> = Vec::new();
            for j in 0..e.1.len()
                invariant
                    keys@.len() == j,
                    forall|q: int| 0 <= q < j ==> (#[trigger] keys@[q])@ == e.1@[q]@,
            {
                keys.push(e.1[j].clone());
            }
            assert(strs_view(keys@) =~= strs_view(e.1@));
            out.push((e.0.clone(), keys));
        }
        proof {
            let r = out@;
            let m = self.map@;
            assert(uniq_ids(r)) by {
                assert forall|a: int, b: int| 0 <= a < r.len() && 0 <= b < r.len() && a != b implies (#[trigger] r[a]).0@ != (#[trigger] r[b]).0@ by {
                    assert(m[a].0@ != m[b].0@);
                }
            }
            assert forall|x: Seq<char>| #[trigger] pmap(r).contains_key(x) == pmap(m).contains_key(x) by {
                if has_id(r, x) {
                    let a = choose|a: int| 0 <= a < r.len() && (#[trigger] r[a]).0@ == x;
                    assert(m[a].0@ == x);
                }
                if has_id(m, x) {
                    let a = choose|a: int| 0 <= a < m.len() && (#[trigger] m[a]).0@ == x;
                    assert(r[a].0@ == x);
                }
            }
            assert forall|x: Seq<char>| #[trigger] pmap(r).contains_key(x) implies pmap(r)[x] == pmap(m)[x] by {
                let a = choose|a: int| 0 <= a < r.len() && (#[trigger] r[a]).0@ == x;
                lemma_pmap_at(r, a);
                lemma_pmap_at(m, a);
                assert(keys_set(r[a].1@) =~= keys_set(m[a].1@));
            }
            assert(pmap(r) =~= pmap(m));
        }
        out
    }
}

/// Toggling the same entry twice restores the pins exactly.
pub proof fn lemma_toggle_twice(m: Map<Seq<char>, Set<Seq<char>>>, id: Seq<char>, key: Seq<char>)
    requires
        no_empty_pins(m),
    ensures
        toggled(toggled(m, id, key), id, key) == m,
{
    let s = pins_of(m, id);
    let t1 = toggled(m, id, key);
    if s.contains(key) {
        assert(s.remove(key).insert(key) =~= s);
        if s.remove(key).is_empty() {
            assert(s =~= Set::<Seq<char>>::empty().insert(key));
            assert(pins_of(t1, id) =~= Set::<Seq<char>>::empty());
            assert(toggled(t1, id, key) =~= m);
        } else {
            assert(toggled(t1, id, key) =~= m);
        }
    } else {
        assert(s.insert(key).remove(key) =~= s);
        assert(!s.insert(key).is_empty()) by {
            assert(s.insert(key).contains(key));
        }
        if s.is_empty() {
            assert(!m.contains_key(id));
            assert(toggled(t1, id, key) =~= m);
        } else {
            assert(toggled(t1, id, key) =~= m);
        }
    }
}

/// A toggle flips whether that entry is pinned and leaves every other pin,
/// of this manifest and of the others, as it was.
pub proof fn lemma_toggle_flips(
    m: Map<Seq<char>, Set<Seq<char>>>,
    id: Seq<char>,
    key: Seq<char>,
    id2: Seq<char>,
    key2: Seq<char>,
)
    ensures
        pins_of(toggled(m, id, key), id).contains(key) == !pins_of(m, id).contains(key),
        !(id2 == id && key2 == key) ==> pins_of(toggled(m, id, key), id2).contains(key2) == pins_of(
            m,
            id2,
        ).contains(key2),
{
    let s = pins_of(m, id);
    let s2 = if s.contains(key) {
        s.remove(key)
    } else {
        s.insert(key)
    };
    if s2.is_empty() {
        assert(!s2.contains(key2));
        assert(!s2.contains(key));
    }
}

} // verus!
