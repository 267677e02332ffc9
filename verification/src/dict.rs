//! `Dict`: a map from string keys to values that keeps its entries in
//! insertion order and never holds a key twice.
use vstd::prelude::*;
use crate::text::{chars_of, matches_at};

verus! {

/// Whether no key occurs twice among the entries.
pub open spec fn keys_unique<V>(e: Seq<(Seq<char>, V)>) -> bool {
    forall|i: int, j: int| 0 <= i < j < e.len() ==> #[trigger] e[i].0 != #[trigger] e[j].0
}

/// The index of the entry with key `k`, if any.
pub open spec fn index_of_key<V>(e: Seq<(Seq<char>, V)>, k: Seq<char>) -> Option<int> {
    if exists|i: int| 0 <= i < e.len() && #[trigger] e[i].0 == k {
        Some(choose|i: int| 0 <= i < e.len() && #[trigger] e[i].0 == k)
    } else {
        None
    }
}

/// The value stored under `k`, if any.
pub open spec fn lookup<V>(e: Seq<(Seq<char>, V)>, k: Seq<char>) -> Option<V> {
    match index_of_key(e, k) {
        Some(i) => Some(e[i].1),
        None => None,
    }
}

/// The entries after `insert(k, v)`: the value of an existing key is replaced in
/// place, a new key goes at the end.
pub open spec fn inserted<V>(e: Seq<(Seq<char>, V)>, k: Seq<char>, v: V) -> Seq<(Seq<char>, V)> {
    match index_of_key(e, k) {
        Some(i) => e.update(i, (k, v)),
        None => e.push((k, v)),
    }
}

/// The entries without the one under `k`.
pub open spec fn removed<V>(e: Seq<(Seq<char>, V)>, k: Seq<char>) -> Seq<(Seq<char>, V)> {
    e.filter(|p: (Seq<char>, V)| p.0 != k)
}

/// In a map without repeated keys, the key of entry `i` is found at `i`.
pub proof fn lemma_index_of_own_key<V>(e: Seq<(Seq<char>, V)>, i: int)
    requires
        keys_unique(e),
        0 <= i < e.len(),
    ensures
        index_of_key(e, e[i].0) == Some(i),
        lookup(e, e[i].0) == Some(e[i].1),
{
    let k = choose|k: int| 0 <= k < e.len() && #[trigger] e[k].0 == e[i].0;
    if k < i {
        assert(e[k].0 != e[i].0);
    } else if i < k {
        assert(e[i].0 != e[k].0);
    }
}

/// Taking entry `i` out leaves its key absent; putting the entry back at `i`
/// is updating entry `i` in place.
pub proof fn lemma_take_put<V>(e: Seq<(Seq<char>, V)>, i: int, x: (Seq<char>, V))
    requires
        keys_unique(e),
        0 <= i < e.len(),
    ensures
        index_of_key(e.remove(i), e[i].0) is None,
        e.remove(i).insert(i, x) == e.update(i, x),
{
    let r = e.remove(i);
    if exists|j: int| 0 <= j < r.len() && #[trigger] r[j].0 == e[i].0 {
        let j = choose|j: int| 0 <= j < r.len() && #[trigger] r[j].0 == e[i].0;
        let oj = if j < i { j } else { j + 1 };
        assert(r[j] == e[oj]);
        if oj < i {
            assert(e[oj].0 != e[i].0);
        } else {
            assert(e[i].0 != e[oj].0);
        }
    }
    assert(e.remove(i).insert(i, x) =~= e.update(i, x));
}

/// Reading a key gives back what was last written under it, and writing one
/// key leaves the others as they were; the keys stay unique.
pub proof fn law_lookup_inserted<V>(e: Seq<(Seq<char>, V)>, k: Seq<char>, v: V, k2: Seq<char>)
    requires
        keys_unique(e),
    ensures
        keys_unique(inserted(e, k, v)),
        lookup(inserted(e, k, v), k) == Some(v),
        k2 != k ==> lookup(inserted(e, k, v), k2) == lookup(e, k2),
{
    let n = inserted(e, k, v);
    match index_of_key(e, k) {
        Some(i) => {
            assert forall|a: int, b: int| 0 <= a < b < n.len() implies #[trigger] n[a].0 != #[trigger] n[b].0 by {
                if a == i { assert(e[b].0 != e[i].0); } else if b == i { assert(e[a].0 != e[i].0); } else { assert(e[a].0 != e[b].0); }
            }
            assert(n[i].0 == k);
            lemma_index_of_own_key(n, i);
        },
        None => {
            assert forall|a: int, b: int| 0 <= a < b < n.len() implies #[trigger] n[a].0 != #[trigger] n[b].0 by {
                if b == e.len() { assert(e[a].0 != k); } else { assert(e[a].0 != e[b].0); }
            }
            lemma_index_of_own_key(n, e.len() as int);
        },
    }
    if k2 != k {
        if exists|j: int| 0 <= j < e.len() && #[trigger] e[j].0 == k2 {
            let j = choose|j: int| 0 <= j < e.len() && #[trigger] e[j].0 == k2;
            lemma_index_of_own_key(e, j);
            assert(n[j] == e[j]);
            lemma_index_of_own_key(n, j);
        } else {
            assert(!exists|j: int| 0 <= j < n.len() && #[trigger] n[j].0 == k2) by {
                if exists|j: int| 0 <= j < n.len() && #[trigger] n[j].0 == k2 {
                    let j = choose|j: int| 0 <= j < n.len() && #[trigger] n[j].0 == k2;
                    if j < e.len() && n[j] != (k, v) {
                        assert(n[j] == e[j]);
                    }
                }
            }
        }
    }
}

/// Removing a key leaves it absent and every other key as it was.
pub proof fn law_lookup_removed<V>(e: Seq<(Seq<char>, V)>, k: Seq<char>, k2: Seq<char>)
    requires
        keys_unique(e),
    ensures
        ({
            let after = match index_of_key(e, k) {
                Some(i) => e.remove(i),
                None => e,
            };
            &&& keys_unique(after)
            &&& lookup(after, k) is None
            &&& k2 != k ==> lookup(after, k2) == lookup(e, k2)
        }),
{
    match index_of_key(e, k) {
        Some(i) => {
            lemma_take_put(e, i, e[i]);
            let r = e.remove(i);
            assert forall|a: int, b: int| 0 <= a < b < r.len() implies #[trigger] r[a].0 != #[trigger] r[b].0 by {
                let oa = if a < i { a } else { a + 1 };
                let ob = if b < i { b } else { b + 1 };
                assert(r[a] == e[oa]);
                assert(r[b] == e[ob]);
            }
            if k2 != k {
                if exists|j: int| 0 <= j < e.len() && #[trigger] e[j].0 == k2 {
                    let j = choose|j: int| 0 <= j < e.len() && #[trigger] e[j].0 == k2;
                    lemma_index_of_own_key(e, j);
                    let rj = if j < i { j } else { j - 1 };
                    assert(r[rj] == e[j]);
                    lemma_index_of_own_key(r, rj);
                } else {
                    assert(!exists|j: int| 0 <= j < r.len() && #[trigger] r[j].0 == k2) by {
                        if exists|j: int| 0 <= j < r.len() && #[trigger] r[j].0 == k2 {
                            let j = choose|j: int| 0 <= j < r.len() && #[trigger] r[j].0 == k2;
                            let oj = if j < i { j } else { j + 1 };
                            assert(r[j] == e[oj]);
                        }
                    }
                }
            }
        },
        None => {},
    }
}

/// A map from string keys to values with entries in insertion order.
#[derive(Debug)]
pub struct Dict<V> {
    entries: Vec<(String, V)>,
}

impl<V> Dict<V> {
    /// The entries, keys taken by their view.
    pub closed spec fn view(&self) -> Seq<(Seq<char>, V)> {
        self.entries@.map_values(|p: (String, V)| (p.0@, p.1))
    }

    /// No key occurs twice (the type's invariant).
    #[verifier::type_invariant]
    pub open spec fn unique(&self) -> bool {
        keys_unique(self.view())
    }

    /// The empty map.
    pub fn new() -> (d: Self)
        ensures
            d.view() == Seq::<(Seq<char>, V)>::empty(),
    {
        let d = Dict { entries: Vec::new() };
        assert(d.view() =~= Seq::<(Seq<char>, V)>::empty());
        d
    }

    /// Brings the type's invariant into a proof.
    pub fn assert_unique(&self)
        ensures
            keys_unique(self.view()),
    {
        proof { use_type_invariant(self); }
    }

    /// The number of entries.
    pub fn len(&self) -> (n: usize)
        ensures
            n == self.view().len(),
    {
        self.entries.len()
    }

    /// The key of the `i`-th entry.
    pub fn key_at(&self, i: usize) -> (k: &String)
        requires
            i < self.view().len(),
        ensures
            k@ == self.view()[i as int].0,
    {
        &self.entries[i].0
    }

    /// The value of the `i`-th entry.
    pub fn value_at(&self, i: usize) -> (v: &V)
        requires
            i < self.view().len(),
        ensures
            *v == self.view()[i as int].1,
    {
        &self.entries[i].1
    }

    /// The position of key `k`.
    pub fn position(&self, k: &str) -> (r: Option<usize>)
        ensures
            match r {
                Some(i) => index_of_key(self.view(), k@) == Some(i as int),
                None => index_of_key(self.view(), k@) is None,
            },
    {
        proof { use_type_invariant(self); }
        let kv = chars_of(k);
        let mut i: usize = 0;
        while i < self.entries.len()
            invariant
                i <= self.entries.len(),
                kv@ == k@,
                keys_unique(self.view()),
                forall|j: int| 0 <= j < i ==> #[trigger] self.view()[j].0 != k@,
            decreases self.entries.len() - i,
        {
            let ev = chars_of(self.entries[i].0.as_str());
            if ev.len() == kv.len() && matches_at(ev.as_slice(), kv.as_slice(), 0) {
                proof {
                    assert(ev@.subrange(0, kv@.len() as int) =~= ev@);
                    assert(self.view()[i as int].0 == self.entries@[i as int].0@);
                    assert(self.view()[i as int].0 == k@);
                    let w = choose|j: int| 0 <= j < self.view().len() && #[trigger] self.view()[j].0 == k@;
                    assert(self.view()[i as int].0 == k@);
                    if w != i {
                        if w < i {
                            assert(self.view()[w].0 != k@);
                        } else {
                            assert(keys_unique(self.view()));
                            assert(0 <= i < w < self.view().len());
                            assert(self.view()[i as int].0 != self.view()[w].0);
                        }
                    }
                }
                return Some(i);
            }
            proof {
                assert(self.view()[i as int].0 == self.entries@[i as int].0@);
                if ev@.len() == kv@.len() {
                    assert(ev@.subrange(0, kv@.len() as int) =~= ev@);
                }
            }
            i = i + 1;
        }
        None
    }

    /// Whether `k` has an entry.
    pub fn contains_key(&self, k: &str) -> (b: bool)
        ensures
            b == (index_of_key(self.view(), k@) is Some),
    {
        self.position(k).is_some()
    }

    /// The value under `k`.
    pub fn get(&self, k: &str) -> (r: Option<&V>)
        ensures
            match r {
                Some(v) => lookup(self.view(), k@) == Some(*v),
                None => lookup(self.view(), k@) is None,
            },
    {
        match self.position(k) {
            Some(i) => Some(&self.entries[i].1),
            None => None,
        }
    }

    /// Removes the entry under `k`, returning its value.
    pub fn remove(&mut self, k: &str) -> (r: Option<V>)
        ensures
            match index_of_key(old(self).view(), k@) {
                Some(i) => r == Some(old(self).view()[i].1) && final(self).view() == old(self).view().remove(i),
                None => r is None && final(self).view() == old(self).view(),
            },
    {
        proof { use_type_invariant(&*self); }
        let ghost old_view = self.view();
        match self.position(k) {
            Some(i) => {
                let mut entries: Vec<(String, V)> = Vec::new();
                std::mem::swap(&mut entries, &mut self.entries);
                let (_, v) = entries.remove(i);
                proof {
                    let nv = entries@.map_values(|p: (String, V)| (p.0@, p.1));
                    assert(nv =~= old_view.remove(i as int));
                    assert forall|a: int, b: int| 0 <= a < b < nv.len() implies #[trigger] nv[a].0 != #[trigger] nv[b].0 by {
                        let oa = if a < i { a } else { a + 1 };
                        let ob = if b < i { b } else { b + 1 };
                        assert(nv[a] == old_view[oa]);
                        assert(nv[b] == old_view[ob]);
                        assert(old_view[oa].0 != old_view[ob].0);
                    }
                }
                self.entries = entries;
                Some(v)
            },
            None => None,
        }
    }

    /// Takes out the `i`-th entry.
    pub fn remove_at(&mut self, i: usize) -> (r: (String, V))
        requires
            i < old(self).view().len(),
        ensures
            final(self).view() == old(self).view().remove(i as int),
            (r.0@, r.1) == old(self).view()[i as int],
    {
        proof { use_type_invariant(&*self); }
        let ghost old_view = self.view();
        let mut entries: Vec<(String, V)> = Vec::new();
        std::mem::swap(&mut entries, &mut self.entries);
        let e = entries.remove(i);
        proof {
            let nv = entries@.map_values(|p: (String, V)| (p.0@, p.1));
            assert(nv =~= old_view.remove(i as int));
            assert forall|a: int, b: int| 0 <= a < b < nv.len() implies #[trigger] nv[a].0 != #[trigger] nv[b].0 by {
                let oa = if a < i { a } else { a + 1 };
                let ob = if b < i { b } else { b + 1 };
                assert(nv[a] == old_view[oa]);
                assert(nv[b] == old_view[ob]);
                assert(old_view[oa].0 != old_view[ob].0);
            }
        }
        self.entries = entries;
        e
    }

    /// Puts an entry with a new key at position `i`.
    pub fn insert_at(&mut self, i: usize, k: String, v: V)
        requires
            i <= old(self).view().len(),
            index_of_key(old(self).view(), k@) is None,
        ensures
            final(self).view() == old(self).view().insert(i as int, (k@, v)),
    {
        proof { use_type_invariant(&*self); }
        let ghost old_view = self.view();
        let ghost kk = k@;
        let mut entries: Vec<(String, V)> = Vec::new();
        std::mem::swap(&mut entries, &mut self.entries);
        entries.insert(i, (k, v));
        proof {
            let nv = entries@.map_values(|p: (String, V)| (p.0@, p.1));
            assert(nv =~= old_view.insert(i as int, (kk, v)));
            assert forall|a: int, b: int| 0 <= a < b < nv.len() implies #[trigger] nv[a].0 != #[trigger] nv[b].0 by {
                if a == i {
                    assert(nv[b] == old_view[b - 1]);
                    assert(old_view[b - 1].0 != kk);
                } else if b == i {
                    assert(nv[a] == old_view[a]);
                    assert(old_view[a].0 != kk);
                } else {
                    let oa = if a < i { a } else { a - 1 };
                    let ob = if b < i { b } else { b - 1 };
                    assert(nv[a] == old_view[oa]);
                    assert(nv[b] == old_view[ob]);
                    assert(old_view[oa].0 != old_view[ob].0);
                }
            }
        }
        self.entries = entries;
    }

    /// Replaces the value of the `i`-th entry, keeping its key and position.
    pub fn set_value_at(&mut self, i: usize, v: V)
        requires
            i < old(self).view().len(),
        ensures
            final(self).view() == old(self).view().update(i as int, (old(self).view()[i as int].0, v)),
    {
        proof { use_type_invariant(&*self); }
        let ghost old_view = self.view();
        let mut entries: Vec<(String, V)> = Vec::new();
        std::mem::swap(&mut entries, &mut self.entries);
        let k = entries[i].0.clone();
        entries.set(i, (k, v));
        proof {
            let nv = entries@.map_values(|p: (String, V)| (p.0@, p.1));
            assert(nv =~= old_view.update(i as int, (old_view[i as int].0, v)));
            assert forall|a: int, b: int| 0 <= a < b < nv.len() implies #[trigger] nv[a].0 != #[trigger] nv[b].0 by {
                assert(nv[a].0 == old_view[a].0);
                assert(nv[b].0 == old_view[b].0);
            }
        }
        self.entries = entries;
    }

    /// Stores `v` under `k`, replacing any earlier value for `k`.
    pub fn insert(&mut self, k: String, v: V)
        ensures
            final(self).view() == inserted(old(self).view(), k@, v),
    {
        proof { use_type_invariant(&*self); }
        let ghost old_view = self.view();
        match self.position(k.as_str()) {
            Some(i) => {
                let ghost kk = k@;
                let mut entries: Vec<(String, V)> = Vec::new();
                std::mem::swap(&mut entries, &mut self.entries);
                entries.set(i, (k, v));
                proof {
                    let nv = entries@.map_values(|p: (String, V)| (p.0@, p.1));
                    assert(nv =~= old_view.update(i as int, (kk, v)));
                    assert forall|a: int, b: int| 0 <= a < b < nv.len() implies #[trigger] nv[a].0 != #[trigger] nv[b].0 by {
                        if a == i {
                            assert(old_view[b].0 != kk);
                        } else if b == i {
                            assert(old_view[a].0 != kk);
                        } else {
                            assert(old_view[a].0 != old_view[b].0);
                        }
                    }
                }
                self.entries = entries;
            },
            None => {
                let ghost kk = k@;
                let mut entries: Vec<(String, V)> = Vec::new();
                std::mem::swap(&mut entries, &mut self.entries);
                entries.push((k, v));
                proof {
                    let nv = entries@.map_values(|p: (String, V)| (p.0@, p.1));
                    assert(nv =~= old_view.push((kk, v)));
                    assert forall|a: int, b: int| 0 <= a < b < nv.len() implies #[trigger] nv[a].0 != #[trigger] nv[b].0 by {
                        if b == old_view.len() {
                            assert(old_view[a].0 != kk);
                        } else {
                            assert(old_view[a].0 != old_view[b].0);
                        }
                    }
                }
                self.entries = entries;
            },
        }
    }
}

impl<V: Clone> Clone for Dict<V> {
    /// A copy with the same keys in the same order, each value cloned.
    fn clone(&self) -> (r: Self)
        ensures
            r.view().len() == self.view().len(),
            forall|i: int| 0 <= i < self.view().len() ==> {
                &&& #[trigger] r.view()[i].0 == self.view()[i].0
                &&& cloned::<V>(self.view()[i].1, r.view()[i].1)
            },
    {
        proof { use_type_invariant(self); }
        let mut entries: Vec<(String, V)> = Vec::new();
        let mut i: usize = 0;
        while i < self.entries.len()
            invariant
                i <= self.entries.len(),
                entries@.len() == i,
                keys_unique(self.view()),
                forall|j: int| 0 <= j < i ==> {
                    &&& #[trigger] entries@[j].0@ == self.view()[j].0
                    &&& cloned::<V>(self.view()[j].1, entries@[j].1)
                },
            decreases self.entries.len() - i,
        {
            let k = self.entries[i].0.clone();
            let v = self.entries[i].1.clone();
            entries.push((k, v));
            i = i + 1;
        }
        proof {
            let nv = entries@.map_values(|p: (String, V)| (p.0@, p.1));
            assert forall|a: int, b: int| 0 <= a < b < nv.len() implies #[trigger] nv[a].0 != #[trigger] nv[b].0 by {
                assert(nv[a].0 == self.view()[a].0);
                assert(nv[b].0 == self.view()[b].0);
            }
        }
        Dict { entries }
    }
}

/// The entries of a dictionary of strings, each value taken as its text.
pub open spec fn text_entries(e: Seq<(Seq<char>, String)>) -> Seq<(Seq<char>, Seq<char>)> {
    e.map_values(|p: (Seq<char>, String)| (p.0, p.1@))
}

/// Storing a string and then taking texts is taking texts and then storing
/// the string's text.
pub proof fn lemma_text_entries_inserted(e: Seq<(Seq<char>, String)>, k: Seq<char>, v: String)
    requires
        keys_unique(e),
    ensures
        text_entries(inserted(e, k, v)) == inserted(text_entries(e), k, v@),
        keys_unique(text_entries(e)),
{
    let te = text_entries(e);
    assert forall|i: int| 0 <= i < e.len() implies #[trigger] te[i].0 == e[i].0 by {}
    assert(keys_unique(te)) by {
        assert forall|i: int, j: int| 0 <= i < j < te.len() implies #[trigger] te[i].0 != #[trigger] te[j].0 by {
            assert(e[i].0 != e[j].0);
        }
    }
    if exists|i: int| 0 <= i < e.len() && #[trigger] e[i].0 == k {
        let i = choose|i: int| 0 <= i < e.len() && #[trigger] e[i].0 == k;
        lemma_index_of_own_key(e, i);
        lemma_index_of_own_key(te, i);
        assert(te[i].0 == k);
        assert(text_entries(inserted(e, k, v)) =~= inserted(te, k, v@));
    } else {
        assert(!(exists|i: int| 0 <= i < te.len() && #[trigger] te[i].0 == k)) by {
            if exists|i: int| 0 <= i < te.len() && #[trigger] te[i].0 == k {
                let i = choose|i: int| 0 <= i < te.len() && #[trigger] te[i].0 == k;
                assert(e[i].0 == k);
            }
        }
        assert(text_entries(inserted(e, k, v)) =~= inserted(te, k, v@));
    }
}

/// The text stored under `k` in a dictionary of strings.
pub open spec fn text_lookup(e: Seq<(Seq<char>, String)>, k: Seq<char>) -> Option<Seq<char>> {
    lookup(text_entries(e), k)
}

/// Looking up a text is looking up the string and taking its text.
pub proof fn lemma_text_lookup(e: Seq<(Seq<char>, String)>, k: Seq<char>)
    requires
        keys_unique(e),
    ensures
        text_lookup(e, k) == (match lookup(e, k) {
            Some(v) => Some(v@),
            None => None::<Seq<char>>,
        }),
{
    let te = text_entries(e);
    if exists|i: int| 0 <= i < e.len() && #[trigger] e[i].0 == k {
        let i = choose|i: int| 0 <= i < e.len() && #[trigger] e[i].0 == k;
        lemma_index_of_own_key(e, i);
        assert(te[i].0 == e[i].0);
        assert(keys_unique(te)) by {
            assert forall|a: int, b: int| 0 <= a < b < te.len() implies #[trigger] te[a].0 != #[trigger] te[b].0 by {
                assert(e[a].0 != e[b].0);
            }
        }
        lemma_index_of_own_key(te, i);
    } else {
        assert(!(exists|i: int| 0 <= i < te.len() && #[trigger] te[i].0 == k)) by {
            if exists|i: int| 0 <= i < te.len() && #[trigger] te[i].0 == k {
                let i = choose|i: int| 0 <= i < te.len() && #[trigger] te[i].0 == k;
                assert(e[i].0 == k);
            }
        }
    }
}

/// The string under `k` in a dictionary of strings.
pub fn get_text<'a>(d: &'a Dict<String>, k: &str) -> (r: Option<&'a String>)
    ensures
        match r {
            Some(v) => text_lookup(d.view(), k@) == Some(v@),
            None => text_lookup(d.view(), k@) is None,
        },
{
    d.assert_unique();
    proof { lemma_text_lookup(d.view(), k@); }
    d.get(k)
}

/// `t` with each placeholder `{prefix key}` replaced by the key's value, one
/// entry after the other in the order of `entries`.
pub open spec fn placeholders_filled(t: Seq<char>, entries: Seq<(Seq<char>, Seq<char>)>, prefix: Seq<char>) -> Seq<char>
    decreases entries.len(),
{
    if entries.len() == 0 {
        t
    } else {
        crate::text::replace_all(
            placeholders_filled(t, entries.drop_last(), prefix),
            "{"@ + prefix + entries.last().0 + "}"@,
            entries.last().1,
        )
    }
}

/// Replace each placeholder `{prefix key}` in `template` by the key's value,
/// one entry after the other in the dictionary's order.
pub fn fill_placeholders(template: &str, d: &Dict<String>, prefix: &str) -> (r: String)
    ensures
        r@ == placeholders_filled(template@, text_entries(d.view()), prefix@),
{
    let mut result = template.to_string();
    let n = d.len();
    let mut i: usize = 0;
    let ghost te = text_entries(d.view());
    assert(te.take(0) =~= Seq::<(Seq<char>, Seq<char>)>::empty());
    while i < n
        invariant
            i <= n,
            n == d.view().len(),
            te == text_entries(d.view()),
            result@ == placeholders_filled(template@, te.take(i as int), prefix@),
        decreases n - i,
    {
        proof {
            assert(te.take(i + 1).drop_last() =~= te.take(i as int));
        }
        let open = crate::text::concat("{", prefix);
        let key = crate::text::concat3(open.as_str(), d.key_at(i).as_str(), "}");
        assert(key@ == "{"@ + prefix@ + d.view()[i as int].0 + "}"@);
        result = crate::text::str_replace(result.as_str(), key.as_str(), d.value_at(i).as_str());
        i = i + 1;
    }
    assert(te.take(n as int) =~= te);
    result
}

/// An equal copy of a dictionary of strings.
pub fn copy_texts(from: &Dict<String>) -> (r: Dict<String>)
    ensures
        r.view() == from.view(),
{
    let r = from.clone();
    assert forall|i: int| 0 <= i < from.view().len() implies #[trigger] r.view()[i] == from.view()[i] by {
        assert(r.view()[i].0 == from.view()[i].0);
        assert(cloned::<String>(from.view()[i].1, r.view()[i].1));
        assert(r.view()[i].1 == from.view()[i].1);
    }
    assert(r.view() =~= from.view());
    r
}

/// An equal copy of a list of strings.
pub fn copy_strings(from: &Vec<String>) -> (r: Vec<String>)
    ensures
        r@ == from@,
{
    let r = from.clone();
    assert forall|i: int| 0 <= i < from@.len() implies #[trigger] r@[i] == from@[i] by {
        assert(cloned::<String>(from@[i], r@[i]));
    }
    assert(r@ =~= from@);
    r
}

/// The entries after storing each of `more` in turn.
pub open spec fn inserted_all<V>(e: Seq<(Seq<char>, V)>, more: Seq<(Seq<char>, V)>) -> Seq<(Seq<char>, V)>
    decreases more.len(),
{
    if more.len() == 0 {
        e
    } else {
        inserted(inserted_all(e, more.drop_last()), more.last().0, more.last().1)
    }
}

} // verus!
