//! The settings a user stored for each source: per source, values by setting.
//! Reading and writing the settings file is the application's part.
use vstd::prelude::*;
use crate::dict::{Dict, lookup, inserted, index_of_key, keys_unique};

verus! {

/// The entries without the one under `k` (unchanged when there is none).
pub open spec fn without<V>(e: Seq<(Seq<char>, V)>, k: Seq<char>) -> Seq<(Seq<char>, V)> {
    match index_of_key(e, k) {
        Some(i) => e.remove(i),
        None => e,
    }
}

/// The settings of source `source` (none when it has none).
pub open spec fn source_entries(v: Seq<(Seq<char>, Seq<(Seq<char>, serde_json::Value)>)>, source: Seq<char>) -> Seq<(Seq<char>, serde_json::Value)> {
    match lookup(v, source) {
        Some(inner) => inner,
        None => Seq::empty(),
    }
}

/// The value of setting `setting` of source `source`, if stored.
pub open spec fn setting_of(v: Seq<(Seq<char>, Seq<(Seq<char>, serde_json::Value)>)>, source: Seq<char>, setting: Seq<char>) -> Option<serde_json::Value> {
    match lookup(v, source) {
        Some(inner) => lookup(inner, setting),
        None => None,
    }
}

/// No source and no setting of a source occurs twice.
pub open spec fn settings_unique(v: Seq<(Seq<char>, Seq<(Seq<char>, serde_json::Value)>)>) -> bool {
    &&& keys_unique(v)
    &&& forall|i: int| 0 <= i < v.len() ==> keys_unique(#[trigger] v[i].1)
}

/// Entries with the same keys in the same order find a key at the same place.
proof fn lemma_same_keys<V, W>(e: Seq<(Seq<char>, V)>, f: Seq<(Seq<char>, W)>, k: Seq<char>)
    requires
        e.len() == f.len(),
        forall|i: int| 0 <= i < e.len() ==> #[trigger] e[i].0 == f[i].0,
        keys_unique(e),
    ensures
        keys_unique(f),
        index_of_key(f, k) == index_of_key(e, k),
{
    assert forall|a: int, b: int| 0 <= a < b < f.len() implies #[trigger] f[a].0 != #[trigger] f[b].0 by {
        assert(e[a].0 == f[a].0);
        assert(e[b].0 == f[b].0);
    }
    if exists|i: int| 0 <= i < e.len() && #[trigger] e[i].0 == k {
        let i = choose|i: int| 0 <= i < e.len() && #[trigger] e[i].0 == k;
        crate::dict::lemma_index_of_own_key(e, i);
        crate::dict::lemma_index_of_own_key(f, i);
        assert(f[i].0 == k);
    } else {
        assert(!(exists|i: int| 0 <= i < f.len() && #[trigger] f[i].0 == k)) by {
            if exists|i: int| 0 <= i < f.len() && #[trigger] f[i].0 == k {
                let i = choose|i: int| 0 <= i < f.len() && #[trigger] f[i].0 == k;
                assert(e[i].0 == k);
            }
        }
    }
}

/// The settings of a source hold no setting twice.
proof fn lemma_source_entries_unique(v: Seq<(Seq<char>, Seq<(Seq<char>, serde_json::Value)>)>, source: Seq<char>)
    requires
        settings_unique(v),
    ensures
        keys_unique(source_entries(v, source)),
{
    match index_of_key(v, source) {
        Some(i) => assert(keys_unique(v[i].1)),
        None => {},
    }
}

/// What is written is read back: after a setting of a source is stored,
/// reading it gives the stored value, and every other setting of every source
/// reads as before.
pub proof fn law_setting_read_after_write(v: Seq<(Seq<char>, Seq<(Seq<char>, serde_json::Value)>)>, source: Seq<char>, setting: Seq<char>, value: serde_json::Value, source2: Seq<char>, setting2: Seq<char>)
    requires
        settings_unique(v),
    ensures
        ({
            let after = inserted(v, source, inserted(source_entries(v, source), setting, value));
            &&& setting_of(after, source, setting) == Some(value)
            &&& (source2 != source || setting2 != setting) ==> setting_of(after, source2, setting2) == setting_of(v, source2, setting2)
        }),
{
    let inner = source_entries(v, source);
    lemma_source_entries_unique(v, source);
    let new_inner = inserted(inner, setting, value);
    crate::dict::law_lookup_inserted(inner, setting, value, setting2);
    crate::dict::law_lookup_inserted(v, source, new_inner, source2);
}

/// A cleared setting reads as unset; every other setting reads as before.
pub proof fn law_cleared_setting_reads_unset(v: Seq<(Seq<char>, Seq<(Seq<char>, serde_json::Value)>)>, source: Seq<char>, setting: Seq<char>, source2: Seq<char>, setting2: Seq<char>)
    requires
        settings_unique(v),
    ensures
        ({
            let after = match lookup(v, source) {
                Some(inner) => inserted(v, source, without(inner, setting)),
                None => v,
            };
            &&& setting_of(after, source, setting) is None
            &&& (source2 != source || setting2 != setting) ==> setting_of(after, source2, setting2) == setting_of(v, source2, setting2)
        }),
{
    lemma_source_entries_unique(v, source);
    match lookup(v, source) {
        Some(inner) => {
            crate::dict::law_lookup_removed(inner, setting, setting2);
            crate::dict::law_lookup_inserted(v, source, without(inner, setting), source2);
        },
        None => {},
    }
}

/// After all settings of a source are cleared, none of them is read; the
/// settings of other sources read as before.
pub proof fn law_cleared_source_reads_unset(v: Seq<(Seq<char>, Seq<(Seq<char>, serde_json::Value)>)>, source: Seq<char>, setting: Seq<char>, source2: Seq<char>)
    requires
        settings_unique(v),
    ensures
        setting_of(without(v, source), source, setting) is None,
        source2 != source ==> setting_of(without(v, source), source2, setting) == setting_of(v, source2, setting),
{
    crate::dict::law_lookup_removed(v, source, source2);
}

/// User settings stored per source.
#[derive(Debug)]
pub struct UserSettings {
    /// Settings values per source ID, then per setting ID.
    pub source_settings: Dict<Dict<serde_json::Value>>,
}

impl UserSettings {
    /// The sources in order, each with its settings in order.
    pub closed spec fn view(&self) -> Seq<(Seq<char>, Seq<(Seq<char>, serde_json::Value)>)> {
        self.source_settings.view().map_values(|p: (Seq<char>, Dict<serde_json::Value>)| (p.0, p.1.view()))
    }

    /// No settings at all.
    pub fn new() -> (r: Self)
        ensures
            r.view() == Seq::<(Seq<char>, Seq<(Seq<char>, serde_json::Value)>)>::empty(),
    {
        let r = UserSettings { source_settings: Dict::new() };
        assert(r.view() =~= Seq::<(Seq<char>, Seq<(Seq<char>, serde_json::Value)>)>::empty());
        r
    }

    /// Brings the uniqueness of the sources into a proof, with where a source is found.
    proof fn lemma_view(&self, k: Seq<char>)
        requires
            keys_unique(self.source_settings.view()),
        ensures
            keys_unique(self.view()),
            index_of_key(self.view(), k) == index_of_key(self.source_settings.view(), k),
            self.view().len() == self.source_settings.view().len(),
            forall|i: int| 0 <= i < self.view().len() ==> #[trigger] self.view()[i] == (self.source_settings.view()[i].0, self.source_settings.view()[i].1.view()),
    {
        let sv = self.source_settings.view();
        let v = self.view();
        assert forall|i: int| 0 <= i < sv.len() implies #[trigger] sv[i].0 == v[i].0 by {}
        lemma_same_keys(sv, v, k);
    }

    /// The stored value of setting `setting_id` of source `source_id`.
    pub fn get_setting(&self, source_id: &str, setting_id: &str) -> (r: Option<serde_json::Value>)
        ensures
            r == setting_of(self.view(), source_id@, setting_id@),
    {
        self.source_settings.assert_unique();
        proof { self.lemma_view(source_id@); }
        match self.source_settings.get(source_id) {
            Some(inner) => match inner.get(setting_id) {
                Some(v) => Some(v.clone()),
                None => None,
            },
            None => None,
        }
    }

    /// All settings of source `source_id` (none when it has none).
    pub fn get_source_settings(&self, source_id: &str) -> (r: Dict<serde_json::Value>)
        ensures
            r.view() == source_entries(self.view(), source_id@),
    {
        self.source_settings.assert_unique();
        proof { self.lemma_view(source_id@); }
        match self.source_settings.get(source_id) {
            Some(inner) => {
                let r = inner.clone();
                assert forall|i: int| 0 <= i < inner.view().len() implies #[trigger] r.view()[i] == inner.view()[i] by {
                    assert(r.view()[i].0 == inner.view()[i].0);
                    assert(cloned::<serde_json::Value>(inner.view()[i].1, r.view()[i].1));
                }
                assert(r.view() =~= inner.view());
                r
            },
            None => {
                let r = Dict::new();
                r
            },
        }
    }

    /// Stores `value` as setting `setting_id` of source `source_id`; a source
    /// seen for the first time goes after the others.
    pub fn set_setting(&mut self, source_id: &str, setting_id: &str, value: serde_json::Value)
        ensures
            final(self).view() == inserted(old(self).view(), source_id@,
                inserted(source_entries(old(self).view(), source_id@), setting_id@, value)),
    {
        self.source_settings.assert_unique();
        proof { self.lemma_view(source_id@); }
        let ghost old_view = self.view();
        match self.source_settings.position(source_id) {
            Some(i) => {
                let ghost sv = self.source_settings.view();
                proof { crate::dict::lemma_index_of_own_key(sv, i as int); }
                let (k, mut inner) = self.source_settings.remove_at(i);
                inner.insert(setting_id.to_string(), value);
                proof {
                    let rest = sv.remove(i as int);
                    assert(index_of_key(rest, k@) is None) by {
                        if exists|j: int| 0 <= j < rest.len() && #[trigger] rest[j].0 == k@ {
                            let j = choose|j: int| 0 <= j < rest.len() && #[trigger] rest[j].0 == k@;
                            if j < i { assert(sv[j].0 != sv[i as int].0); } else { assert(sv[j + 1].0 != sv[i as int].0); }
                        }
                    }
                }
                self.source_settings.insert_at(i, k, inner);
                assert(self.view() =~= old_view.update(i as int, (source_id@, inner.view())));
            },
            None => {
                let mut inner: Dict<serde_json::Value> = Dict::new();
                inner.insert(setting_id.to_string(), value);
                self.source_settings.insert(source_id.to_string(), inner);
                assert(self.view() =~= old_view.push((source_id@, inner.view())));
            },
        }
    }

    /// Replaces all settings of source `source_id` with `values`.
    pub fn set_source_settings(&mut self, source_id: &str, values: Dict<serde_json::Value>)
        ensures
            final(self).view() == inserted(old(self).view(), source_id@, values.view()),
    {
        self.source_settings.assert_unique();
        proof { self.lemma_view(source_id@); }
        let ghost old_view = self.view();
        let ghost vv = values.view();
        let ghost i = index_of_key(self.source_settings.view(), source_id@);
        self.source_settings.insert(source_id.to_string(), values);
        proof {
            match i {
                Some(i) => assert(self.view() =~= old_view.update(i, (source_id@, vv))),
                None => assert(self.view() =~= old_view.push((source_id@, vv))),
            }
        }
    }

    /// Forgets setting `setting_id` of source `source_id`.
    pub fn clear_setting(&mut self, source_id: &str, setting_id: &str)
        ensures
            final(self).view() == (match lookup(old(self).view(), source_id@) {
                Some(inner) => inserted(old(self).view(), source_id@, without(inner, setting_id@)),
                None => old(self).view(),
            }),
    {
        self.source_settings.assert_unique();
        proof { self.lemma_view(source_id@); }
        let ghost old_view = self.view();
        match self.source_settings.position(source_id) {
            Some(i) => {
                let ghost sv = self.source_settings.view();
                proof { crate::dict::lemma_index_of_own_key(sv, i as int); }
                let (k, mut inner) = self.source_settings.remove_at(i);
                inner.remove(setting_id);
                proof {
                    let rest = sv.remove(i as int);
                    assert(index_of_key(rest, k@) is None) by {
                        if exists|j: int| 0 <= j < rest.len() && #[trigger] rest[j].0 == k@ {
                            let j = choose|j: int| 0 <= j < rest.len() && #[trigger] rest[j].0 == k@;
                            if j < i { assert(sv[j].0 != sv[i as int].0); } else { assert(sv[j + 1].0 != sv[i as int].0); }
                        }
                    }
                }
                self.source_settings.insert_at(i, k, inner);
                assert(self.view() =~= old_view.update(i as int, (source_id@, inner.view())));
            },
            None => {},
        }
    }

    /// Forgets all settings of source `source_id`.
    pub fn clear_source_settings(&mut self, source_id: &str)
        ensures
            final(self).view() == without(old(self).view(), source_id@),
    {
        self.source_settings.assert_unique();
        proof { self.lemma_view(source_id@); }
        let ghost old_view = self.view();
        let ghost i = index_of_key(self.source_settings.view(), source_id@);
        self.source_settings.remove(source_id);
        proof {
            match i {
                Some(i) => assert(self.view() =~= old_view.remove(i)),
                None => assert(self.view() =~= old_view),
            }
        }
    }

    /// Brings into a proof that no source and no setting of a source occurs twice.
    pub fn assert_well_formed(&self)
        ensures
            settings_unique(self.view()),
    {
        self.source_settings.assert_unique();
        proof { self.lemma_view(Seq::empty()); }
        let n = self.source_settings.len();
        let mut i: usize = 0;
        while i < n
            invariant
                n == self.view().len(),
                i <= n,
                keys_unique(self.source_settings.view()),
                forall|j: int| 0 <= j < i ==> keys_unique(#[trigger] self.view()[j].1),
            decreases n - i,
        {
            proof { self.lemma_view(Seq::empty()); }
            self.source_settings.value_at(i).assert_unique();
            i = i + 1;
        }
        proof { self.lemma_view(Seq::empty()); }
    }
}

} // verus!
