use vstd::prelude::*;

verus! {

/// No two entries of `s` share a key.
pub open spec fn keys_unique<V>(s: Seq<(String, V)>) -> bool {
    forall|i: int, j: int| 0 <= i < j < s.len() ==> #[trigger] s[i].0@ != #[trigger] s[j].0@
}

/// Some entry of `s` has key `k`.
pub open spec fn has_key<V>(s: Seq<(String, V)>, k: Seq<char>) -> bool {
    exists|i: int| 0 <= i < s.len() && #[trigger] s[i].0@ == k
}

/// The map that a list of entries stands for; a later entry wins over an
/// earlier one with the same key.
pub open spec fn entries_map<V: DeepView>(s: Seq<(String, V)>) -> Map<Seq<char>, V::V>
    decreases s.len(),
{
    if s.len() == 0 {
        Map::empty()
    } else {
        entries_map(s.drop_last()).insert(s.last().0@, s.last().1.deep_view())
    }
}

/// A key is in the map exactly where some entry has it.
pub proof fn lemma_entries_map_dom<V: DeepView>(s: Seq<(String, V)>, k: Seq<char>)
    ensures
        entries_map(s).contains_key(k) <==> has_key(s, k),
    decreases s.len(),
{
    if s.len() > 0 {
        lemma_entries_map_dom(s.drop_last(), k);
        if has_key(s.drop_last(), k) {
            let i = choose|i: int| 0 <= i < s.len() - 1 && #[trigger] s.drop_last()[i].0@ == k;
            assert(s[i].0@ == k);
        }
        if has_key(s, k) && k != s.last().0@ {
            let i = choose|i: int| 0 <= i < s.len() && #[trigger] s[i].0@ == k;
            assert(s.drop_last()[i].0@ == k);
        }
    }
}

/// Without repeated keys, each entry's value is what the map holds for its key.
pub proof fn lemma_entries_map_at<V: DeepView>(s: Seq<(String, V)>, i: int)
    requires
        keys_unique(s),
        0 <= i < s.len(),
    ensures
        entries_map(s).contains_key(s[i].0@),
        entries_map(s)[s[i].0@] == s[i].1.deep_view(),
    decreases s.len(),
{
    if i < s.len() - 1 {
        assert(s.drop_last()[i] == s[i]);
        lemma_entries_map_at(s.drop_last(), i);
        assert(s[i].0@ != s[s.len() - 1].0@);
    }
}

/// Without repeated keys, the map has one key per entry.
pub proof fn lemma_entries_map_len<V: DeepView>(s: Seq<(String, V)>)
    requires
        keys_unique(s),
    ensures
        entries_map(s).dom().finite(),
        entries_map(s).dom().len() == s.len(),
    decreases s.len(),
{
    if s.len() > 0 {
        let t = s.drop_last();
        lemma_entries_map_len(t);
        lemma_entries_map_dom(t, s.last().0@);
        if has_key(t, s.last().0@) {
            let i = choose|i: int| 0 <= i < t.len() && #[trigger] t[i].0@ == s.last().0@;
            assert(s[i].0@ == s[s.len() - 1].0@);
        }
    }
}

/// Units with distinct keys, inserted one after another into an empty map in
/// whatever order they complete, all stay: one entry per unit, holding that
/// unit's own value.
pub proof fn lemma_distinct_units_all_kept<V: DeepView>(units: Seq<(String, V)>)
    requires
        keys_unique(units),
    ensures
        entries_map(units).dom().finite(),
        entries_map(units).dom().len() == units.len(),
        forall|i: int|
            0 <= i < units.len() ==> #[trigger] entries_map(units).contains_key(units[i].0@)
                && entries_map(units)[units[i].0@] == units[i].1.deep_view(),
{
    lemma_entries_map_len(units);
    assert forall|i: int| 0 <= i < units.len() implies #[trigger] entries_map(units).contains_key(
        units[i].0@,
    ) && entries_map(units)[units[i].0@] == units[i].1.deep_view() by {
        lemma_entries_map_at(units, i);
    }
}

/// Two completion orders of the same units with distinct keys give the same
/// map.
pub proof fn lemma_completion_order_irrelevant<V: DeepView>(
    a: Seq<(String, V)>,
    b: Seq<(String, V)>,
)
    requires
        keys_unique(a),
        keys_unique(b),
        a.to_set() == b.to_set(),
    ensures
        entries_map(a) == entries_map(b),
{
    assert forall|x: (String, V)| a.contains(x) <==> b.contains(x) by {
        assert(a.to_set().contains(x) == a.contains(x));
        assert(b.to_set().contains(x) == b.contains(x));
    }
    assert forall|k: Seq<char>| #[trigger] entries_map(a).contains_key(k) == entries_map(b).contains_key(k)
        by {
        lemma_entries_map_dom(a, k);
        lemma_entries_map_dom(b, k);
        if has_key(a, k) {
            let i = choose|i: int| 0 <= i < a.len() && #[trigger] a[i].0@ == k;
            assert(a.contains(a[i]));
        }
        if has_key(b, k) {
            let i = choose|i: int| 0 <= i < b.len() && #[trigger] b[i].0@ == k;
            assert(b.contains(b[i]));
        }
    }
    assert forall|k: Seq<char>| #[trigger] entries_map(a).contains_key(k) implies entries_map(a)[k]
        == entries_map(b)[k] by {
        lemma_entries_map_dom(a, k);
        let i = choose|i: int| 0 <= i < a.len() && #[trigger] a[i].0@ == k;
        assert(a.contains(a[i]));
        let j = choose|j: int| 0 <= j < b.len() && b[j] == a[i];
        lemma_entries_map_at(a, i);
        lemma_entries_map_at(b, j);
    }
    assert(entries_map(a) =~= entries_map(b));
}

/// A map keyed by strings, kept as a list of entries without repeated keys.
pub struct Table<V> {
    entries: Vec<(String, V)>,
}

impl<V: DeepView> DeepView for Table<V> {
    type V = Map<Seq<char>, V::V>;

    closed spec fn deep_view(&self) -> Map<Seq<char>, V::V> {
        entries_map(self.entries@)
    }
}

impl<V> Table<V> {
    #[verifier::type_invariant]
    spec fn inv(&self) -> bool {
        keys_unique(self.entries@)
    }
}

impl<V: DeepView> Table<V> {
    /// The empty table.
    pub fn new() -> (r: Self)
        ensures
            r.deep_view() == Map::<Seq<char>, V::V>::empty(),
    {
        Table { entries: Vec::new() }
    }

    /// The entries, each key once.
    pub fn entries(&self) -> (r: &Vec<(String, V)>)
        ensures
            keys_unique(r@),
            entries_map(r@) == self.deep_view(),
    {
        proof {
            use_type_invariant(self);
        }
        &self.entries
    }

    /// Number of keys.
    pub fn len(&self) -> (r: usize)
        ensures
            self.deep_view().dom().finite(),
            r == self.deep_view().dom().len(),
    {
        proof {
            use_type_invariant(self);
            lemma_entries_map_len(self.entries@);
        }
        self.entries.len()
    }

    fn position(&self, key: &String) -> (r: Option<usize>)
        ensures
            r matches Some(i) ==> i < self.entries@.len() && self.entries@[i as int].0@ == key@,
            r is None ==> !has_key(self.entries@, key@),
    {
        let mut i: usize = 0;
        while i < self.entries.len()
            invariant
                i <= self.entries@.len(),
                forall|j: int| 0 <= j < i ==> #[trigger] self.entries@[j].0@ != key@,
            decreases self.entries@.len() - i,
        {
            if self.entries[i].0 == *key {
                return Some(i);
            }
            i = i + 1;
        }
        None
    }

    /// Whether `key` has an entry.
    pub fn contains_key(&self, key: &String) -> (r: bool)
        ensures
            r == self.deep_view().contains_key(key@),
    {
        proof {
            lemma_entries_map_dom(self.entries@, key@);
        }
        self.position(key).is_some()
    }

    /// The value under `key`.
    pub fn get(&self, key: &String) -> (r: Option<&V>)
        ensures
            r is Some == self.deep_view().contains_key(key@),
            r matches Some(v) ==> v.deep_view() == self.deep_view()[key@],
    {
        proof {
            use_type_invariant(self);
            lemma_entries_map_dom(self.entries@, key@);
        }
        match self.position(key) {
            Some(i) => {
                proof {
                    lemma_entries_map_at(self.entries@, i as int);
                }
                Some(&self.entries[i].1)
            },
            None => None,
        }
    }

    /// Removes the entry of `key` and hands its value back.
    pub fn take(&mut self, key: &String) -> (r: Option<V>)
        ensures
            r is Some == old(self).deep_view().contains_key(key@),
            r matches Some(v) ==> v.deep_view() == old(self).deep_view()[key@],
            final(self).deep_view() == old(self).deep_view().remove(key@),
    {
        proof {
            use_type_invariant(&*self);
            lemma_entries_map_dom(self.entries@, key@);
        }
        match self.position(key) {
            Some(i) => {
                let ghost s = self.entries@;
                proof {
                    lemma_entries_map_at(s, i as int);
                }
                let mut whole = Table::new();
                core::mem::swap(self, &mut whole);
                let Table { mut entries } = whole;
                let (_, v) = entries.remove(i);
                let ghost t = entries@;
                assert(t == s.remove(i as int));
                assert forall|a: int, b: int| 0 <= a < b < t.len() implies #[trigger] t[a].0@
                    != #[trigger] t[b].0@ by {
                    let a2 = if a < i { a } else { a + 1 };
                    let b2 = if b < i { b } else { b + 1 };
                    assert(t[a] == s[a2] && t[b] == s[b2]);
                }
                proof {
                    assert forall|k: Seq<char>| #[trigger]
                        entries_map(t).contains_key(k) == entries_map(s).remove(
                            key@,
                        ).contains_key(k) by {
                        lemma_entries_map_dom(t, k);
                        lemma_entries_map_dom(s, k);
                        if has_key(s, k) && k != key@ {
                            let j = choose|j: int| 0 <= j < s.len() && #[trigger] s[j].0@ == k;
                            let j2 = if j < i { j } else { j - 1 };
                            assert(t[j2] == s[j]);
                        }
                        if has_key(t, k) {
                            let j = choose|j: int| 0 <= j < t.len() && #[trigger] t[j].0@ == k;
                            let j2 = if j < i { j } else { j + 1 };
                            assert(t[j] == s[j2]);
                        }
                    }
                    assert forall|k: Seq<char>| #[trigger]
                        entries_map(t).contains_key(k) implies entries_map(t)[k] == entries_map(
                        s,
                    )[k] by {
                        lemma_entries_map_dom(t, k);
                        let j = choose|j: int| 0 <= j < t.len() && #[trigger] t[j].0@ == k;
                        let j2 = if j < i { j } else { j + 1 };
                        assert(t[j] == s[j2]);
                        lemma_entries_map_at(t, j);
                        lemma_entries_map_at(s, j2);
                    }
                    assert(entries_map(t) =~= entries_map(s).remove(key@));
                }
                *self = Table { entries };
                Some(v)
            },
            None => {
                assert(self.deep_view() =~= self.deep_view().remove(key@));
                None
            },
        }
    }

    /// Sets the value under `key`, replacing any earlier one.
    pub fn insert(&mut self, key: String, v: V)
        ensures
            final(self).deep_view() == old(self).deep_view().insert(key@, v.deep_view()),
    {
        let _ = self.take(&key);
        proof {
            use_type_invariant(&*self);
            lemma_entries_map_dom(self.entries@, key@);
        }
        let ghost s = self.entries@;
        let mut whole = Table::new();
        core::mem::swap(self, &mut whole);
        let Table { mut entries } = whole;
        entries.push((key, v));
        assert(entries@.drop_last() == s);
        assert forall|a: int, b: int| 0 <= a < b < entries@.len() implies #[trigger] entries@[a].0@
            != #[trigger] entries@[b].0@ by {
            if b == entries@.len() - 1 {
                assert(s[a].0@ == entries@[a].0@);
            } else {
                assert(s[a] == entries@[a] && s[b] == entries@[b]);
            }
        }
        *self = Table { entries };
        assert(self.deep_view() =~= old(self).deep_view().insert(key@, v.deep_view()));
    }
}

} // verus!
