//! A table of values keyed by text: the shape of the relay's pending
//! responses and of its connected devices.

use vstd::prelude::*;

verus! {

/// The map that a list of key/value pairs stands for; a later pair for a
/// key overrides an earlier one.
pub open spec fn pairs_map<V>(s: Seq<(Seq<char>, V)>) -> Map<Seq<char>, V>
    decreases s.len(),
{
    if s.len() == 0 {
        Map::empty()
    } else {
        pairs_map(s.drop_last()).insert(s.last().0, s.last().1)
    }
}

/// No key occurs twice in the list.
pub open spec fn keys_distinct<V>(s: Seq<(Seq<char>, V)>) -> bool {
    forall|i: int, j: int| 0 <= i < j < s.len() ==> s[i].0 != s[j].0
}

proof fn lemma_pairs_map_push<V>(s: Seq<(Seq<char>, V)>, x: (Seq<char>, V))
    ensures
        pairs_map(s.push(x)) == pairs_map(s).insert(x.0, x.1),
{
    assert(s.push(x).drop_last() =~= s);
}

/// A key is in the map exactly when some pair holds it, and with distinct
/// keys the map gives the value of that pair.
proof fn lemma_pairs_map_lookup<V>(s: Seq<(Seq<char>, V)>, k: Seq<char>)
    requires
        keys_distinct(s),
    ensures
        pairs_map(s).dom().contains(k) <==> exists|i: int| 0 <= i < s.len() && s[i].0 == k,
        forall|i: int| 0 <= i < s.len() && s[i].0 == k ==> pairs_map(s)[k] == s[i].1,
    decreases s.len(),
{
    if s.len() > 0 {
        let t = s.drop_last();
        let n = s.len() - 1;
        assert forall|a: int, b: int| 0 <= a < b < t.len() implies t[a].0 != t[b].0 by {
            assert(t[a] == s[a]);
            assert(t[b] == s[b]);
        }
        lemma_pairs_map_lookup(t, k);
        if pairs_map(s).dom().contains(k) {
            if s[n].0 != k {
                let i = choose|i: int| 0 <= i < t.len() && t[i].0 == k;
                assert(s[i].0 == k);
            } else {
                assert(s[n].0 == k);
            }
        }
        if exists|i: int| 0 <= i < s.len() && s[i].0 == k {
            let i = choose|i: int| 0 <= i < s.len() && s[i].0 == k;
            if i < n {
                assert(t[i].0 == k);
            }
        }
        assert forall|i: int| 0 <= i < s.len() && s[i].0 == k implies pairs_map(s)[k] == s[i].1 by {
            if i < n {
                assert(t[i] == s[i]);
                assert(s[n].0 != k);
            }
        }
    }
}

proof fn lemma_pairs_map_remove<V>(s: Seq<(Seq<char>, V)>, i: int)
    requires
        keys_distinct(s),
        0 <= i < s.len(),
    ensures
        keys_distinct(s.remove(i)),
        pairs_map(s.remove(i)) == pairs_map(s).remove(s[i].0),
    decreases s.len(),
{
    let r = s.remove(i);
    assert forall|a: int, b: int| 0 <= a < b < r.len() implies r[a].0 != r[b].0 by {
        let a2 = if a < i { a } else { a + 1 };
        let b2 = if b < i { b } else { b + 1 };
        assert(r[a] == s[a2]);
        assert(r[b] == s[b2]);
    }
    if i == s.len() - 1 {
        assert(r =~= s.drop_last());
        lemma_pairs_map_lookup(r, s[i].0);
        assert(pairs_map(r) =~= pairs_map(s).remove(s[i].0));
    } else {
        let t = s.drop_last();
        lemma_pairs_map_remove(t, i);
        assert(r.drop_last() =~= t.remove(i));
        assert(r.last() == s.last());
        assert(pairs_map(r) =~= pairs_map(s).remove(s[i].0));
    }
}

proof fn lemma_pairs_map_update<V>(s: Seq<(Seq<char>, V)>, i: int, v: V)
    requires
        keys_distinct(s),
        0 <= i < s.len(),
    ensures
        keys_distinct(s.update(i, (s[i].0, v))),
        pairs_map(s.update(i, (s[i].0, v))) == pairs_map(s).insert(s[i].0, v),
    decreases s.len(),
{
    let u = s.update(i, (s[i].0, v));
    assert forall|a: int, b: int| 0 <= a < b < u.len() implies u[a].0 != u[b].0 by {
        assert(u[a].0 == s[a].0);
        assert(u[b].0 == s[b].0);
    }
    let t = s.drop_last();
    if i == s.len() - 1 {
        assert(u.drop_last() =~= t);
        lemma_pairs_map_lookup(t, s[i].0);
        assert(pairs_map(u) =~= pairs_map(s).insert(s[i].0, v));
    } else {
        lemma_pairs_map_update(t, i, v);
        assert(u.drop_last() =~= t.update(i, (t[i].0, v)));
        assert(pairs_map(u) =~= pairs_map(s).insert(s[i].0, v));
    }
}

/// The pairs of a list of entries, each key taken by its text.
pub open spec fn entry_pairs<V>(entries: Seq<(String, V)>) -> Seq<(Seq<char>, V)> {
    entries.map_values(|e: (String, V)| (e.0@, e.1))
}

fn find_key<V>(entries: &Vec<(String, V)>, key: &String) -> (r: Option<usize>)
    requires
        keys_distinct(entry_pairs(entries@)),
    ensures
        r is None <==> !pairs_map(entry_pairs(entries@)).dom().contains(key@),
        r matches Some(i) ==> i < entries@.len() && entry_pairs(entries@)[i as int].0 == key@
            && pairs_map(entry_pairs(entries@))[key@] == entry_pairs(entries@)[i as int].1,
{
    let ghost pairs = entry_pairs(entries@);
    proof {
        lemma_pairs_map_lookup(pairs, key@);
    }
    let n = entries.len();
    let mut i: usize = 0;
    while i < n
        invariant
            n == entries@.len(),
            n == pairs.len(),
            pairs == entry_pairs(entries@),
            keys_distinct(pairs),
            i <= n,
            forall|j: int| 0 <= j < i ==> pairs[j].0 != key@,
        decreases n - i,
    {
        assert(pairs[i as int] == (entries@[i as int].0@, entries@[i as int].1));
        if entries[i].0 == *key {
            proof {
                lemma_pairs_map_lookup(pairs, key@);
            }
            return Some(i);
        }
        i = i + 1;
    }
    None
}

/// Key/value pairs with distinct text keys, seen as a `Map`.
pub struct KeyedTable<V> {
    entries: Vec<(String, V)>,
}

impl<V> KeyedTable<V> {
    /// No key occurs twice.
    #[verifier::type_invariant]
    spec fn wf(&self) -> bool {
        keys_distinct(entry_pairs(self.entries@))
    }

    /// The table's contents.
    pub closed spec fn contents(&self) -> Map<Seq<char>, V> {
        pairs_map(entry_pairs(self.entries@))
    }

    /// An empty table.
    pub fn new() -> (t: Self)
        ensures
            t.contents() == Map::<Seq<char>, V>::empty(),
    {
        let entries: Vec<(String, V)> = Vec::new();
        assert(entry_pairs(entries@) =~= Seq::<(Seq<char>, V)>::empty());
        KeyedTable { entries }
    }

    /// Whether the table holds `key`.
    pub fn contains_key(&self, key: &String) -> (r: bool)
        ensures
            r == self.contents().dom().contains(key@),
    {
        proof {
            use_type_invariant(self);
        }
        find_key(&self.entries, key).is_some()
    }

    /// The value held under `key`.
    pub fn get(&self, key: &String) -> (r: Option<&V>)
        ensures
            r is None <==> !self.contents().dom().contains(key@),
            r matches Some(v) ==> *v == self.contents()[key@],
    {
        proof {
            use_type_invariant(self);
        }
        match find_key(&self.entries, key) {
            Some(i) => Some(&self.entries[i].1),
            None => None,
        }
    }

    /// Puts `value` under `key`, replacing what was there.
    pub fn insert(&mut self, key: String, value: V)
        ensures
            final(self).contents() == old(self).contents().insert(key@, value),
    {
        proof {
            use_type_invariant(&*self);
        }
        let mut entries: Vec<(String, V)> = Vec::new();
        std::mem::swap(&mut entries, &mut self.entries);
        let ghost pairs = entry_pairs(entries@);
        let ghost k = key@;
        match find_key(&entries, &key) {
            Some(i) => {
                proof {
                    lemma_pairs_map_update(pairs, i as int, value);
                }
                entries.set(i, (key, value));
                assert(entry_pairs(entries@) =~= pairs.update(i as int, (k, value)));
            },
            None => {
                proof {
                    lemma_pairs_map_lookup(pairs, k);
                    lemma_pairs_map_push(pairs, (k, value));
                    assert forall|a: int, b: int| 0 <= a < b < pairs.push((k, value)).len() implies
                        pairs.push((k, value))[a].0 != pairs.push((k, value))[b].0 by {
                        if b == pairs.len() {
                            assert(pairs[a].0 != k);
                        }
                    }
                }
                entries.push((key, value));
                assert(entry_pairs(entries@) =~= pairs.push((k, value)));
            },
        }
        self.entries = entries;
    }

    /// Takes the value under `key` out of the table.
    pub fn remove(&mut self, key: &String) -> (r: Option<V>)
        ensures
            final(self).contents() == old(self).contents().remove(key@),
            r is None <==> !old(self).contents().dom().contains(key@),
            r matches Some(v) ==> v == old(self).contents()[key@],
    {
        proof {
            use_type_invariant(&*self);
        }
        let mut entries: Vec<(String, V)> = Vec::new();
        std::mem::swap(&mut entries, &mut self.entries);
        let ghost pairs = entry_pairs(entries@);
        let r = match find_key(&entries, key) {
            Some(i) => {
                proof {
                    lemma_pairs_map_remove(pairs, i as int);
                }
                let (_, v) = entries.remove(i);
                assert(entry_pairs(entries@) =~= pairs.remove(i as int));
                Some(v)
            },
            None => {
                assert(pairs_map(pairs).remove(key@) =~= pairs_map(pairs));
                None
            },
        };
        self.entries = entries;
        r
    }

    /// Empties the table.
    pub fn clear(&mut self)
        ensures
            final(self).contents() == Map::<Seq<char>, V>::empty(),
    {
        let entries: Vec<(String, V)> = Vec::new();
        assert(entry_pairs(entries@) =~= Seq::<(Seq<char>, V)>::empty());
        self.entries = entries;
    }
}

} // verus!
