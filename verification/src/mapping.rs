use vstd::prelude::*;

verus! {

/// An associative mapping from string keys to values, held as a list of
/// entries with pairwise-distinct keys and read in contracts as a
/// mathematical map from character sequences to values.
pub struct StrMap<V> {
    entries: Vec<(String, V)>,
}

/// No two entries carry the same key.
pub(crate) open spec fn entry_keys_distinct<V>(entries: Seq<(String, V)>) -> bool {
    forall|i: int, j: int|
        0 <= i < j < entries.len() ==> (#[trigger] entries[i]).0@ != (#[trigger] entries[j]).0@
}

/// The map an entry list denotes: later entries win, though under
/// `entry_keys_distinct` the order never matters.
pub(crate) open spec fn assoc_map<V>(entries: Seq<(String, V)>) -> Map<Seq<char>, V>
    decreases entries.len(),
{
    if entries.len() == 0 {
        Map::empty()
    } else {
        assoc_map(entries.drop_last()).insert(entries.last().0@, entries.last().1)
    }
}

proof fn lemma_distinct_drop_last<V>(entries: Seq<(String, V)>)
    requires
        entries.len() > 0,
        entry_keys_distinct(entries),
    ensures
        entry_keys_distinct(entries.drop_last()),
{
    let rest = entries.drop_last();
    assert forall|i: int, j: int|
        0 <= i < j < rest.len() implies (#[trigger] rest[i]).0@ != (#[trigger] rest[j]).0@ by {
        assert(rest[i] == entries[i]);
        assert(rest[j] == entries[j]);
    }
}

/// With distinct keys, the denoted map holds exactly the listed keys, each
/// bound to its listed value.
proof fn lemma_assoc_map_props<V>(entries: Seq<(String, V)>)
    requires
        entry_keys_distinct(entries),
    ensures
        forall|k: Seq<char>|
            assoc_map(entries).contains_key(k) ==> exists|i: int|
                0 <= i < entries.len() && (#[trigger] entries[i]).0@ == k,
        forall|i: int|
            0 <= i < entries.len() ==> assoc_map(entries).contains_key(
                (#[trigger] entries[i]).0@,
            ) && assoc_map(entries)[entries[i].0@] == entries[i].1,
    decreases entries.len(),
{
    if entries.len() > 0 {
        let rest = entries.drop_last();
        let last = entries.last();
        lemma_distinct_drop_last(entries);
        lemma_assoc_map_props(rest);
        assert forall|k: Seq<char>|
            assoc_map(entries).contains_key(k) implies exists|i: int|
            0 <= i < entries.len() && (#[trigger] entries[i]).0@ == k by {
            if k == last.0@ {
                assert((entries[entries.len() - 1]).0@ == k);
            } else {
                assert(assoc_map(rest).contains_key(k));
                let i = choose|i: int| 0 <= i < rest.len() && (#[trigger] rest[i]).0@ == k;
                assert((entries[i]).0@ == k);
            }
        }
        assert forall|i: int|
            0 <= i < entries.len() implies assoc_map(entries).contains_key(
            (#[trigger] entries[i]).0@,
        ) && assoc_map(entries)[entries[i].0@] == entries[i].1 by {
            if i == entries.len() - 1 {
            } else {
                assert(rest[i] == entries[i]);
                assert(entries[i].0@ != last.0@);
            }
        }
    }
}

/// Appending an entry with a fresh key inserts its binding.
proof fn lemma_assoc_map_push<V>(entries: Seq<(String, V)>, e: (String, V))
    requires
        entry_keys_distinct(entries),
        forall|j: int| 0 <= j < entries.len() ==> (#[trigger] entries[j]).0@ != e.0@,
    ensures
        assoc_map(entries.push(e)) == assoc_map(entries).insert(e.0@, e.1),
        entry_keys_distinct(entries.push(e)),
{
    let pushed = entries.push(e);
    assert(pushed.drop_last() =~= entries);
    assert(pushed.last() == e);
    assert forall|i: int, j: int|
        0 <= i < j < pushed.len() implies (#[trigger] pushed[i]).0@ != (#[trigger] pushed[j]).0@ by {
        assert(pushed[i] == entries[i]);
        if j < pushed.len() - 1 {
            assert(pushed[j] == entries[j]);
        } else {
            assert(pushed[j] == e);
        }
    }
}

/// Overwriting the entry that carries a key re-binds that key and nothing
/// else.
proof fn lemma_assoc_map_update<V>(entries: Seq<(String, V)>, i: int, e: (String, V))
    requires
        entry_keys_distinct(entries),
        0 <= i < entries.len(),
        entries[i].0@ == e.0@,
    ensures
        assoc_map(entries.update(i, e)) == assoc_map(entries).insert(e.0@, e.1),
        entry_keys_distinct(entries.update(i, e)),
    decreases entries.len(),
{
    let upd = entries.update(i, e);
    let rest = entries.drop_last();
    let last = entries.last();
    lemma_distinct_drop_last(entries);
    assert forall|p: int, q: int|
        0 <= p < q < upd.len() implies (#[trigger] upd[p]).0@ != (#[trigger] upd[q]).0@ by {
        assert(upd[p].0@ == entries[p].0@);
        assert(upd[q].0@ == entries[q].0@);
    }
    if i == entries.len() - 1 {
        assert(upd.drop_last() =~= rest);
        assert(upd.last() == e);
        assert(assoc_map(rest).insert(last.0@, last.1).insert(e.0@, e.1) =~= assoc_map(
            rest,
        ).insert(e.0@, e.1));
    } else {
        assert(upd.drop_last() =~= rest.update(i, e));
        assert(upd.last() == last);
        assert(rest[i] == entries[i]);
        lemma_assoc_map_update(rest, i, e);
        assert(entries[i].0@ != last.0@);
        assert(assoc_map(rest).insert(e.0@, e.1).insert(last.0@, last.1) =~= assoc_map(
            rest,
        ).insert(last.0@, last.1).insert(e.0@, e.1));
    }
}

impl<V> View for StrMap<V> {
    type V = Map<Seq<char>, V>;

    closed spec fn view(&self) -> Map<Seq<char>, V> {
        assoc_map(self.entries@)
    }
}

impl<V> StrMap<V> {
    /// The representation invariant: entry keys are pairwise distinct.
    pub closed spec fn wf(&self) -> bool {
        entry_keys_distinct(self.entries@)
    }

    /// An empty mapping.
    pub fn new() -> (r: StrMap<V>)
        ensures
            r@ == Map::<Seq<char>, V>::empty(),
            r.wf(),
    {
        StrMap { entries: Vec::new() }
    }

    /// Position of the entry holding `key`, if one does.
    fn index_of(&self, key: &str) -> (r: Option<usize>)
        ensures
            match r {
                Some(i) => i < self.entries@.len() && self.entries@[i as int].0@ == key@,
                None => forall|j: int|
                    0 <= j < self.entries@.len() ==> (#[trigger] self.entries@[j]).0@ != key@,
            },
    {
        let k: String = key.to_owned();
        let n = self.entries.len();
        let mut i: usize = 0;
        while i < n
            invariant
                n == self.entries@.len(),
                i <= n,
                k@ == key@,
                forall|j: int| 0 <= j < i ==> (#[trigger] self.entries@[j]).0@ != key@,
            decreases n - i,
        {
            if self.entries[i].0 == k {
                return Some(i);
            }
            i = i + 1;
        }
        None
    }

    /// Binds `key` to `value`, replacing any earlier binding.
    pub fn insert(&mut self, key: &str, value: V)
        requires
            old(self).wf(),
        ensures
            final(self).wf(),
            final(self)@ == old(self)@.insert(key@, value),
    {
        let k: String = key.to_owned();
        match self.index_of(key) {
            Some(i) => {
                proof {
                    lemma_assoc_map_update(
                        self.entries@,
                        i as int,
                        (k, value),
                    );
                }
                self.entries[i] = (k, value);
            },
            None => {
                proof {
                    lemma_assoc_map_push(self.entries@, (k, value));
                }
                self.entries.push((k, value));
            },
        }
    }

    /// Binds `key` to `value` only where the mapping does not hold the key
    /// yet; an existing binding is kept.
    pub fn or_insert(&mut self, key: &str, value: V)
        requires
            old(self).wf(),
        ensures
            final(self).wf(),
            final(self)@ == if old(self)@.contains_key(key@) {
                old(self)@
            } else {
                old(self)@.insert(key@, value)
            },
    {
        let k: String = key.to_owned();
        proof {
            lemma_assoc_map_props(self.entries@);
        }
        match self.index_of(key) {
            Some(_) => {},
            None => {
                proof {
                    lemma_assoc_map_push(self.entries@, (k, value));
                }
                self.entries.push((k, value));
            },
        }
    }

    /// Whether the mapping holds `key`.
    pub fn contains_key(&self, key: &str) -> (r: bool)
        requires
            self.wf(),
        ensures
            r == self@.contains_key(key@),
    {
        proof {
            lemma_assoc_map_props(self.entries@);
        }
        match self.index_of(key) {
            Some(_) => true,
            None => false,
        }
    }
}

impl<V: Copy> StrMap<V> {
    /// Lookup with a caller-supplied default: an absent key yields the
    /// default instead of failing.
    pub fn get_or(&self, key: &str, default: V) -> (r: V)
        requires
            self.wf(),
        ensures
            r == if self@.contains_key(key@) {
                self@[key@]
            } else {
                default
            },
    {
        proof {
            lemma_assoc_map_props(self.entries@);
        }
        match self.index_of(key) {
            Some(i) => self.entries[i].1,
            None => default,
        }
    }

    /// The bindings as a list of key/value pairs, one per held key.
    pub fn pairs(&self) -> (r: Vec<(String, V)>)
        requires
            self.wf(),
        ensures
            forall|j: int|
                0 <= j < r@.len() ==> self@.contains_key((#[trigger] r@[j]).0@) && self@[r@[j].0@]
                    == r@[j].1,
            forall|k: Seq<char>|
                self@.contains_key(k) ==> exists|j: int| 0 <= j < r@.len() && (#[trigger] r@[j]).0@
                    == k,
            forall|p: int, q: int|
                0 <= p < q < r@.len() ==> (#[trigger] r@[p]).0@ != (#[trigger] r@[q]).0@,
    {
        proof {
            lemma_assoc_map_props(self.entries@);
        }
        let n = self.entries.len();
        let mut r: Vec<(String, V)> = Vec::new();
        let mut i: usize = 0;
        while i < n
            invariant
                n == self.entries@.len(),
                i <= n,
                r@.len() == i,
                forall|j: int| 0 <= j < i ==> (#[trigger] r@[j]).0@ == self.entries@[j].0@
                    && r@[j].1 == self.entries@[j].1,
            decreases n - i,
        {
            r.push((self.entries[i].0.clone(), self.entries[i].1));
            i = i + 1;
        }
        proof {
            assert forall|k: Seq<char>|
                self@.contains_key(k) implies exists|j: int|
                0 <= j < r@.len() && (#[trigger] r@[j]).0@ == k by {
                let i = choose|i: int|
                    0 <= i < self.entries@.len() && (#[trigger] self.entries@[i]).0@ == k;
                assert(r@[i].0@ == k);
            }
            assert forall|p: int, q: int|
                0 <= p < q < r@.len() implies (#[trigger] r@[p]).0@ != (#[trigger] r@[q]).0@ by {
                assert(self.entries@[p].0@ != self.entries@[q].0@);
            }
        }
        r
    }
}

} // verus!
