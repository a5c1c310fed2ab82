use vstd::prelude::*;

verus! {

/// The keys of a sequence of keyed entries, in order.
pub open spec fn keys_of<V>(s: Seq<(u128, V)>) -> Seq<u128> {
    s.map_values(|e: (u128, V)| e.0)
}

/// The map that a sequence of entries with distinct keys stands for.
pub open spec fn map_of<V>(s: Seq<(u128, V)>) -> Map<u128, V> {
    Map::new(|k: u128| keys_of(s).contains(k), |k: u128| s[keys_of(s).index_of(k)].1)
}

/// Entry `i` of a sequence with distinct keys is what the map holds under its key.
pub proof fn lemma_entry_in_map<V>(s: Seq<(u128, V)>, i: int)
    requires
        keys_of(s).no_duplicates(),
        0 <= i < s.len(),
    ensures
        map_of(s).contains_key(s[i].0),
        map_of(s)[s[i].0] == s[i].1,
{
    let ks = keys_of(s);
    assert(ks[i] == s[i].0);
    assert(ks.contains(s[i].0));
    let j = ks.index_of(s[i].0);
    assert(0 <= j < ks.len() && ks[j] == s[i].0);
}

/// Every key of the map is the key of some entry.
pub proof fn lemma_key_has_entry<V>(s: Seq<(u128, V)>, k: u128) -> (i: int)
    requires
        map_of(s).contains_key(k),
    ensures
        0 <= i < s.len(),
        s[i].0 == k,
{
    let ks = keys_of(s);
    let i = ks.index_of(k);
    assert(ks[i] == k);
    i
}

/// A map given by entries with distinct keys has as many keys as entries.
pub proof fn lemma_map_len<V>(s: Seq<(u128, V)>)
    requires
        keys_of(s).no_duplicates(),
    ensures
        map_of(s).dom() == keys_of(s).to_set(),
        map_of(s).len() == s.len(),
{
    assert(map_of(s).dom() =~= keys_of(s).to_set());
    keys_of(s).unique_seq_to_set();
}

/// Pushing an entry under a fresh key inserts it into the map.
pub proof fn lemma_push<V>(s: Seq<(u128, V)>, k: u128, v: V)
    requires
        keys_of(s).no_duplicates(),
        !keys_of(s).contains(k),
    ensures
        keys_of(s.push((k, v))) == keys_of(s).push(k),
        keys_of(s.push((k, v))).no_duplicates(),
        map_of(s.push((k, v))) == map_of(s).insert(k, v),
{
    let t = s.push((k, v));
    assert(keys_of(t) =~= keys_of(s).push(k));
    assert forall|a: int, b: int| 0 <= a < b < keys_of(t).len() implies keys_of(t)[a] != keys_of(t)[b] by {
        if b == s.len() {
            assert(keys_of(s)[a] == keys_of(t)[a]);
        } else {
            assert(keys_of(s)[a] == keys_of(t)[a] && keys_of(s)[b] == keys_of(t)[b]);
        }
    }
    assert forall|x: u128| #[trigger] map_of(t).contains_key(x) <==> map_of(s).insert(k, v).contains_key(x) by {
        assert(keys_of(t)[s.len() as int] == k);
        if keys_of(s).contains(x) {
            let i = keys_of(s).index_of(x);
            assert(keys_of(t)[i] == x);
        }
        if keys_of(t).contains(x) && x != k {
            let i = keys_of(t).index_of(x);
            assert(i < s.len());
            assert(keys_of(s)[i] == x);
        }
    }
    assert forall|x: u128| #[trigger] map_of(t).contains_key(x) implies map_of(t)[x] == map_of(s).insert(k, v)[x] by {
        if x == k {
            lemma_entry_in_map(t, s.len() as int);
        } else {
            let i = lemma_key_has_entry(s, x);
            lemma_entry_in_map(s, i);
            lemma_entry_in_map(t, i);
        }
    }
    assert(map_of(t) =~= map_of(s).insert(k, v));
}

/// Replacing the value of entry `i` updates the map under that entry's key.
pub proof fn lemma_update<V>(s: Seq<(u128, V)>, i: int, v: V)
    requires
        keys_of(s).no_duplicates(),
        0 <= i < s.len(),
    ensures
        keys_of(s.update(i, (s[i].0, v))) == keys_of(s),
        map_of(s.update(i, (s[i].0, v))) == map_of(s).insert(s[i].0, v),
{
    let t = s.update(i, (s[i].0, v));
    assert(keys_of(t) =~= keys_of(s));
    lemma_entry_in_map(s, i);
    assert forall|x: u128| #[trigger] map_of(t).contains_key(x) <==> map_of(s).insert(s[i].0, v).contains_key(x) by {}
    assert forall|x: u128| #[trigger] map_of(t).contains_key(x) implies map_of(t)[x] == map_of(s).insert(s[i].0, v)[x] by {
        let j = lemma_key_has_entry(s, x);
        lemma_entry_in_map(t, j);
        assert(keys_of(s)[j] == x && keys_of(s)[i] == s[i].0);
        if j != i {
            lemma_entry_in_map(s, j);
        }
    }
    assert(map_of(t) =~= map_of(s).insert(s[i].0, v));
}

/// Removing entry `i` removes its key from the map.
pub proof fn lemma_remove<V>(s: Seq<(u128, V)>, i: int)
    requires
        keys_of(s).no_duplicates(),
        0 <= i < s.len(),
    ensures
        keys_of(s.remove(i)) == keys_of(s).remove(i),
        keys_of(s.remove(i)).no_duplicates(),
        map_of(s.remove(i)) == map_of(s).remove(s[i].0),
{
    let t = s.remove(i);
    let k = s[i].0;
    assert(keys_of(t) =~= keys_of(s).remove(i));
    assert forall|a: int, b: int| 0 <= a < b < keys_of(t).len() implies keys_of(t)[a] != keys_of(t)[b] by {
        let a2 = if a < i { a } else { a + 1 };
        let b2 = if b < i { b } else { b + 1 };
        assert(keys_of(t)[a] == keys_of(s)[a2]);
        assert(keys_of(t)[b] == keys_of(s)[b2]);
    }
    assert forall|x: u128| #[trigger] map_of(t).contains_key(x) <==> map_of(s).remove(k).contains_key(x) by {
        if keys_of(t).contains(x) {
            let j = keys_of(t).index_of(x);
            let j2 = if j < i { j } else { j + 1 };
            assert(keys_of(s)[j2] == x);
            assert(keys_of(s)[i] == k);
            assert(x != k);
        }
        if keys_of(s).contains(x) && x != k {
            let j = keys_of(s).index_of(x);
            assert(j != i);
            let j2 = if j < i { j } else { j - 1 };
            assert(keys_of(t)[j2] == x);
        }
    }
    assert forall|x: u128| #[trigger] map_of(t).contains_key(x) implies map_of(t)[x] == map_of(s).remove(k)[x] by {
        let j = lemma_key_has_entry(t, x);
        lemma_entry_in_map(t, j);
        let j2 = if j < i { j } else { j + 1 };
        assert(t[j] == s[j2]);
        lemma_entry_in_map(s, j2);
    }
    assert(map_of(t) =~= map_of(s).remove(k));
}

/// A table of values keyed by 128-bit identifiers, each key at most once.
/// Entries keep the order in which their keys were first inserted.
#[derive(Debug)]
pub struct IdTable<V> {
    entries: Vec<(u128, V)>,
}

impl<V> View for IdTable<V> {
    type V = Map<u128, V>;

    closed spec fn view(&self) -> Map<u128, V> {
        map_of(self.entries@)
    }
}

impl<V> IdTable<V> {
    /// The entries in table order.
    pub closed spec fn seq(&self) -> Seq<(u128, V)> {
        self.entries@
    }

    /// No key is held twice.
    pub closed spec fn wf(&self) -> bool {
        keys_of(self.entries@).no_duplicates()
    }

    /// The table stands for the map of its entries, whose keys are distinct.
    pub proof fn lemma_table(&self)
        requires
            self.wf(),
        ensures
            keys_of(self.seq()).no_duplicates(),
            self@ == map_of(self.seq()),
    {
    }

    pub fn new() -> (t: Self)
        ensures
            t.wf(),
            t@ == Map::<u128, V>::empty(),
            t.seq() == Seq::<(u128, V)>::empty(),
    {
        let t = IdTable { entries: Vec::new() };
        assert(t@ =~= Map::<u128, V>::empty());
        t
    }

    pub fn len(&self) -> (n: usize)
        requires
            self.wf(),
        ensures
            n == self@.len(),
            n == self.seq().len(),
    {
        proof {
            lemma_map_len(self.entries@);
        }
        self.entries.len()
    }

    /// The position of the entry under `key`, if there is one.
    pub fn position(&self, key: u128) -> (r: Option<usize>)
        requires
            self.wf(),
        ensures
            r matches Some(i) ==> i < self.seq().len() && self.seq()[i as int].0 == key,
            r is None <==> !self@.contains_key(key),
    {
        let mut i: usize = 0;
        while i < self.entries.len()
            invariant
                self.wf(),
                i <= self.entries@.len(),
                forall|j: int| 0 <= j < i ==> self.entries@[j].0 != key,
            decreases self.entries@.len() - i,
        {
            if self.entries[i].0 == key {
                proof {
                    lemma_entry_in_map(self.entries@, i as int);
                }
                return Some(i);
            }
            i = i + 1;
        }
        proof {
            if self@.contains_key(key) {
                let j = lemma_key_has_entry(self.entries@, key);
            }
        }
        None
    }

    pub fn contains_key(&self, key: u128) -> (b: bool)
        requires
            self.wf(),
        ensures
            b == self@.contains_key(key),
    {
        self.position(key).is_some()
    }

    pub fn get(&self, key: u128) -> (r: Option<&V>)
        requires
            self.wf(),
        ensures
            r matches Some(v) ==> self@.contains_key(key) && *v == self@[key],
            r is None <==> !self@.contains_key(key),
    {
        match self.position(key) {
            Some(i) => {
                proof {
                    lemma_entry_in_map(self.entries@, i as int);
                }
                Some(&self.entries[i].1)
            },
            None => None,
        }
    }

    /// The entry at position `i`.
    pub fn entry(&self, i: usize) -> (e: &(u128, V))
        requires
            i < self.seq().len(),
        ensures
            *e == self.seq()[i as int],
    {
        &self.entries[i]
    }

    /// Inserts or replaces the value under `key`; a new key goes last.
    pub fn insert(&mut self, key: u128, value: V)
        requires
            old(self).wf(),
        ensures
            final(self).wf(),
            final(self)@ == old(self)@.insert(key, value),
            !old(self)@.contains_key(key) ==> final(self).seq() == old(self).seq().push((key, value)),
            old(self)@.contains_key(key) ==> final(self).seq().len() == old(self).seq().len() && forall|j: int|
                0 <= j < old(self).seq().len() ==> #[trigger] final(self).seq()[j] == if old(self).seq()[j].0
                    == key {
                    (key, value)
                } else {
                    old(self).seq()[j]
                },
    {
        match self.position(key) {
            Some(i) => {
                let ghost before = self.entries@;
                proof {
                    lemma_update(self.entries@, i as int, value);
                }
                self.entries.set(i, (key, value));
                assert forall|j: int| 0 <= j < before.len() && j != i implies before[j].0 != key by {
                    assert(keys_of(before)[j] == before[j].0 && keys_of(before)[i as int] == key);
                }
            },
            None => {
                proof {
                    lemma_push(self.entries@, key, value);
                }
                self.entries.push((key, value));
            },
        }
    }

    /// Removes the entry under `key` and returns its value; the other entries
    /// keep their order.
    pub fn remove(&mut self, key: u128) -> (r: Option<V>)
        requires
            old(self).wf(),
        ensures
            final(self).wf(),
            final(self)@ == old(self)@.remove(key),
            r matches Some(v) ==> old(self)@.contains_key(key) && v == old(self)@[key],
            r is None <==> !old(self)@.contains_key(key),
            r is None ==> final(self).seq() == old(self).seq(),
            r is Some ==> exists|i: int|
                0 <= i < old(self).seq().len() && (#[trigger] old(self).seq()[i]).0 == key && final(self).seq()
                    == old(self).seq().remove(i),
    {
        match self.position(key) {
            Some(i) => {
                proof {
                    lemma_entry_in_map(self.entries@, i as int);
                    lemma_remove(self.entries@, i as int);
                }
                let (_, v) = self.entries.remove(i);
                Some(v)
            },
            None => {
                assert(old(self)@.remove(key) =~= old(self)@);
                None
            },
        }
    }
}

} // verus!
