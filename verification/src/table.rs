//! A small map keyed by text, kept as a list of distinct keys in insertion
//! order. It stands where the collectors keep a `HashMap<String, _>`.

use vstd::prelude::*;

verus! {

/// The map that a list of entries stands for; a later entry for a key
/// overrides an earlier one.
pub open spec fn entries_map<V>(entries: Seq<(String, V)>) -> Map<Seq<char>, V>
    decreases entries.len(),
{
    if entries.len() == 0 {
        Map::empty()
    } else {
        entries_map(entries.drop_last()).insert(entries.last().0@, entries.last().1)
    }
}

/// No key occurs twice.
pub open spec fn distinct_keys<V>(entries: Seq<(String, V)>) -> bool {
    forall|i: int, j: int|
        0 <= i < entries.len() && 0 <= j < entries.len() && i != j ==> #[trigger] entries[i].0@
            != #[trigger] entries[j].0@
}

proof fn lemma_absent<V>(entries: Seq<(String, V)>, k: Seq<char>)
    requires
        forall|i: int| 0 <= i < entries.len() ==> #[trigger] entries[i].0@ != k,
    ensures
        !entries_map(entries).dom().contains(k),
    decreases entries.len(),
{
    if entries.len() > 0 {
        let d = entries.drop_last();
        assert forall|i: int| 0 <= i < d.len() implies #[trigger] d[i].0@ != k by {
            assert(d[i] == entries[i]);
        }
        lemma_absent(d, k);
        assert(entries.last() == entries[entries.len() - 1]);
    }
}

proof fn lemma_present<V>(entries: Seq<(String, V)>, i: int)
    requires
        distinct_keys(entries),
        0 <= i < entries.len(),
    ensures
        entries_map(entries).dom().contains(entries[i].0@),
        entries_map(entries)[entries[i].0@] == entries[i].1,
    decreases entries.len(),
{
    let n = entries.len();
    if i < n - 1 {
        let d = entries.drop_last();
        assert forall|a: int, b: int|
            0 <= a < d.len() && 0 <= b < d.len() && a != b implies #[trigger] d[a].0@
            != #[trigger] d[b].0@ by {
            assert(d[a] == entries[a] && d[b] == entries[b]);
        }
        assert(d[i] == entries[i]);
        lemma_present(d, i);
        assert(entries[n - 1].0@ != entries[i].0@);
    }
}

proof fn lemma_update<V>(entries: Seq<(String, V)>, i: int, e: (String, V))
    requires
        distinct_keys(entries),
        0 <= i < entries.len(),
        e.0@ == entries[i].0@,
    ensures
        entries_map(entries.update(i, e)) == entries_map(entries).insert(e.0@, e.1),
        distinct_keys(entries.update(i, e)),
    decreases entries.len(),
{
    let n = entries.len();
    let u = entries.update(i, e);
    assert forall|a: int, b: int|
        0 <= a < u.len() && 0 <= b < u.len() && a != b implies #[trigger] u[a].0@
        != #[trigger] u[b].0@ by {
        assert(u[a].0@ == entries[a].0@);
        assert(u[b].0@ == entries[b].0@);
    }
    if i == n - 1 {
        assert(u.drop_last() =~= entries.drop_last());
        assert(entries_map(u) =~= entries_map(entries).insert(e.0@, e.1));
    } else {
        let d = entries.drop_last();
        assert forall|a: int, b: int|
            0 <= a < d.len() && 0 <= b < d.len() && a != b implies #[trigger] d[a].0@
            != #[trigger] d[b].0@ by {
            assert(d[a] == entries[a] && d[b] == entries[b]);
        }
        lemma_update(d, i, e);
        assert(u.drop_last() =~= d.update(i, e));
        assert(entries[n - 1].0@ != entries[i].0@);
        assert(u.last() == entries.last());
        assert(entries_map(u) =~= entries_map(entries).insert(e.0@, e.1));
    }
}

/// A map from text keys to values.
pub struct TextMap<V> {
    pub entries: Vec<(String, V)>,
}

impl<V> TextMap<V> {
    /// The map this table stands for.
    pub open spec fn map(&self) -> Map<Seq<char>, V> {
        entries_map(self.entries@)
    }

    /// Keys are distinct.
    pub open spec fn wf(&self) -> bool {
        distinct_keys(self.entries@)
    }

    /// An empty table.
    pub fn new() -> (r: Self)
        ensures
            r.wf(),
            r.map() == Map::<Seq<char>, V>::empty(),
    {
        TextMap { entries: Vec::new() }
    }

    /// The number of keys.
    pub fn len(&self) -> (r: usize)
        requires
            self.wf(),
        ensures
            r == self.entries@.len(),
    {
        self.entries.len()
    }

    fn find(&self, key: &str) -> (r: Option<usize>)
        ensures
            match r {
                Some(i) => i < self.entries@.len() && self.entries@[i as int].0@ == key@,
                None => forall|i: int|
                    0 <= i < self.entries@.len() ==> #[trigger] self.entries@[i].0@ != key@,
            },
    {
        let k = crate::text::owned(key);
        let mut i: usize = 0;
        while i < self.entries.len()
            invariant
                i <= self.entries@.len(),
                k@ == key@,
                forall|j: int| 0 <= j < i ==> #[trigger] self.entries@[j].0@ != key@,
            decreases self.entries@.len() - i,
        {
            if self.entries[i].0 == k {
                return Some(i);
            }
            i = i + 1;
        }
        None
    }

    /// The value for `key`.
    pub fn get(&self, key: &str) -> (r: Option<&V>)
        requires
            self.wf(),
        ensures
            match r {
                Some(v) => self.map().dom().contains(key@) && self.map()[key@] == *v,
                None => !self.map().dom().contains(key@),
            },
    {
        match self.find(key) {
            Some(i) => {
                proof {
                    lemma_present(self.entries@, i as int);
                }
                Some(&self.entries[i].1)
            },
            None => {
                proof {
                    lemma_absent(self.entries@, key@);
                }
                None
            },
        }
    }

    /// Sets the value for `key`, replacing any earlier one.
    pub fn insert(&mut self, key: String, value: V)
        requires
            old(self).wf(),
        ensures
            final(self).wf(),
            final(self).map() == old(self).map().insert(key@, value),
    {
        match self.find(key.as_str()) {
            Some(i) => {
                proof {
                    lemma_update(self.entries@, i as int, (key, value));
                }
                self.entries.set(i, (key, value));
            },
            None => {
                let ghost before = self.entries@;
                self.entries.push((key, value));
                proof {
                    assert(self.entries@.drop_last() =~= before);
                    assert forall|a: int, b: int|
                        0 <= a < self.entries@.len() && 0 <= b < self.entries@.len() && a
                            != b implies #[trigger] self.entries@[a].0@
                        != #[trigger] self.entries@[b].0@ by {
                        if a < before.len() && b < before.len() {
                            assert(self.entries@[a] == before[a]);
                            assert(self.entries@[b] == before[b]);
                        } else if a < before.len() {
                            assert(self.entries@[a] == before[a]);
                        } else {
                            assert(self.entries@[b] == before[b]);
                        }
                    }
                }
            },
        }
    }
}

/// What a read gives back of a write: after `insert(k, v)` the table maps
/// `k` to `v`, and every other key is mapped as before.
pub proof fn lemma_read_after_write<V>(before: Map<Seq<char>, V>, after: Map<Seq<char>, V>, k: Seq<char>, v: V)
    requires
        after == before.insert(k, v),
    ensures
        after.dom().contains(k),
        after[k] == v,
        forall|k2: Seq<char>|
            k2 != k ==> (#[trigger] after.dom().contains(k2) == before.dom().contains(k2)) && (
            before.dom().contains(k2) ==> after[k2] == before[k2]),
{
}

} // verus!
