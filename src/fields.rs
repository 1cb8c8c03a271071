//! `FieldMap`: a map from byte-string names to byte-string values that keeps its
//! names in first-insertion order. Headers and query parameters are held in it.
use vstd::prelude::*;
use crate::bytes::bytes_eq;

verus! {

/// The map that a sequence of distinct-key entries stands for.
pub open spec fn entries_map(e: Seq<(Seq<u8>, Seq<u8>)>) -> Map<Seq<u8>, Seq<u8>>
    decreases e.len(),
{
    if e.len() == 0 {
        Map::empty()
    } else {
        entries_map(e.drop_last()).insert(e.last().0, e.last().1)
    }
}

/// No name occurs twice among the entries.
pub open spec fn distinct_keys(e: Seq<(Seq<u8>, Seq<u8>)>) -> bool {
    forall|i: int, j: int| 0 <= i < j < e.len() ==> (#[trigger] e[i]).0 != (#[trigger] e[j]).0
}

proof fn lemma_entries_lookup(e: Seq<(Seq<u8>, Seq<u8>)>, k: Seq<u8>)
    requires
        distinct_keys(e),
    ensures
        entries_map(e).contains_key(k) <==> exists|i: int| 0 <= i < e.len() && (#[trigger] e[i]).0 == k,
        forall|i: int| 0 <= i < e.len() && (#[trigger] e[i]).0 == k ==> entries_map(e)[k] == e[i].1,
    decreases e.len(),
{
    if e.len() > 0 {
        let d = e.drop_last();
        assert(distinct_keys(d)) by {
            assert forall|i: int, j: int| 0 <= i < j < d.len() implies (#[trigger] d[i]).0 != (#[trigger] d[j]).0 by {
                assert(d[i] == e[i] && d[j] == e[j]);
            }
        }
        lemma_entries_lookup(d, k);
        if exists|i: int| 0 <= i < e.len() && (#[trigger] e[i]).0 == k {
            let i = choose|i: int| 0 <= i < e.len() && (#[trigger] e[i]).0 == k;
            if i < e.len() - 1 {
                assert(d[i] == e[i]);
            }
        }
        if entries_map(e).contains_key(k) {
            if k != e.last().0 {
                let i = choose|i: int| 0 <= i < d.len() && (#[trigger] d[i]).0 == k;
                assert(e[i] == d[i]);
            }
        }
        assert forall|i: int| 0 <= i < e.len() && (#[trigger] e[i]).0 == k implies entries_map(e)[k] == e[i].1 by {
            if i < e.len() - 1 {
                assert(d[i] == e[i]);
            }
        }
    }
}

proof fn lemma_entries_update(e: Seq<(Seq<u8>, Seq<u8>)>, i: int, v: Seq<u8>)
    requires
        distinct_keys(e),
        0 <= i < e.len(),
    ensures
        entries_map(e.update(i, (e[i].0, v))) == entries_map(e).insert(e[i].0, v),
    decreases e.len(),
{
    let u = e.update(i, (e[i].0, v));
    if i == e.len() - 1 {
        assert(u.drop_last() =~= e.drop_last());
        assert(entries_map(u) =~= entries_map(e).insert(e[i].0, v));
    } else {
        let d = e.drop_last();
        assert(distinct_keys(d)) by {
            assert forall|a: int, b: int| 0 <= a < b < d.len() implies (#[trigger] d[a]).0 != (#[trigger] d[b]).0 by {
                assert(d[a] == e[a] && d[b] == e[b]);
            }
        }
        lemma_entries_update(d, i, v);
        assert(u.drop_last() =~= d.update(i, (d[i].0, v)));
        assert(e[i].0 != e.last().0);
        assert(entries_map(u) =~= entries_map(e).insert(e[i].0, v));
    }
}

/// Names mapped to values, in the order in which each name was first inserted.
#[derive(Debug)]
pub struct FieldMap {
    entries: Vec<(Vec<u8>, Vec<u8>)>,
}

impl FieldMap {
    /// The entries, as byte sequences, in insertion order.
    pub closed spec fn entry_seq(&self) -> Seq<(Seq<u8>, Seq<u8>)> {
        self.entries@.map_values(|e: (Vec<u8>, Vec<u8>)| (e.0@, e.1@))
    }

    /// Each name occurs in one entry only.
    pub open spec fn wf(&self) -> bool {
        distinct_keys(self.entry_seq())
    }

    /// An empty map.
    pub fn new() -> (r: FieldMap)
        ensures
            r.wf(),
            r.entry_seq() == Seq::<(Seq<u8>, Seq<u8>)>::empty(),
            r@ == Map::<Seq<u8>, Seq<u8>>::empty(),
    {
        let r = FieldMap { entries: Vec::new() };
        assert(r.entry_seq() =~= Seq::<(Seq<u8>, Seq<u8>)>::empty());
        r
    }

    /// Number of entries.
    pub fn len(&self) -> (r: usize)
        ensures
            r == self.entry_seq().len(),
    {
        self.entries.len()
    }

    /// The name and the value of the entry at `i`.
    pub fn entry(&self, i: usize) -> (r: (&Vec<u8>, &Vec<u8>))
        requires
            i < self.entry_seq().len(),
        ensures
            r.0@ == self.entry_seq()[i as int].0,
            r.1@ == self.entry_seq()[i as int].1,
    {
        let e = &self.entries[i];
        (&e.0, &e.1)
    }

    /// The position of the entry named `key`, if there is one.
    fn position(&self, key: &[u8]) -> (r: Option<usize>)
        ensures
            r matches Some(i) ==> i < self.entry_seq().len() && self.entry_seq()[i as int].0
                == key@,
            r is None ==> forall|i: int|
                0 <= i < self.entry_seq().len() ==> (#[trigger] self.entry_seq()[i]).0 != key@,
    {
        let mut i: usize = 0;
        while i < self.entries.len()
            invariant
                0 <= i <= self.entries@.len(),
                forall|j: int| 0 <= j < i ==> (#[trigger] self.entry_seq()[j]).0 != key@,
            decreases self.entries@.len() - i,
        {
            if bytes_eq(self.entries[i].0.as_slice(), key) {
                return Some(i);
            }
            i += 1;
        }
        None
    }

    /// The value stored under `key`.
    pub fn get(&self, key: &[u8]) -> (r: Option<&Vec<u8>>)
        requires
            self.wf(),
        ensures
            r is Some <==> self@.contains_key(key@),
            r matches Some(v) ==> v@ == self@[key@],
    {
        proof {
            lemma_entries_lookup(self.entry_seq(), key@);
        }
        match self.position(key) {
            Some(i) => Some(&self.entries[i].1),
            None => None,
        }
    }

    /// Maps `key` to `value`, replacing the value of an entry that has that name
    /// and adding an entry at the end otherwise.
    pub fn insert(&mut self, key: Vec<u8>, value: Vec<u8>)
        requires
            old(self).wf(),
        ensures
            final(self).wf(),
            final(self)@ == old(self)@.insert(key@, value@),
            match old(self).position_spec(key@) {
                Some(i) => final(self).entry_seq() == old(self).entry_seq().update(
                    i,
                    (key@, value@),
                ),
                None => final(self).entry_seq() == old(self).entry_seq().push((key@, value@)),
            },
    {
        match self.position(key.as_slice()) {
            Some(i) => {
                let ghost e = self.entry_seq();
                proof {
                    lemma_entries_update(e, i as int, value@);
                    lemma_position_spec(e, key@, i as int);
                }
                let ghost kv = key@;
                let ghost vv = value@;
                self.entries.set(i, (key, value));
                assert(self.entry_seq() =~= e.update(i as int, (kv, vv)));
                assert(distinct_keys(self.entry_seq())) by {
                    assert forall|a: int, b: int| 0 <= a < b < self.entry_seq().len()
                        implies (#[trigger] self.entry_seq()[a]).0 != (#[trigger] self.entry_seq()[b]).0 by {
                        assert(e[a].0 == self.entry_seq()[a].0);
                        assert(e[b].0 == self.entry_seq()[b].0);
                    }
                }
            },
            None => {
                let ghost e = self.entry_seq();
                proof {
                    lemma_position_spec_none(e, key@);
                }
                let ghost kv = key@;
                let ghost vv = value@;
                self.entries.push((key, value));
                assert(self.entry_seq() =~= e.push((kv, vv)));
                assert(self.entry_seq().drop_last() =~= e);
            },
        }
    }

    /// The position of the entry named `key`, if there is one.
    pub open spec fn position_spec(&self, key: Seq<u8>) -> Option<int> {
        find_key(self.entry_seq(), key)
    }
}

/// The index of the entry named `key` among `e`.
pub open spec fn find_key(e: Seq<(Seq<u8>, Seq<u8>)>, key: Seq<u8>) -> Option<int> {
    if exists|i: int| 0 <= i < e.len() && (#[trigger] e[i]).0 == key {
        Some(choose|i: int| 0 <= i < e.len() && (#[trigger] e[i]).0 == key)
    } else {
        None
    }
}

proof fn lemma_position_spec(e: Seq<(Seq<u8>, Seq<u8>)>, key: Seq<u8>, i: int)
    requires
        distinct_keys(e),
        0 <= i < e.len(),
        e[i].0 == key,
    ensures
        find_key(e, key) == Some(i),
{
    let j = choose|j: int| 0 <= j < e.len() && (#[trigger] e[j]).0 == key;
    if j < i {
        assert(e[j].0 != e[i].0);
    } else if i < j {
        assert(e[i].0 != e[j].0);
    }
}

proof fn lemma_position_spec_none(e: Seq<(Seq<u8>, Seq<u8>)>, key: Seq<u8>)
    requires
        forall|i: int| 0 <= i < e.len() ==> (#[trigger] e[i]).0 != key,
    ensures
        find_key(e, key) is None,
{
}

impl View for FieldMap {
    type V = Map<Seq<u8>, Seq<u8>>;

    open spec fn view(&self) -> Map<Seq<u8>, Seq<u8>> {
        entries_map(self.entry_seq())
    }
}

} // verus!
