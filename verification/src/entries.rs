//! A keyed collection of entries whose keys are identifier texts.

use vstd::prelude::*;
use crate::ids::same_text;

verus! {

/// Entries keyed by text, each key at most once. Its view is the map from key to value. Every
/// change goes through `&mut self`, so each one is stated as a change of that map; the program
/// shares the stores behind a single lock.
pub struct KeyedEntries<V> {
    items: Vec<(String, V)>,
    contents: Ghost<Map<Seq<char>, V>>,
}

impl<V> View for KeyedEntries<V> {
    type V = Map<Seq<char>, V>;

    closed spec fn view(&self) -> Map<Seq<char>, V> {
        self.contents@
    }
}

impl<V> KeyedEntries<V> {
    /// The keys, in storage order.
    pub closed spec fn key_seq(&self) -> Seq<Seq<char>> {
        self.items@.map_values(|p: (String, V)| p.0@)
    }

    /// Number of stored pairs.
    pub closed spec fn item_count(&self) -> nat {
        self.items@.len()
    }

    /// Keys are unique and the map holds exactly the stored pairs.
    pub closed spec fn wf(&self) -> bool {
        &&& forall|i: int, j: int|
            0 <= i < j < self.items@.len() ==> self.items@[i].0@ != self.items@[j].0@
        &&& forall|i: int|
            0 <= i < self.items@.len() ==> #[trigger] self.contents@.contains_key(self.items@[i].0@)
                && self.contents@[self.items@[i].0@] == self.items@[i].1
        &&& forall|k: Seq<char>|
            #[trigger] self.contents@.contains_key(k) ==> exists|i: int|
                0 <= i < self.items@.len() && self.items@[i].0@ == k
    }

    /// No entries.
    pub fn new() -> (r: Self)
        ensures
            r.wf(),
            r@ == Map::<Seq<char>, V>::empty(),
    {
        KeyedEntries { items: Vec::new(), contents: Ghost(Map::empty()) }
    }

    /// Position of `key`.
    fn find(&self, key: &str) -> (r: Option<usize>)
        requires
            self.wf(),
        ensures
            match r {
                Some(i) => i < self.items@.len() && self.items@[i as int].0@ == key@,
                None => !self@.contains_key(key@),
            },
    {
        let mut i: usize = 0;
        while i < self.items.len()
            invariant
                self.wf(),
                i <= self.items@.len(),
                forall|j: int| 0 <= j < i ==> self.items@[j].0@ != key@,
            decreases self.items.len() - i,
        {
            if same_text(self.items[i].0.as_str(), key) {
                return Some(i);
            }
            i = i + 1;
        }
        None
    }

    /// The value stored under `key`.
    pub fn get(&self, key: &str) -> (r: Option<&V>)
        requires
            self.wf(),
        ensures
            match r {
                Some(v) => self@.contains_key(key@) && *v == self@[key@],
                None => !self@.contains_key(key@),
            },
    {
        match self.find(key) {
            Some(i) => {
                assert(self.contents@.contains_key(self.items@[i as int].0@));
                Some(&self.items[i].1)
            },
            None => None,
        }
    }

    /// Whether `key` is stored.
    pub fn contains_key(&self, key: &str) -> (r: bool)
        requires
            self.wf(),
        ensures
            r == self@.contains_key(key@),
    {
        match self.find(key) {
            Some(i) => true,
            None => false,
        }
    }

    /// Removes `key`, giving back what it held.
    pub fn remove(&mut self, key: &str) -> (r: Option<V>)
        requires
            old(self).wf(),
        ensures
            final(self).wf(),
            final(self)@ == old(self)@.remove(key@),
            final(self)@.dom().finite(),
            final(self)@.len() == if r is Some { old(self)@.len() - 1 } else { old(self)@.len() as int },
            match r {
                Some(v) => old(self)@.contains_key(key@) && v == old(self)@[key@],
                None => !old(self)@.contains_key(key@),
            },
    {
        proof {
            self.lemma_len();
        }
        match self.find(key) {
            Some(i) => {
                let ghost old_items = self.items@;
                let ghost old_contents = self.contents@;
                assert(old_contents.contains_key(old_items[i as int].0@));
                let pair = self.items.remove(i);
                self.contents = Ghost(self.contents@.remove(key@));
                assert forall|a: int, b: int| 0 <= a < b < self.items@.len() implies self.items@[a].0@
                    != self.items@[b].0@ by {
                    let oa = if a < i { a } else { a + 1 };
                    let ob = if b < i { b } else { b + 1 };
                    assert(self.items@[a] == old_items[oa]);
                    assert(self.items@[b] == old_items[ob]);
                }
                assert forall|a: int| 0 <= a < self.items@.len() implies #[trigger] self.contents@.contains_key(
                    self.items@[a].0@,
                ) && self.contents@[self.items@[a].0@] == self.items@[a].1 by {
                    let oa = if a < i { a } else { a + 1 };
                    assert(self.items@[a] == old_items[oa]);
                    assert(old_items[oa].0@ != key@);
                    assert(old_contents.contains_key(old_items[oa].0@));
                }
                assert forall|k: Seq<char>| #[trigger] self.contents@.contains_key(k) implies exists|a: int|
                    0 <= a < self.items@.len() && self.items@[a].0@ == k by {
                    let oa = choose|oa: int| 0 <= oa < old_items.len() && old_items[oa].0@ == k;
                    assert(oa != i);
                    let a = if oa < i { oa } else { oa - 1 };
                    assert(self.items@[a] == old_items[oa]);
                }
                proof {
                    self.lemma_len();
                }
                Some(pair.1)
            },
            None => {
                assert(self.contents@.remove(key@) =~= self.contents@);
                None
            },
        }
    }

    /// Stores `value` under `key`, replacing what the key held.
    pub fn insert(&mut self, key: String, value: V)
        requires
            old(self).wf(),
        ensures
            final(self).wf(),
            final(self)@ == old(self)@.insert(key@, value),
    {
        let ghost k = key@;
        let ghost before = self@;
        self.remove(key.as_str());
        let ghost mid_items = self.items@;
        let ghost mid_contents = self.contents@;
        self.items.push((key, value));
        self.contents = Ghost(self.contents@.insert(k, value));
        assert forall|a: int, b: int| 0 <= a < b < self.items@.len() implies self.items@[a].0@
            != self.items@[b].0@ by {
            if b == mid_items.len() {
                assert(self.items@[a] == mid_items[a]);
                assert(mid_contents.contains_key(mid_items[a].0@));
                assert(mid_items[a].0@ != k);
            } else {
                assert(self.items@[a] == mid_items[a]);
                assert(self.items@[b] == mid_items[b]);
            }
        }
        assert forall|a: int| 0 <= a < self.items@.len() implies #[trigger] self.contents@.contains_key(
            self.items@[a].0@,
        ) && self.contents@[self.items@[a].0@] == self.items@[a].1 by {
            if a < mid_items.len() {
                assert(self.items@[a] == mid_items[a]);
                assert(mid_contents.contains_key(mid_items[a].0@));
            }
        }
        assert forall|q: Seq<char>| #[trigger] self.contents@.contains_key(q) implies exists|a: int|
            0 <= a < self.items@.len() && self.items@[a].0@ == q by {
            if q == k {
                assert(self.items@[mid_items.len() as int].0@ == k);
            } else {
                let a = choose|a: int| 0 <= a < mid_items.len() && mid_items[a].0@ == q;
                assert(self.items@[a] == mid_items[a]);
            }
        }
        assert(self.contents@ =~= before.insert(k, value));
    }

    /// Number of entries.
    pub fn len(&self) -> (r: usize)
        requires
            self.wf(),
        ensures
            r == self@.len(),
            self@.dom().finite(),
    {
        proof {
            self.lemma_len();
        }
        self.items.len()
    }

    /// The map is finite and has as many keys as there are stored pairs.
    pub proof fn lemma_len(&self)
        requires
            self.wf(),
        ensures
            self@.dom().finite(),
            self@.len() == self.item_count(),
    {
        let ks = self.key_seq();
        assert forall|a: int, b: int| 0 <= a < ks.len() && 0 <= b < ks.len() && a != b implies ks[a]
            != ks[b] by {
            if a < b {
                assert(self.items@[a].0@ != self.items@[b].0@);
            } else {
                assert(self.items@[b].0@ != self.items@[a].0@);
            }
        }
        assert(ks.no_duplicates());
        ks.unique_seq_to_set();
        assert forall|k: Seq<char>| self@.dom().contains(k) <==> ks.to_set().contains(k) by {
            if self@.dom().contains(k) {
                let i = choose|i: int| 0 <= i < self.items@.len() && self.items@[i].0@ == k;
                assert(ks[i] == k);
            }
            if ks.to_set().contains(k) {
                let i = choose|i: int| 0 <= i < ks.len() && ks[i] == k;
                assert(self.contents@.contains_key(self.items@[i].0@));
            }
        }
        assert(self@.dom() =~= ks.to_set());
    }

    /// The keys, each once.
    pub fn keys(&self) -> (r: Vec<String>)
        requires
            self.wf(),
        ensures
            r@.len() == self@.len(),
            forall|i: int| 0 <= i < r@.len() ==> #[trigger] self@.contains_key(r@[i]@),
            forall|k: Seq<char>| #[trigger] self@.contains_key(k) ==> exists|i: int| 0 <= i < r@.len() && r@[i]@ == k,
            forall|i: int, j: int| 0 <= i < j < r@.len() ==> r@[i]@ != r@[j]@,
    {
        proof {
            self.lemma_len();
        }
        let mut r: Vec<String> = Vec::new();
        let mut i: usize = 0;
        while i < self.items.len()
            invariant
                self.wf(),
                i <= self.items@.len(),
                r@.len() == i,
                forall|j: int| 0 <= j < i ==> #[trigger] r@[j]@ == self.items@[j].0@,
            decreases self.items.len() - i,
        {
            r.push(self.items[i].0.clone());
            i = i + 1;
        }
        assert forall|k: Seq<char>| #[trigger] self@.contains_key(k) implies exists|j: int| 0 <= j < r@.len() && r@[j]@ == k by {
            let j = choose|j: int| 0 <= j < self.items@.len() && self.items@[j].0@ == k;
            assert(r@[j]@ == k);
        }
        assert forall|a: int| 0 <= a < r@.len() implies #[trigger] self@.contains_key(r@[a]@) by {
            assert(r@[a]@ == self.items@[a].0@);
        }
        assert forall|a: int, b: int| 0 <= a < b < r@.len() implies r@[a]@ != r@[b]@ by {
            assert(r@[a]@ == self.items@[a].0@);
            assert(r@[b]@ == self.items@[b].0@);
        }
        r
    }

    /// Removes every entry.
    pub fn clear(&mut self)
        ensures
            final(self).wf(),
            final(self)@ == Map::<Seq<char>, V>::empty(),
    {
        self.items.clear();
        self.contents = Ghost(Map::empty());
    }
}


/// `m` after inserting `values[i]` under `keys[i]` for each `i` in order; a later key replaces
/// an earlier equal one.
pub open spec fn insert_all<V>(m: Map<Seq<char>, V>, keys: Seq<Seq<char>>, values: Seq<V>) -> Map<Seq<char>, V>
    decreases keys.len(),
{
    if keys.len() == 0 {
        m
    } else {
        insert_all(m, keys.drop_last(), values.drop_last()).insert(keys.last(), values.last())
    }
}

/// Inserting one more pair extends `insert_all` by that insertion.
pub proof fn lemma_insert_all_push<V>(m: Map<Seq<char>, V>, keys: Seq<Seq<char>>, values: Seq<V>, k: Seq<char>, v: V)
    requires
        keys.len() == values.len(),
    ensures
        insert_all(m, keys.push(k), values.push(v)) == insert_all(m, keys, values).insert(k, v),
{
    assert(keys.push(k).drop_last() =~= keys);
    assert(values.push(v).drop_last() =~= values);
}

/// What `insert_all` holds: each inserted key, and every other key as in `m`; a key inserted
/// once holds its value.
pub proof fn lemma_insert_all_contents<V>(m: Map<Seq<char>, V>, keys: Seq<Seq<char>>, values: Seq<V>)
    requires
        keys.len() == values.len(),
    ensures
        forall|k: Seq<char>| #[trigger] insert_all(m, keys, values).contains_key(k) <==> m.contains_key(k) || keys.contains(k),
        forall|k: Seq<char>| !keys.contains(k) && m.contains_key(k) ==> #[trigger] insert_all(m, keys, values)[k] == m[k],
        forall|i: int| 0 <= i < keys.len() && (forall|j: int| 0 <= j < keys.len() && j != i ==> keys[j] != keys[i])
            ==> #[trigger] insert_all(m, keys, values)[keys[i]] == values[i],
    decreases keys.len(),
{
    if keys.len() > 0 {
        let ks = keys.drop_last();
        let vs = values.drop_last();
        lemma_insert_all_contents(m, ks, vs);
        assert(insert_all(m, keys, values) == insert_all(m, ks, vs).insert(keys.last(), values.last()));
        assert forall|k: Seq<char>| #[trigger] insert_all(m, keys, values).contains_key(k) <==> m.contains_key(k) || keys.contains(k) by {
            assert(insert_all(m, ks, vs).contains_key(k) <==> m.contains_key(k) || ks.contains(k));
            if keys.contains(k) && k != keys.last() {
                let j = choose|j: int| 0 <= j < keys.len() && keys[j] == k;
                assert(ks[j] == k);
            }
            if ks.contains(k) {
                let j = choose|j: int| 0 <= j < ks.len() && ks[j] == k;
                assert(keys[j] == k);
            }
            if k == keys.last() {
                assert(keys[keys.len() - 1] == k);
            }
        }
        assert forall|k: Seq<char>| !keys.contains(k) && m.contains_key(k) implies #[trigger] insert_all(m, keys, values)[k] == m[k] by {
            assert(keys[keys.len() - 1] == keys.last());
            assert(k != keys.last());
            assert(!ks.contains(k) ==> insert_all(m, ks, vs)[k] == m[k]);
            if ks.contains(k) {
                let j = choose|j: int| 0 <= j < ks.len() && ks[j] == k;
                assert(keys[j] == k);
            }
            assert(keys[keys.len() - 1] == keys.last());
        }
        assert forall|i: int| 0 <= i < keys.len() && (forall|j: int| 0 <= j < keys.len() && j != i ==> keys[j] != keys[i])
            implies #[trigger] insert_all(m, keys, values)[keys[i]] == values[i] by {
            if i < keys.len() - 1 {
                assert(ks[i] == keys[i]);
                assert(keys[keys.len() - 1] != keys[i]);
                assert forall|j: int| 0 <= j < ks.len() && j != i implies ks[j] != ks[i] by {
                    assert(ks[j] == keys[j]);
                }
            }
        }
    }
}

impl<V> KeyedEntries<V> {
    /// Keeps exactly the entries whose value `keep` accepts; `keep` decides as `p` says. Gives
    /// how many entries were removed.
    pub fn retain<F: Fn(&V) -> bool>(&mut self, keep: F, Ghost(p): Ghost<spec_fn(V) -> bool>) -> (r: usize)
        requires
            old(self).wf(),
            forall|v: &V| #[trigger] keep.requires((v,)),
            forall|v: &V, b: bool| keep.ensures((v,), b) ==> b == p(*v),
        ensures
            final(self).wf(),
            forall|k: Seq<char>| #[trigger] final(self)@.contains_key(k) <==> old(self)@.contains_key(k) && p(old(self)@[k]),
            forall|k: Seq<char>| final(self)@.contains_key(k) ==> #[trigger] final(self)@[k] == old(self)@[k],
            r == old(self)@.len() - final(self)@.len(),
            final(self)@.dom().finite(),
    {
        proof {
            self.lemma_len();
        }
        let keys = self.keys();
        let ghost start = self@;
        let mut removed: usize = 0;
        let mut i: usize = 0;
        while i < keys.len()
            invariant
                self.wf(),
                i <= keys@.len(),
                forall|v: &V| #[trigger] keep.requires((v,)),
                forall|v: &V, b: bool| keep.ensures((v,), b) ==> b == p(*v),
                forall|j: int| 0 <= j < keys@.len() ==> #[trigger] start.contains_key(keys@[j]@),
                forall|a: int, b: int| 0 <= a < b < keys@.len() ==> keys@[a]@ != keys@[b]@,
                forall|k: Seq<char>| #[trigger] self@.contains_key(k) ==> start.contains_key(k) && self@[k] == start[k],
                forall|k: Seq<char>| start.contains_key(k) && p(start[k]) ==> #[trigger] self@.contains_key(k),
                forall|j: int| 0 <= j < i && !p(start[keys@[j]@]) ==> !self@.contains_key(#[trigger] keys@[j]@),
                forall|j: int| i <= j < keys@.len() ==> self@.contains_key(#[trigger] keys@[j]@),
                self@.dom().finite(),
                start.dom().finite(),
                start.len() == keys@.len(),
                removed as int == start.len() - self@.len(),
            decreases keys.len() - i,
        {
            let key = &keys[i];
            let drop = match self.get(key.as_str()) {
                Some(v) => !keep(v),
                None => false,
            };
            if drop {
                let gone = self.remove(key.as_str());
                assert forall|j: int| i < j < keys@.len() implies self@.contains_key(#[trigger] keys@[j]@) by {
                    assert(keys@[j]@ != keys@[i as int]@);
                }
                removed = removed + 1;
            }
            i = i + 1;
        }
        assert forall|k: Seq<char>| #[trigger] self@.contains_key(k) <==> start.contains_key(k) && p(start[k]) by {
            if start.contains_key(k) && !p(start[k]) {
                let j = choose|j: int| 0 <= j < keys@.len() && keys@[j]@ == k;
                assert(!self@.contains_key(keys@[j]@));
            }
        }
        removed
    }
}

} // verus!
