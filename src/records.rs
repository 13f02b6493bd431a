//! An ordered associative container keyed by byte strings: parallel key and
//! value vectors, kept in insertion order, with overwrite on a repeated key.
use vstd::prelude::*;
use crate::codec::bytes_eq;

verus! {

/// Nominal capacity of a record handler.
pub const MAX_RECORDS_COUNT: usize = 20;

/// Position of `key` among the entries, or -1.
pub open spec fn index_of<V>(entries: Seq<(Seq<u8>, V)>, key: Seq<u8>) -> int
    decreases entries.len(),
{
    if entries.len() == 0 {
        -1
    } else if entries.last().0 == key {
        entries.len() - 1
    } else {
        index_of(entries.drop_last(), key)
    }
}

/// No key occurs twice.
pub open spec fn keys_distinct<V>(entries: Seq<(Seq<u8>, V)>) -> bool {
    forall|i: int, j: int|
        0 <= i < entries.len() && 0 <= j < entries.len() && i != j ==> entries[i].0 != entries[j].0
}

pub open spec fn has_key<V>(entries: Seq<(Seq<u8>, V)>, key: Seq<u8>) -> bool {
    exists|i: int| 0 <= i < entries.len() && entries[i].0 == key
}

/// What the entries map `key` to, if anything.
pub open spec fn lookup<V>(entries: Seq<(Seq<u8>, V)>, key: Seq<u8>) -> Option<V> {
    if has_key(entries, key) {
        Some(entries[index_of(entries, key)].1)
    } else {
        None
    }
}

pub proof fn lemma_index_of<V>(entries: Seq<(Seq<u8>, V)>, key: Seq<u8>)
    requires
        keys_distinct(entries),
    ensures
        has_key(entries, key) <==> 0 <= index_of(entries, key) < entries.len(),
        has_key(entries, key) ==> entries[index_of(entries, key)].0 == key,
        -1 <= index_of(entries, key) < entries.len(),
        forall|i: int| 0 <= i < entries.len() && entries[i].0 == key ==> i == index_of(entries, key),
    decreases entries.len(),
{
    if entries.len() > 0 {
        let d = entries.drop_last();
        assert(keys_distinct(d));
        lemma_index_of(d, key);
        if entries.last().0 != key {
            if has_key(entries, key) {
                let i = choose|i: int| 0 <= i < entries.len() && entries[i].0 == key;
                assert(d[i].0 == key);
            }
            if has_key(d, key) {
                let i = choose|i: int| 0 <= i < d.len() && d[i].0 == key;
                assert(entries[i].0 == key);
            }
        }
    }
}

#[verifier::reject_recursive_types(V)]
pub struct RecordHandler<V> {
    k: Vec<Vec<u8>>,
    v: Vec<V>,
}

impl<V> View for RecordHandler<V> {
    type V = Seq<(Seq<u8>, V)>;

    closed spec fn view(&self) -> Seq<(Seq<u8>, V)> {
        Seq::new(self.k@.len(), |i: int| (self.k@[i]@, self.v@[i]))
    }
}

impl<V> RecordHandler<V> {
    /// Keys and values line up.
    pub closed spec fn aligned(&self) -> bool {
        self.k@.len() == self.v@.len()
    }

    /// Keys and values line up, and no key occurs twice.
    pub open spec fn wf(&self) -> bool {
        &&& self.aligned()
        &&& keys_distinct(self@)
    }

    pub open spec fn contains_spec(&self, key: Seq<u8>) -> bool {
        has_key(self@, key)
    }

    pub open spec fn get_spec(&self, key: Seq<u8>) -> Option<V> {
        lookup(self@, key)
    }

    pub fn new() -> (r: RecordHandler<V>)
        ensures
            r.wf(),
            r@ == Seq::<(Seq<u8>, V)>::empty(),
    {
        let r = RecordHandler { k: Vec::new(), v: Vec::new() };
        assert(r@ =~= Seq::<(Seq<u8>, V)>::empty());
        r
    }

    /// Number of entries.
    pub fn len(&self) -> (r: usize)
        requires
            self.wf(),
        ensures
            r == self@.len(),
    {
        self.k.len()
    }

    pub fn cap(&self) -> (r: usize)
        ensures
            r == MAX_RECORDS_COUNT,
    {
        MAX_RECORDS_COUNT
    }

    pub fn is_full(&self) -> (r: bool)
        requires
            self.wf(),
        ensures
            r == (self@.len() == MAX_RECORDS_COUNT),
    {
        self.cap() == self.len()
    }

    /// The key of entry `i`, in insertion order.
    pub fn key_at(&self, i: usize) -> (r: &Vec<u8>)
        requires
            self.wf(),
            i < self@.len(),
        ensures
            r@ == self@[i as int].0,
    {
        &self.k[i]
    }

    /// The value of entry `i`, in insertion order.
    pub fn value_at(&self, i: usize) -> (r: &V)
        requires
            self.wf(),
            i < self@.len(),
        ensures
            *r == self@[i as int].1,
    {
        &self.v[i]
    }

    fn position(&self, key: &[u8]) -> (r: Option<usize>)
        requires
            self.wf(),
        ensures
            r is Some <==> has_key(self@, key@),
            r is Some ==> r->Some_0 == index_of(self@, key@),
            r is Some ==> r->Some_0 < self@.len(),
    {
        proof {
            lemma_index_of(self@, key@);
        }
        let mut i: usize = 0;
        while i < self.k.len()
            invariant
                self.wf(),
                0 <= i <= self@.len(),
                forall|j: int| 0 <= j < i ==> self@[j].0 != key@,
            decreases self.k.len() - i,
        {
            if bytes_eq(self.k[i].as_slice(), key) {
                proof {
                    lemma_index_of(self@, key@);
                    assert(self@[i as int].0 == key@);
                    assert(i as int == index_of(self@, key@));
                }
                return Some(i);
            }
            i = i + 1;
        }
        None
    }

    /// True iff `key` has an entry.
    pub fn contains_key(&self, key: &[u8]) -> (r: bool)
        requires
            self.wf(),
        ensures
            r == self.contains_spec(key@),
    {
        self.position(key).is_some()
    }

    /// The value stored under `key`, if any.
    pub fn get(&self, key: &[u8]) -> (r: Option<&V>)
        requires
            self.wf(),
        ensures
            r matches Some(v) ==> self.get_spec(key@) == Some(*v),
            r is None ==> self.get_spec(key@) is None,
    {
        match self.position(key) {
            Some(pos) => Some(&self.v[pos]),
            None => None,
        }
    }

    /// Stores `val` under `key`: in place where the key is present, else
    /// at the end.
    pub fn insert(&mut self, key: Vec<u8>, val: V)
        requires
            old(self).wf(),
        ensures
            final(self).wf(),
            has_key(old(self)@, key@) ==> final(self)@ == old(self)@.update(
                index_of(old(self)@, key@),
                (key@, val),
            ),
            !has_key(old(self)@, key@) ==> final(self)@ == old(self)@.push((key@, val)),
    {
        proof {
            lemma_index_of(self@, key@);
        }
        match self.position(key.as_slice()) {
            Some(pos) => {
                let ghost before = self@;
                self.v.set(pos, val);
                self.k.set(pos, key);
                assert(self@ =~= before.update(pos as int, (key@, val)));
            },
            None => {
                let ghost before = self@;
                self.k.push(key);
                self.v.push(val);
                assert(self@ =~= before.push((key@, val)));
            },
        }
    }

    /// Removes the entry of `key` and hands its value back; `None` where
    /// there is none.
    pub fn drop(&mut self, key: &[u8]) -> (r: Option<V>)
        requires
            old(self).wf(),
        ensures
            final(self).wf(),
            r == old(self).get_spec(key@),
            has_key(old(self)@, key@) ==> final(self)@ == old(self)@.remove(
                index_of(old(self)@, key@),
            ),
            !has_key(old(self)@, key@) ==> *final(self) == *old(self),
    {
        proof {
            lemma_index_of(self@, key@);
        }
        match self.position(key) {
            Some(pos) => {
                let ghost before = self@;
                self.k.remove(pos);
                let val = self.v.remove(pos);
                assert(self@ =~= before.remove(pos as int));
                Some(val)
            },
            None => None,
        }
    }
}

/// After storing `val` under `key`, `key` maps to `val` and every other key
/// maps to what it did.
pub proof fn lemma_insert_lookup<V>(before: Seq<(Seq<u8>, V)>, key: Seq<u8>, val: V, after: Seq<(Seq<u8>, V)>)
    requires
        keys_distinct(before),
        keys_distinct(after),
        has_key(before, key) ==> after == before.update(index_of(before, key), (key, val)),
        !has_key(before, key) ==> after == before.push((key, val)),
    ensures
        lookup(after, key) == Some(val),
        forall|h: Seq<u8>| h != key ==> #[trigger] lookup(after, h) == lookup(before, h),
{
    lemma_index_of(before, key);
    lemma_index_of(after, key);
    if has_key(before, key) {
        assert(after[index_of(before, key)].0 == key);
    } else {
        assert(after[after.len() - 1].0 == key);
    }
    assert forall|h: Seq<u8>| h != key implies #[trigger] lookup(after, h) == lookup(before, h) by {
        lemma_index_of(before, h);
        lemma_index_of(after, h);
        if has_key(before, h) {
            assert(after[index_of(before, h)].0 == h);
        }
        if has_key(after, h) {
            assert(before[index_of(after, h)].0 == h);
        }
    }
}

/// Removing `key` leaves what every other key maps to.
pub proof fn lemma_remove_lookup<V>(entries: Seq<(Seq<u8>, V)>, key: Seq<u8>, other: Seq<u8>)
    requires
        keys_distinct(entries),
        has_key(entries, key),
        other != key,
    ensures
        lookup(entries.remove(index_of(entries, key)), other) == lookup(entries, other),
{
    lemma_index_of(entries, key);
    lemma_remove_keeps_others(entries, key, other);
    let p = index_of(entries, key);
    let r = entries.remove(p);
    lemma_index_of(entries, other);
    lemma_index_of(r, other);
    if has_key(entries, other) {
        let i = index_of(entries, other);
        if i < p {
            assert(r[i].0 == other);
        } else {
            assert(i != p);
            assert(r[i - 1].0 == other);
        }
    }
}

/// Removing a key leaves every other key's entry as it was.
pub proof fn lemma_remove_keeps_others<V>(entries: Seq<(Seq<u8>, V)>, key: Seq<u8>, other: Seq<u8>)
    requires
        keys_distinct(entries),
        has_key(entries, key),
        other != key,
    ensures
        keys_distinct(entries.remove(index_of(entries, key))),
        has_key(entries.remove(index_of(entries, key)), other) == has_key(entries, other),
        !has_key(entries.remove(index_of(entries, key)), key),
{
    lemma_index_of(entries, key);
    let p = index_of(entries, key);
    let r = entries.remove(p);
    if has_key(entries, other) {
        let i = choose|i: int| 0 <= i < entries.len() && entries[i].0 == other;
        if i < p {
            assert(r[i].0 == other);
        } else {
            assert(r[i - 1].0 == other);
        }
    }
    if has_key(r, key) {
        let i = choose|i: int| 0 <= i < r.len() && r[i].0 == key;
        if i < p {
            assert(entries[i].0 == key);
        } else {
            assert(entries[i + 1].0 == key);
        }
    }
}

} // verus!
