//! The storage engine and its capability interface.
//!
//! [`InMemoryDb`] owns a mapping from string keys to type-erased [`Value`]
//! holders, kept as an association list with pairwise-distinct keys. Its
//! abstraction is the finite map from key characters to held values, and
//! every operation is specified against that map. The [`Database`] trait is
//! the storage-agnostic contract the engine implements.

use vstd::prelude::*;

use crate::value::{Storable, Value};

verus! {

/// The key of the entry at index `i`, as a character sequence.
spec fn key_at(s: Seq<(String, Value)>, i: int) -> Seq<char> {
    s[i].0@
}

/// The mapping that an entry list represents: later entries shadow earlier
/// ones with the same key (with distinct keys, nothing is shadowed).
spec fn entry_map(s: Seq<(String, Value)>) -> Map<Seq<char>, Value>
    decreases s.len(),
{
    if s.len() == 0 {
        Map::empty()
    } else {
        entry_map(s.drop_last()).insert(s.last().0@, s.last().1)
    }
}

/// Pairwise distinctness of the entry keys.
spec fn keys_distinct(s: Seq<(String, Value)>) -> bool {
    forall|i: int, j: int| 0 <= i < j < s.len() ==> key_at(s, i) != key_at(s, j)
}

/// A key is in the represented mapping exactly when some entry bears it.
proof fn lemma_entry_map_contains(s: Seq<(String, Value)>, k: Seq<char>)
    ensures
        entry_map(s).contains_key(k) <==> exists|i: int| 0 <= i < s.len() && key_at(s, i) == k,
    decreases s.len(),
{
    if s.len() > 0 {
        lemma_entry_map_contains(s.drop_last(), k);
        assert(forall|i: int|
            0 <= i < s.len() - 1 ==> key_at(s.drop_last(), i) == key_at(s, i));
        if entry_map(s).contains_key(k) && k != s.last().0@ {
            let i = choose|i: int| 0 <= i < s.drop_last().len() && key_at(s.drop_last(), i) == k;
            assert(key_at(s, i) == k);
        }
        if k == s.last().0@ {
            assert(key_at(s, s.len() - 1) == k);
        }
    }
}

/// Dropping the last entry keeps the keys pairwise distinct.
proof fn lemma_distinct_drop_last(s: Seq<(String, Value)>)
    requires
        keys_distinct(s),
        s.len() > 0,
    ensures
        keys_distinct(s.drop_last()),
{
    assert forall|a: int, b: int|
        0 <= a < b < s.drop_last().len() implies key_at(s.drop_last(), a) != key_at(
        s.drop_last(),
        b,
    ) by {
        assert(key_at(s.drop_last(), a) == key_at(s, a));
        assert(key_at(s.drop_last(), b) == key_at(s, b));
    }
}

/// With distinct keys, the mapping sends each entry's key to that entry's value.
proof fn lemma_entry_map_index(s: Seq<(String, Value)>, i: int)
    requires
        keys_distinct(s),
        0 <= i < s.len(),
    ensures
        entry_map(s).contains_key(key_at(s, i)),
        entry_map(s)[key_at(s, i)] == s[i].1,
    decreases s.len(),
{
    if i < s.len() - 1 {
        lemma_distinct_drop_last(s);
        lemma_entry_map_index(s.drop_last(), i);
        assert(key_at(s.drop_last(), i) == key_at(s, i));
        assert(key_at(s, i) != key_at(s, s.len() - 1));
    }
}

/// Removing the entry at index `i` keeps the keys distinct and removes
/// exactly that entry's key from the represented mapping.
proof fn lemma_entry_map_remove(s: Seq<(String, Value)>, i: int)
    requires
        keys_distinct(s),
        0 <= i < s.len(),
    ensures
        keys_distinct(s.remove(i)),
        entry_map(s.remove(i)) == entry_map(s).remove(key_at(s, i)),
    decreases s.len(),
{
    let n = s.len() - 1;
    let k = key_at(s, i);
    assert forall|a: int, b: int|
        0 <= a < b < s.remove(i).len() implies key_at(s.remove(i), a) != key_at(
        s.remove(i),
        b,
    ) by {
        if a < i {
            assert(key_at(s.remove(i), a) == key_at(s, a));
        } else {
            assert(key_at(s.remove(i), a) == key_at(s, a + 1));
        }
        if b < i {
            assert(key_at(s.remove(i), b) == key_at(s, b));
        } else {
            assert(key_at(s.remove(i), b) == key_at(s, b + 1));
        }
    }
    lemma_distinct_drop_last(s);
    if i == n {
        assert(s.remove(i) =~= s.drop_last());
        lemma_entry_map_contains(s.drop_last(), k);
        assert(forall|j: int| 0 <= j < n ==> key_at(s.drop_last(), j) == key_at(s, j));
        if entry_map(s.drop_last()).contains_key(k) {
            let j = choose|j: int|
                0 <= j < s.drop_last().len() && key_at(s.drop_last(), j) == k;
            assert(key_at(s, j) == k);
            assert(false);
        }
        assert(!entry_map(s.drop_last()).contains_key(k));
        assert(entry_map(s.drop_last()) =~= entry_map(s.drop_last()).insert(
            k,
            s.last().1,
        ).remove(k));
    } else {
        lemma_entry_map_remove(s.drop_last(), i);
        assert(s.remove(i).drop_last() =~= s.drop_last().remove(i));
        assert(s.remove(i).last() == s.last());
        assert(key_at(s.drop_last(), i) == k);
        assert(k != key_at(s, n));
        assert(entry_map(s.drop_last()).remove(k).insert(s.last().0@, s.last().1)
            =~= entry_map(s.drop_last()).insert(s.last().0@, s.last().1).remove(k));
    }
}

/// The storage-agnostic contract of a key-value backend. Every operation is
/// specified against the backend's abstraction, a finite map from key
/// characters to type-erased held values, so callers are decoupled from the
/// concrete engine.
pub trait Database {
    /// The mapping this backend currently represents.
    spec fn db_view(&self) -> Map<Seq<char>, Value>;

    /// Create or replace the entry under `key`; always succeeds. A previous
    /// entry under the same key is discarded wholesale, old value and old
    /// stored type alike.
    fn insert(&mut self, key: String, value: Value)
        ensures
            final(self).db_view() == old(self).db_view().insert(key@, value),
    ;

    /// Typed read: a borrowed reference to the stored value exactly when an
    /// entry exists under `key` and its stored type is `T`. A missing key and
    /// a stored type other than `T` are indistinguishable here, both absent.
    /// No side effects.
    fn get_as<'a, T: Storable>(&'a self, key: &str) -> (r: Option<&'a T>)
        ensures
            r is Some <==> self.db_view().contains_key(key@) && T::fits(
                self.db_view()[key@],
            ),
            r matches Some(x) ==> *x == T::unwrap_spec(self.db_view()[key@]),
    ;

    /// Remove the entry under `key`, handing back its type-erased holder;
    /// absent, and a no-op, when no entry exists for `key`.
    fn remove(&mut self, key: &str) -> (r: Option<Value>)
        ensures
            final(self).db_view() == old(self).db_view().remove(key@),
            r is Some <==> old(self).db_view().contains_key(key@),
            r matches Some(v) ==> v == old(self).db_view()[key@],
            r is None ==> final(self).db_view() == old(self).db_view(),
    ;
}

/// Law: insert-then-read round trip. After an entry is created under `k`
/// for the wrapped form of `v`, the entry exists, its stored type is `T`,
/// and a typed read at `T` recovers exactly `v`. Together with the contract
/// of [`Database::get_as`], this pins the read to `Some` of the inserted
/// value.
pub proof fn lemma_insert_then_read<T: Storable>(m: Map<Seq<char>, Value>, k: Seq<char>, v: T)
    ensures
        m.insert(k, v.wrap_spec()).contains_key(k),
        T::fits(m.insert(k, v.wrap_spec())[k]),
        T::unwrap_spec(m.insert(k, v.wrap_spec())[k]) == v,
{
    v.lemma_wrap_round_trip();
}

/// Law: an insert under an occupied key replaces the entry wholesale. After
/// inserting `v1` and then `v2` under the same key, the store is as if only
/// `v2` had been inserted: a typed read at `v2`'s type recovers `v2`, and a
/// type that `v2`'s wrapped form does not fit reads back absent, whether or
/// not `v1` was of that type.
pub proof fn lemma_overwrite<T1: Storable, T2: Storable>(
    m: Map<Seq<char>, Value>,
    k: Seq<char>,
    v1: T1,
    v2: T2,
)
    ensures
        m.insert(k, v1.wrap_spec()).insert(k, v2.wrap_spec()) == m.insert(k, v2.wrap_spec()),
        T2::fits(m.insert(k, v1.wrap_spec()).insert(k, v2.wrap_spec())[k]),
        T2::unwrap_spec(m.insert(k, v1.wrap_spec()).insert(k, v2.wrap_spec())[k]) == v2,
        !T1::fits(v2.wrap_spec()) ==> !T1::fits(
            m.insert(k, v1.wrap_spec()).insert(k, v2.wrap_spec())[k],
        ),
{
    v2.lemma_wrap_round_trip();
    assert(m.insert(k, v1.wrap_spec()).insert(k, v2.wrap_spec()) =~= m.insert(
        k,
        v2.wrap_spec(),
    ));
}

/// Law: a typed read at the wrong type is absent. When the entry under `k`
/// holds the wrapped form of a value that type `T2` does not fit, the
/// contract of [`Database::get_as`] at `T2` forces `None`, exactly as for a
/// missing key.
pub proof fn lemma_type_mismatch<T1: Storable, T2: Storable>(
    m: Map<Seq<char>, Value>,
    k: Seq<char>,
    v1: T1,
)
    requires
        !T2::fits(v1.wrap_spec()),
    ensures
        !T2::fits(m.insert(k, v1.wrap_spec())[k]),
{
}

/// Law: reads miss on absent keys. A freshly created store (the empty map)
/// has no entry under any key, and right after a removal the removed key has
/// none; by the contract of [`Database::get_as`], a typed read then returns
/// absent whatever type is asked for.
pub proof fn lemma_absent_key(m: Map<Seq<char>, Value>, k: Seq<char>)
    ensures
        !Map::<Seq<char>, Value>::empty().contains_key(k),
        !m.remove(k).contains_key(k),
{
}

/// The in-memory storage engine: an owned list of key/value entries with
/// pairwise-distinct keys, abstracted as a finite map.
pub struct InMemoryDb {
    entries: Vec<(String, Value)>,
}

impl InMemoryDb {
    #[verifier::type_invariant]
    spec fn well_formed(self) -> bool {
        keys_distinct(self.entries@)
    }
}

impl View for InMemoryDb {
    type V = Map<Seq<char>, Value>;

    closed spec fn view(&self) -> Map<Seq<char>, Value> {
        entry_map(self.entries@)
    }
}

impl InMemoryDb {
    /// Create a store with no entries.
    pub fn new() -> (r: Self)
        ensures
            r@ == Map::<Seq<char>, Value>::empty(),
    {
        InMemoryDb { entries: Vec::new() }
    }

    /// The index of the entry bearing `key`, if one does.
    fn find_index(&self, key: &str) -> (r: Option<usize>)
        ensures
            r matches Some(i) ==> i < self.entries@.len() && key_at(self.entries@, i as int)
                == key@,
            r is None ==> forall|i: int|
                0 <= i < self.entries@.len() ==> key_at(self.entries@, i) != key@,
    {
        let owned: String = key.to_owned();
        let n: usize = self.entries.len();
        let mut i: usize = 0;
        while i < n
            invariant
                n == self.entries@.len(),
                i <= n,
                owned@ == key@,
                forall|j: int| 0 <= j < i ==> key_at(self.entries@, j) != key@,
            decreases n - i,
        {
            if self.entries[i].0 == owned {
                return Some(i);
            }
            i += 1;
        }
        None
    }

    /// Look up the type-erased holder under `key`, if an entry exists for it.
    pub fn get(&self, key: &str) -> (r: Option<&Value>)
        ensures
            r matches Some(v) ==> self@.contains_key(key@) && *v == self@[key@],
            r is None ==> !self@.contains_key(key@),
    {
        proof {
            use_type_invariant(self);
            lemma_entry_map_contains(self.entries@, key@);
        }
        match self.find_index(key) {
            Some(i) => {
                proof {
                    lemma_entry_map_index(self.entries@, i as int);
                }
                Some(&self.entries[i].1)
            },
            None => None,
        }
    }

    /// Whether the store has no entries.
    pub fn is_empty(&self) -> (r: bool)
        ensures
            r <==> self@ == Map::<Seq<char>, Value>::empty(),
    {
        proof {
            use_type_invariant(self);
            if self.entries@.len() > 0 {
                lemma_entry_map_index(self.entries@, self.entries@.len() - 1);
                assert(self@.contains_key(key_at(self.entries@, self.entries@.len() - 1)));
            }
        }
        self.entries.len() == 0
    }
}

impl Database for InMemoryDb {
    open spec fn db_view(&self) -> Map<Seq<char>, Value> {
        self.view()
    }

    fn insert(&mut self, key: String, value: Value) {
        let _displaced = self.remove(key.as_str());
        proof {
            use_type_invariant(&*self);
            lemma_entry_map_contains(self.entries@, key@);
        }
        let ghost kept = self.entries@;
        let mut entries: Vec<(String, Value)> = Vec::new();
        std::mem::swap(&mut entries, &mut self.entries);
        entries.push((key, value));
        proof {
            assert(entries@.drop_last() =~= kept);
            assert forall|a: int, b: int|
                0 <= a < b < entries@.len() implies key_at(entries@, a) != key_at(
                entries@,
                b,
            ) by {
                if b < entries@.len() - 1 {
                    assert(key_at(entries@, a) == key_at(kept, a));
                    assert(key_at(entries@, b) == key_at(kept, b));
                } else {
                    assert(key_at(entries@, a) == key_at(kept, a));
                }
            }
        }
        self.entries = entries;
        proof {
            assert(self@ =~= old(self)@.insert(key@, value));
        }
    }

    fn get_as<'a, T: Storable>(&'a self, key: &str) -> (r: Option<&'a T>) {
        match self.get(key) {
            Some(v) => T::try_unwrap_ref(v),
            None => None,
        }
    }

    fn remove(&mut self, key: &str) -> (r: Option<Value>) {
        proof {
            use_type_invariant(&*self);
            lemma_entry_map_contains(self.entries@, key@);
        }
        match self.find_index(key) {
            Some(i) => {
                proof {
                    lemma_entry_map_index(self.entries@, i as int);
                    lemma_entry_map_remove(self.entries@, i as int);
                }
                let mut entries: Vec<(String, Value)> = Vec::new();
                std::mem::swap(&mut entries, &mut self.entries);
                let pair = entries.remove(i);
                self.entries = entries;
                Some(pair.1)
            },
            None => {
                proof {
                    assert(self@.remove(key@) =~= self@);
                }
                None
            },
        }
    }
}

} // verus!
