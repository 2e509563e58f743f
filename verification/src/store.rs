//! Keyed record stores: vectors of records in which no two records share a
//! key, read as finite maps from key to record.
use vstd::prelude::*;

use crate::text::{bytes_eq, copy_bytes, copy_bytes_list, seq_view};

verus! {

/// A record that carries its own key.
pub trait Keyed {
    /// The executable form of the key.
    type Key;

    /// The mathematical form of the key.
    type KV;

    /// The key of this record, as a mathematical value.
    spec fn key_of(&self) -> Self::KV;

    /// The mathematical value of an executable key.
    spec fn key_view(k: &Self::Key) -> Self::KV;

    /// Whether this record and `other` are stored under the same key.
    fn same_key(&self, other: &Self) -> (b: bool)
        ensures
            b == (self.key_of() == other.key_of()),
    ;

    /// Whether this record is stored under `k`.
    fn has_key(&self, k: &Self::Key) -> (b: bool)
        ensures
            b == (self.key_of() == Self::key_view(k)),
    ;
}

/// No two records of `s` share a key.
pub open spec fn unique_keys<T: Keyed>(s: Seq<T>) -> bool {
    forall|i: int, j: int|
        0 <= i < s.len() && 0 <= j < s.len() && i != j ==> #[trigger] s[i].key_of()
            != #[trigger] s[j].key_of()
}

/// Some record of `s` is stored under `k`.
pub open spec fn contains_key<T: Keyed>(s: Seq<T>, k: T::KV) -> bool {
    exists|i: int| 0 <= i < s.len() && #[trigger] s[i].key_of() == k
}

/// The position of the record stored under `k` (meaningful when there is one).
pub open spec fn index_of_key<T: Keyed>(s: Seq<T>, k: T::KV) -> int {
    choose|i: int| 0 <= i < s.len() && #[trigger] s[i].key_of() == k
}

/// The record stored under `k`, if any.
pub open spec fn lookup<T: Keyed>(s: Seq<T>, k: T::KV) -> Option<T> {
    if contains_key(s, k) {
        Some(s[index_of_key(s, k)])
    } else {
        None
    }
}

/// The store read as a finite map from key to record.
pub open spec fn as_map<T: Keyed>(s: Seq<T>) -> Map<T::KV, T> {
    Map::new(|k: T::KV| contains_key(s, k), |k: T::KV| lookup(s, k)->0)
}

/// In a store with unique keys, the record at position `i` is the one found
/// under its key.
pub proof fn lemma_lookup_at<T: Keyed>(s: Seq<T>, i: int)
    requires
        unique_keys(s),
        0 <= i < s.len(),
    ensures
        lookup(s, s[i].key_of()) == Some(s[i]),
        index_of_key(s, s[i].key_of()) == i,
{
    let k = s[i].key_of();
    assert(contains_key(s, k));
    let j = index_of_key(s, k);
    assert(s[j].key_of() == k);
}

/// Appending a record under a key that is not yet present keeps the keys
/// unique, stores the record under its key and leaves every other key as it
/// was.
pub proof fn lemma_push_new<T: Keyed>(s: Seq<T>, x: T)
    requires
        unique_keys(s),
        !contains_key(s, x.key_of()),
    ensures
        unique_keys(s.push(x)),
        lookup(s.push(x), x.key_of()) == Some(x),
        forall|k: T::KV| k != x.key_of() ==> #[trigger] lookup(s.push(x), k) == lookup(s, k),
{
    let t = s.push(x);
    assert forall|i: int, j: int|
        0 <= i < t.len() && 0 <= j < t.len() && i != j implies #[trigger] t[i].key_of()
        != #[trigger] t[j].key_of() by {
        if i == s.len() as int {
            assert(s[j] == t[j]);
        } else if j == s.len() as int {
            assert(s[i] == t[i]);
        } else {
            assert(s[i] == t[i] && s[j] == t[j]);
        }
    }
    lemma_lookup_at(t, s.len() as int);
    assert forall|k: T::KV| k != x.key_of() implies #[trigger] lookup(t, k) == lookup(s, k) by {
        if contains_key(s, k) {
            let i = index_of_key(s, k);
            assert(t[i] == s[i]);
            lemma_lookup_at(s, i);
            lemma_lookup_at(t, i);
        } else {
            if contains_key(t, k) {
                let i = index_of_key(t, k);
                assert(i != s.len() as int);
                assert(s[i] == t[i]);
            }
        }
    }
}

/// Replacing the record at position `i` by one with the same key keeps the
/// keys unique and changes only what is found under that key.
pub proof fn lemma_update_same_key<T: Keyed>(s: Seq<T>, i: int, x: T)
    requires
        unique_keys(s),
        0 <= i < s.len(),
        x.key_of() == s[i].key_of(),
    ensures
        unique_keys(s.update(i, x)),
        lookup(s.update(i, x), x.key_of()) == Some(x),
        forall|k: T::KV| k != x.key_of() ==> #[trigger] lookup(s.update(i, x), k) == lookup(
            s,
            k,
        ),
{
    let t = s.update(i, x);
    assert forall|a: int, b: int|
        0 <= a < t.len() && 0 <= b < t.len() && a != b implies #[trigger] t[a].key_of()
        != #[trigger] t[b].key_of() by {
        assert(t[a].key_of() == s[a].key_of());
        assert(t[b].key_of() == s[b].key_of());
    }
    lemma_lookup_at(t, i);
    assert forall|k: T::KV| k != x.key_of() implies #[trigger] lookup(t, k) == lookup(s, k) by {
        if contains_key(s, k) {
            let j = index_of_key(s, k);
            assert(j != i);
            assert(t[j] == s[j]);
            lemma_lookup_at(s, j);
            lemma_lookup_at(t, j);
        } else {
            if contains_key(t, k) {
                let j = index_of_key(t, k);
                assert(t[j].key_of() == s[j].key_of());
            }
        }
    }
}

/// Removing the record at position `i` keeps the keys unique and drops only
/// that record's key.
pub proof fn lemma_remove_at<T: Keyed>(s: Seq<T>, i: int)
    requires
        unique_keys(s),
        0 <= i < s.len(),
    ensures
        unique_keys(s.remove(i)),
        lookup(s.remove(i), s[i].key_of()) is None,
        forall|k: T::KV| k != s[i].key_of() ==> #[trigger] lookup(s.remove(i), k) == lookup(
            s,
            k,
        ),
{
    let t = s.remove(i);
    let gone = s[i].key_of();
    assert forall|a: int| 0 <= a < t.len() implies #[trigger] t[a] == (if a < i {
        s[a]
    } else {
        s[a + 1]
    }) by {}
    assert forall|a: int, b: int|
        0 <= a < t.len() && 0 <= b < t.len() && a != b implies #[trigger] t[a].key_of()
        != #[trigger] t[b].key_of() by {
        let sa = if a < i { a } else { a + 1 };
        let sb = if b < i { b } else { b + 1 };
        assert(t[a] == s[sa]);
        assert(t[b] == s[sb]);
    }
    if contains_key(t, gone) {
        let a = index_of_key(t, gone);
        let sa = if a < i { a } else { a + 1 };
        assert(t[a] == s[sa]);
    }
    assert forall|k: T::KV| k != gone implies #[trigger] lookup(t, k) == lookup(s, k) by {
        if contains_key(s, k) {
            let j = index_of_key(s, k);
            assert(j != i);
            let a = if j < i { j } else { j - 1 };
            assert(t[a] == s[j]);
            lemma_lookup_at(s, j);
            lemma_lookup_at(t, a);
        } else {
            if contains_key(t, k) {
                let a = index_of_key(t, k);
                let sa = if a < i { a } else { a + 1 };
                assert(t[a] == s[sa]);
            }
        }
    }
}

/// Finds the position of the record stored under `k`.
pub fn find<T: Keyed>(v: &Vec<T>, k: &T::Key) -> (r: Option<usize>)
    requires
        unique_keys(v@),
    ensures
        r is Some <==> contains_key(v@, T::key_view(k)),
        r is Some <==> as_map(v@).contains_key(T::key_view(k)),
        r matches Some(i) ==> i < v@.len() && v@[i as int].key_of() == T::key_view(k)
            && lookup(v@, T::key_view(k)) == Some(v@[i as int]) && as_map(v@)[T::key_view(k)]
            == v@[i as int],
{
    let mut i: usize = 0;
    while i < v.len()
        invariant
            unique_keys(v@),
            i <= v@.len(),
            forall|j: int| 0 <= j < i ==> #[trigger] v@[j].key_of() != T::key_view(k),
        decreases v.len() - i,
    {
        if v[i].has_key(k) {
            proof {
                lemma_lookup_at(v@, i as int);
            }
            return Some(i);
        }
        i = i + 1;
    }
    None
}

/// Finds the position of a record stored under the key of `x`.
pub fn find_like<T: Keyed>(v: &Vec<T>, x: &T) -> (r: Option<usize>)
    requires
        unique_keys(v@),
    ensures
        r is Some <==> contains_key(v@, x.key_of()),
        r matches Some(i) ==> i < v@.len() && v@[i as int].key_of() == x.key_of()
            && lookup(v@, x.key_of()) == Some(v@[i as int]),
{
    let mut i: usize = 0;
    while i < v.len()
        invariant
            unique_keys(v@),
            i <= v@.len(),
            forall|j: int| 0 <= j < i ==> #[trigger] v@[j].key_of() != x.key_of(),
        decreases v.len() - i,
    {
        if v[i].same_key(x) {
            proof {
                lemma_lookup_at(v@, i as int);
            }
            return Some(i);
        }
        i = i + 1;
    }
    None
}

/// Stores `x` under its key, replacing the record stored there if any.
pub fn put<T: Keyed>(v: &mut Vec<T>, x: T)
    requires
        unique_keys(old(v)@),
    ensures
        unique_keys(final(v)@),
        as_map(final(v)@) == as_map(old(v)@).insert(x.key_of(), x),
{
    let ghost k = x.key_of();
    match find_like(v, &x) {
        Some(i) => {
            proof {
                lemma_update_same_key(v@, i as int, x);
            }
            v.set(i, x);
        },
        None => {
            proof {
                lemma_push_new(v@, x);
            }
            v.push(x);
        },
    }
    proof {
        lemma_map_from_lookups(old(v)@, v@, k, Some(x));
    }
}

/// Removes the record stored under `k`, returning it.
pub fn remove_key<T: Keyed>(v: &mut Vec<T>, k: &T::Key) -> (r: Option<T>)
    requires
        unique_keys(old(v)@),
    ensures
        unique_keys(final(v)@),
        r == lookup(old(v)@, T::key_view(k)),
        as_map(final(v)@) == as_map(old(v)@).remove(T::key_view(k)),
{
    match find(v, k) {
        Some(i) => {
            proof {
                lemma_remove_at(v@, i as int);
                lemma_map_from_lookups(old(v)@, old(v)@.remove(i as int), T::key_view(k), None);
            }
            let x = v.remove(i);
            Some(x)
        },
        None => {
            proof {
                assert(as_map(v@) =~= as_map(v@).remove(T::key_view(k)));
            }
            None
        },
    }
}

/// Two stores that agree on every key but `k` and hold `at_k` under `k` read
/// as the first map with `k` set to `at_k`.
pub proof fn lemma_map_from_lookups<T: Keyed>(s: Seq<T>, t: Seq<T>, k: T::KV, at_k: Option<T>)
    requires
        lookup(t, k) == at_k,
        forall|j: T::KV| j != k ==> #[trigger] lookup(t, j) == lookup(s, j),
    ensures
        at_k matches Some(x) ==> as_map(t) == as_map(s).insert(k, x),
        at_k is None ==> as_map(t) == as_map(s).remove(k),
{
    assert forall|j: T::KV| #[trigger] contains_key(t, j) <==> lookup(t, j) is Some by {}
    assert forall|j: T::KV| #[trigger] contains_key(s, j) <==> lookup(s, j) is Some by {}
    match at_k {
        Some(x) => {
            assert(as_map(t) =~= as_map(s).insert(k, x));
        },
        None => {
            assert(as_map(t) =~= as_map(s).remove(k));
        },
    }
}

/// A list of identifiers filed under a key (a merchant's payments, a
/// payment's refunds or disputes), oldest first.
#[derive(Debug, PartialEq, Eq)]
pub struct IdIndex {
    pub key: Vec<u8>,
    pub ids: Vec<Vec<u8>>,
}

impl Keyed for IdIndex {
    type Key = Vec<u8>;

    type KV = Seq<u8>;

    open spec fn key_of(&self) -> Seq<u8> {
        self.key@
    }

    open spec fn key_view(k: &Vec<u8>) -> Seq<u8> {
        k@
    }

    fn same_key(&self, other: &Self) -> (b: bool) {
        bytes_eq(&self.key, &other.key)
    }

    fn has_key(&self, k: &Vec<u8>) -> (b: bool) {
        bytes_eq(&self.key, k)
    }
}

/// The identifiers filed under `key` (none if the key has no list).
pub open spec fn ids_under(s: Seq<IdIndex>, key: Seq<u8>) -> Seq<Seq<u8>> {
    let m = as_map(s);
    if m.contains_key(key) {
        seq_view(m[key].ids@)
    } else {
        Seq::empty()
    }
}

/// Appends `id` to the list filed under `key`.
pub fn append_id(v: &mut Vec<IdIndex>, key: &Vec<u8>, id: &Vec<u8>)
    requires
        unique_keys(old(v)@),
    ensures
        unique_keys(final(v)@),
        forall|k: Seq<u8>|
            #[trigger] ids_under(final(v)@, k) == if k == key@ {
                ids_under(old(v)@, k).push(id@)
            } else {
                ids_under(old(v)@, k)
            },
{
    let ghost before = as_map(v@);
    match find(v, key) {
        Some(i) => {
            let mut entry = v.remove(i);
            proof {
                lemma_remove_at(old(v)@, i as int);
                lemma_map_from_lookups(old(v)@, v@, key@, None);
            }
            let ghost prev = entry.ids@;
            entry.ids.push(copy_bytes(id));
            assert(seq_view(entry.ids@) =~= seq_view(prev).push(id@));
            put(v, entry);
            assert(as_map(v@) =~= before.insert(key@, entry));
        },
        None => {
            let ids = vec![copy_bytes(id)];
            assert(seq_view(ids@) =~= Seq::<Seq<u8>>::empty().push(id@));
            let entry = IdIndex { key: copy_bytes(key), ids };
            put(v, entry);
        },
    }
}

/// A copy of the identifiers filed under `key`.
pub fn get_ids(v: &Vec<IdIndex>, key: &Vec<u8>) -> (ids: Vec<Vec<u8>>)
    requires
        unique_keys(v@),
    ensures
        seq_view(ids@) == ids_under(v@, key@),
{
    match find(v, key) {
        Some(i) => copy_bytes_list(&v[i].ids),
        None => {
            let empty: Vec<Vec<u8>> = Vec::new();
            assert(seq_view(empty@) =~= Seq::<Seq<u8>>::empty());
            empty
        },
    }
}

/// Takes out the record at position `i`.
pub fn take_at<T: Keyed>(v: &mut Vec<T>, i: usize) -> (x: T)
    requires
        unique_keys(old(v)@),
        i < old(v)@.len(),
    ensures
        unique_keys(final(v)@),
        x == old(v)@[i as int],
        final(v)@ == old(v)@.remove(i as int),
        as_map(old(v)@).contains_key(x.key_of()),
        as_map(old(v)@)[x.key_of()] == x,
        as_map(final(v)@) == as_map(old(v)@).remove(x.key_of()),
{
    proof {
        lemma_lookup_at(v@, i as int);
        lemma_remove_at(v@, i as int);
        lemma_map_from_lookups(v@, v@.remove(i as int), v@[i as int].key_of(), None);
    }
    v.remove(i)
}

/// Putting back, under the same key, a record taken out of a map gives the
/// map with that key set to the new record.
pub proof fn lemma_replace<K, V>(m: Map<K, V>, k: K, x: V)
    ensures
        m.remove(k).insert(k, x) == m.insert(k, x),
{
    assert(m.remove(k).insert(k, x) =~= m.insert(k, x));
}

} // verus!
