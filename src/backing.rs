//! The storage a record is kept in: an associative container from keys to values.
use std::collections::{BTreeMap, HashMap};
use std::hash::Hash;
use vstd::prelude::*;
use vstd::laws_cmp::obeys_cmp;
use vstd::std_specs::cmp::OrdSpec;
use vstd::std_specs::hash::obeys_key_model;
use core::cmp::Ordering;

verus! {

/// The value that `m` holds under `k`, if any.
pub open spec fn lookup<K, V>(m: Map<K, V>, k: K) -> Option<V> {
    if m.contains_key(k) {
        Some(m[k])
    } else {
        None
    }
}

/// `s` names every entry of `m`, each once, and nothing else.
pub open spec fn covers_entries<K, V>(s: Seq<(&K, &V)>, m: Map<K, V>) -> bool {
    &&& forall|i: int|
        0 <= i < s.len() ==> #[trigger] m.contains_key(*s[i].0) && m[*s[i].0] == *s[i].1
    &&& forall|k: K| #[trigger]
        m.contains_key(k) ==> exists|i: int| 0 <= i < s.len() && *(#[trigger] s[i]).0 == k
    &&& forall|i: int, j: int| 0 <= i < j < s.len() ==> *(#[trigger] s[i]).0 != *(#[trigger] s[j]).0
}

/// `s` lists every entry of `m` exactly once.
pub open spec fn lists_entries<K, V>(s: Seq<(&K, &V)>, m: Map<K, V>) -> bool {
    &&& s.len() == m.len()
    &&& covers_entries(s, m)
}

/// A container that can hold the entries of a record.
///
/// Every operation is stated over `entries`, the map of keys to values
/// that the container holds. The statements bind only where `lawful`
/// holds: where the container's own comparison of keys agrees with
/// equality of key values. `HashMap` and `BTreeMap` implement it here;
/// another container may too, and is then promised nothing unless it
/// states its entries and lawfulness.
pub trait BackingMap<K, V>: Sized {
    /// The entries that the container holds; a container that does not
    /// state them holds none as far as the contracts tell.
    open spec fn entries(&self) -> Map<K, V> {
        Map::empty()
    }

    /// The container's comparison of keys agrees with equality of key values.
    /// A container that does not state this is promised nothing.
    open spec fn lawful() -> bool {
        false
    }

    /// Creates an empty container.
    fn new() -> (r: Self)
        ensures
            Self::lawful() ==> r.entries() == Map::<K, V>::empty(),
    ;

    /// Creates an empty container sized for `capacity` entries.
    fn with_capacity(capacity: usize) -> (r: Self)
        ensures
            Self::lawful() ==> r.entries() == Map::<K, V>::empty(),
    ;

    /// Inserts a value under a key, returning the value it replaced, if any.
    fn insert(&mut self, key: K, value: V) -> (r: Option<V>)
        ensures
            Self::lawful() ==> final(self).entries() == old(self).entries().insert(key, value),
            Self::lawful() ==> r == lookup(old(self).entries(), key),
    ;

    /// The value under a key, if any.
    fn get(&self, key: &K) -> (r: Option<&V>)
        ensures
            Self::lawful() ==> match r {
                Some(v) => lookup(self.entries(), *key) == Some(*v),
                None => lookup(self.entries(), *key) is None,
            },
    ;

    /// A mutable reference to the value under a key, if any.
    fn get_mut(&mut self, key: &K) -> (r: Option<&mut V>)
        ensures
            Self::lawful() ==> match lookup(old(self).entries(), *key) {
                Some(v) => r.is_some() && *r.unwrap() == v && final(self).entries()
                    == old(self).entries().insert(*key, *final(r.unwrap())),
                None => r.is_none() && final(self).entries() == old(self).entries(),
            },
    ;

    /// Removes a key, returning the value it held, if any.
    fn remove(&mut self, key: &K) -> (r: Option<V>)
        ensures
            Self::lawful() ==> final(self).entries() == old(self).entries().remove(*key),
            Self::lawful() ==> r == lookup(old(self).entries(), *key),
    ;

    /// The number of entries.
    fn len(&self) -> (r: usize)
        ensures
            Self::lawful() ==> r == self.entries().len(),
    ;

    /// Whether the container holds no entry.
    fn is_empty(&self) -> (r: bool)
        ensures
            Self::lawful() ==> (r <==> self.entries().len() == 0),
    ;
}

/// Every key of `s` comes before every later one by `before`.
pub open spec fn listed_in_order<K, V>(s: Seq<(&K, &V)>, before: spec_fn(K, K) -> bool) -> bool {
    forall|i: int, j: int|
        #![trigger s[i], s[j]]
        0 <= i < j < s.len() ==> before(*s[i].0, *s[j].0)
}

/// A container whose entries can be listed.
pub trait IterableMap<K, V>: BackingMap<K, V> {
    /// Whether the container lists key `a` before key `b` when it holds
    /// both; a container that keeps no order may list them either way.
    open spec fn lists_before(a: K, b: K) -> bool {
        true
    }

    /// Every entry, once each, in the container's own order.
    fn iter<'a>(&'a self) -> (r: Vec<(&'a K, &'a V)>)
        ensures
            Self::lawful() ==> lists_entries(r@, self.entries()),
            Self::lawful() ==> listed_in_order(r@, |a: K, b: K| Self::lists_before(a, b)),
    ;
}

/// Relies on std's `HashMap::get_mut`: a mutable reference to the value
/// stored under the key, if the map holds it.
#[verifier::external_body]
fn hash_map_get_mut<'a, K: Eq + Hash, V>(m: &'a mut HashMap<K, V>, key: &K) -> (r: Option<&'a mut V>)
    ensures
        obeys_key_model::<K>() ==> match lookup(old(m)@, *key) {
            Some(v) => r.is_some() && *r.unwrap() == v && final(m)@ == old(m)@.insert(
                *key,
                *final(r.unwrap()),
            ),
            None => r.is_none() && final(m)@ == old(m)@,
        },
{
    m.get_mut(key)
}

/// Relies on std's `BTreeMap::get_mut`: a mutable reference to the value
/// stored under the key, if the map holds it.
#[verifier::external_body]
fn btree_map_get_mut<'a, K: Ord, V>(m: &'a mut BTreeMap<K, V>, key: &K) -> (r: Option<&'a mut V>)
    ensures
        obeys_cmp::<K>() ==> match lookup(old(m)@, *key) {
            Some(v) => r.is_some() && *r.unwrap() == v && final(m)@ == old(m)@.insert(
                *key,
                *final(r.unwrap()),
            ),
            None => r.is_none() && final(m)@ == old(m)@,
        },
{
    m.get_mut(key)
}

/// Relies on std's `HashMap::iter`: it visits every entry of the map once.
#[verifier::external_body]
fn hash_map_entries<'a, K: Eq + Hash, V>(m: &'a HashMap<K, V>) -> (r: Vec<(&'a K, &'a V)>)
    ensures
        obeys_key_model::<K>() ==> lists_entries(r@, m@),
{
    m.iter().collect()
}

/// Relies on std's `BTreeMap::iter`: it visits every entry of the map once,
/// in ascending order of keys.
#[verifier::external_body]
fn btree_map_entries<'a, K: Ord, V>(m: &'a BTreeMap<K, V>) -> (r: Vec<(&'a K, &'a V)>)
    ensures
        obeys_cmp::<K>() ==> lists_entries(r@, m@),
        obeys_cmp::<K>() ==> forall|i: int, j: int|
            #![trigger r@[i], r@[j]]
            0 <= i < j < r@.len() ==> r@[i].0.cmp_spec(r@[j].0) == Ordering::Less,
{
    m.iter().collect()
}

impl<K: Eq + Hash, V> BackingMap<K, V> for HashMap<K, V> {
    open spec fn entries(&self) -> Map<K, V> {
        self@
    }

    open spec fn lawful() -> bool {
        obeys_key_model::<K>()
    }

    fn new() -> (r: Self) {
        HashMap::new()
    }

    fn with_capacity(capacity: usize) -> (r: Self) {
        HashMap::with_capacity(capacity)
    }

    fn insert(&mut self, key: K, value: V) -> (r: Option<V>) {
        HashMap::insert(self, key, value)
    }

    fn get(&self, key: &K) -> (r: Option<&V>) {
        HashMap::get(self, key)
    }

    fn get_mut(&mut self, key: &K) -> (r: Option<&mut V>) {
        hash_map_get_mut(self, key)
    }

    fn remove(&mut self, key: &K) -> (r: Option<V>) {
        HashMap::remove(self, key)
    }

    fn len(&self) -> (r: usize) {
        HashMap::len(self)
    }

    fn is_empty(&self) -> (r: bool) {
        HashMap::is_empty(self)
    }
}

impl<K: Ord, V> BackingMap<K, V> for BTreeMap<K, V> {
    open spec fn entries(&self) -> Map<K, V> {
        self@
    }

    open spec fn lawful() -> bool {
        obeys_cmp::<K>()
    }

    fn new() -> (r: Self) {
        BTreeMap::new()
    }

    fn with_capacity(capacity: usize) -> (r: Self) {
        BTreeMap::new()
    }

    fn insert(&mut self, key: K, value: V) -> (r: Option<V>) {
        BTreeMap::insert(self, key, value)
    }

    fn get(&self, key: &K) -> (r: Option<&V>) {
        BTreeMap::get(self, key)
    }

    fn get_mut(&mut self, key: &K) -> (r: Option<&mut V>) {
        btree_map_get_mut(self, key)
    }

    fn remove(&mut self, key: &K) -> (r: Option<V>) {
        BTreeMap::remove(self, key)
    }

    fn len(&self) -> (r: usize) {
        BTreeMap::len(self)
    }

    fn is_empty(&self) -> (r: bool) {
        BTreeMap::is_empty(self)
    }
}

impl<K: Eq + Hash, V> IterableMap<K, V> for HashMap<K, V> {
    fn iter<'a>(&'a self) -> (r: Vec<(&'a K, &'a V)>) {
        hash_map_entries(self)
    }
}

impl<K: Ord, V> IterableMap<K, V> for BTreeMap<K, V> {
    /// Keys come in ascending order.
    open spec fn lists_before(a: K, b: K) -> bool {
        a.cmp_spec(&b) == Ordering::Less
    }

    fn iter<'a>(&'a self) -> (r: Vec<(&'a K, &'a V)>) {
        btree_map_entries(self)
    }
}

} // verus!
