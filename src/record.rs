//! A record kept in a container: the runtime side of every derived record type.
//!
//! A record's container is keyed by [`Slot`]: one of the declared fields, or
//! an extension key of the catch-all field. Its values are [`Entry`]s: the
//! value sum of the declared fields, or an extension value. A declared
//! field's presence in the container is its presence in the record; an
//! absent optional field is never stored as an empty value.
use vstd::prelude::*;
use vstd::pervasive::strictly_cloned;
use crate::backing::{covers_entries, listed_in_order, lists_entries, lookup, BackingMap, IterableMap};

verus! {

/// A key of a record's container.
#[derive(Clone, Copy, Debug, PartialEq, Eq, Hash, PartialOrd, Ord)]
pub enum Slot<F, U> {
    /// A declared field.
    Field(F),
    /// An extension entry of the catch-all field.
    Unknown(U),
}

/// A value of a record's container.
#[derive(Clone, Debug, PartialEq)]
pub enum Entry<V, W> {
    /// The value of a declared field.
    Field(V),
    /// The value of an extension entry.
    Unknown(W),
}

/// The declared fields that `m` holds, with their values.
pub open spec fn field_values<F, U, V, W>(m: Map<Slot<F, U>, Entry<V, W>>) -> Map<F, V> {
    Map::new(
        |f: F| m.contains_key(Slot::Field(f)) && m[Slot::Field(f)] is Field,
        |f: F| m[Slot::Field(f)]->Field_0,
    )
}

/// The extension entries that `m` holds.
pub open spec fn unknown_values<F, U, V, W>(m: Map<Slot<F, U>, Entry<V, W>>) -> Map<U, W> {
    Map::new(
        |u: U| m.contains_key(Slot::Unknown(u)) && m[Slot::Unknown(u)] is Unknown,
        |u: U| m[Slot::Unknown(u)]->Unknown_0,
    )
}

/// Every key of `m` is paired with a value of its own kind.
pub open spec fn co_indexed<F, U, V, W>(m: Map<Slot<F, U>, Entry<V, W>>) -> bool {
    forall|s: Slot<F, U>|
        #[trigger] m.contains_key(s) ==> (s is Field <==> m[s] is Field)
}

/// The entries of a record built from `fields`, inserted in order.
pub open spec fn built_from<F, U, V, W>(fields: Seq<(F, V)>) -> Map<Slot<F, U>, Entry<V, W>>
    decreases fields.len(),
{
    if fields.len() == 0 {
        Map::empty()
    } else {
        let last = fields.last();
        built_from::<F, U, V, W>(fields.drop_last()).insert(Slot::Field(last.0), Entry::Field(last.1))
    }
}

/// Whether cloning a `U` always gives a value equal to the one cloned.
pub open spec fn clones_exactly<U: Clone>() -> bool {
    forall|a: U, b: U| #[trigger] strictly_cloned(a, b) ==> a == b
}

/// Removing an extension key leaves the declared fields as they are and
/// drops that key from the extension entries.
pub proof fn lemma_remove_unknown_slot<F, U, V, W>(m: Map<Slot<F, U>, Entry<V, W>>, k: U)
    ensures
        field_values(m.remove(Slot::Unknown(k))) == field_values(m),
        unknown_values(m.remove(Slot::Unknown(k))) == unknown_values(m).remove(k),
{
    assert(field_values(m.remove(Slot::Unknown(k))) =~= field_values(m));
    assert(unknown_values(m.remove(Slot::Unknown(k))) =~= unknown_values(m).remove(k));
}

/// A copy of an extension key, for addressing the container by value.
fn clone_key<U: Clone>(k: &U) -> (r: U)
    ensures
        clones_exactly::<U>() ==> r == *k,
{
    let r = k.clone();
    proof {
        if clones_exactly::<U>() {
            assert(strictly_cloned(*k, r));
        }
    }
    r
}

/// The declared fields among `order` that `m` holds, each with its position
/// in `order` and its value, in the order of `order`.
pub open spec fn present_in<F, U, V, W>(order: Seq<F>, m: Map<Slot<F, U>, Entry<V, W>>) -> Seq<(usize, V)>
    decreases order.len(),
{
    if order.len() == 0 {
        Seq::empty()
    } else {
        present_in(order.drop_last(), m) + match lookup(field_values(m), order.last()) {
            Some(v) => seq![((order.len() - 1) as usize, v)],
            None => Seq::empty(),
        }
    }
}

/// The values that a list of present fields refers to.
pub open spec fn present_values<V>(s: Seq<(usize, &V)>) -> Seq<(usize, V)> {
    s.map_values(|p: (usize, &V)| (p.0, *p.1))
}

/// The fields among `order` that a container holds, with their positions and values.
fn present_fields_in<'a, F: Copy + 'a, U: 'a, V: 'a, W: 'a, M: BackingMap<Slot<F, U>, Entry<V, W>>>(
    m: &'a M,
    order: &Vec<F>,
) -> (r: Vec<(usize, &'a V)>)
    ensures
        M::lawful() ==> present_values(r@) == present_in(order@, m.entries()),
{
    let mut out: Vec<(usize, &'a V)> = Vec::new();
    let mut i: usize = 0;
    while i < order.len()
        invariant
            0 <= i <= order.len(),
            M::lawful() ==> present_values(out@) == present_in(order@.take(i as int), m.entries()),
        decreases order.len() - i,
    {
        assert(order@.take(i + 1).drop_last() =~= order@.take(i as int));
        let ghost out0 = out@;
        match m.get(&Slot::Field(order[i])) {
            Some(Entry::Field(v)) => {
                out.push((i, v));
            },
            _ => {},
        }
        proof {
            if M::lawful() {
                assert(present_values(out@) =~= present_in(order@.take(i + 1), m.entries()));
            }
        }
        i += 1;
    }
    assert(order@.take(order.len() as int) =~= order@);
    out
}

/// The extension entries listed in `s` come in the container's order of
/// their keys.
pub open spec fn unknown_in_order<F, U, V, W, M: IterableMap<Slot<F, U>, Entry<V, W>>>(
    s: Seq<(&U, &W)>,
) -> bool {
    forall|i: int, j: int|
        #![trigger s[i], s[j]]
        0 <= i < j < s.len() ==> M::lists_before(Slot::Unknown(*s[i].0), Slot::Unknown(*s[j].0))
}

/// The extension entries of a container, each once, in the container's order.
fn unknown_entries_in<'a, F: 'a, U: 'a, V: 'a, W: 'a, M: IterableMap<Slot<F, U>, Entry<V, W>>>(
    m: &'a M,
) -> (r: Vec<(&'a U, &'a W)>)
    ensures
        M::lawful() ==> covers_entries(r@, unknown_values(m.entries())),
        M::lawful() ==> unknown_in_order::<F, U, V, W, M>(r@),
{
    let all = m.iter();
    let ghost ents = m.entries();
    let ghost unk = unknown_values(ents);
    let mut out: Vec<(&'a U, &'a W)> = Vec::new();
    let ghost mut src: Seq<int> = Seq::empty();
    let mut i: usize = 0;
    while i < all.len()
        invariant
            0 <= i <= all.len(),
            ents == m.entries(),
            unk == unknown_values(ents),
            src.len() == out.len(),
            M::lawful() ==> lists_entries(all@, ents),
            M::lawful() ==> listed_in_order(all@, |a: Slot<F, U>, b: Slot<F, U>| M::lists_before(a, b)),
            M::lawful() ==> forall|j: int|
                0 <= j < out.len() ==> unk.contains_key(*(#[trigger] out@[j]).0) && unk[*out@[j].0]
                    == *out@[j].1,
            forall|j: int|
                0 <= j < out.len() ==> 0 <= #[trigger] src[j] < i && *all@[src[j]].0
                    == Slot::<F, U>::Unknown(*out@[j].0),
            forall|j1: int, j2: int| 0 <= j1 < j2 < out.len() ==> #[trigger] src[j1] < #[trigger] src[j2],
            M::lawful() ==> forall|jj: int|
                0 <= jj < i && (*(#[trigger] all@[jj]).0 is Unknown) && (*all@[jj].1 is Unknown)
                    ==> exists|j: int|
                    0 <= j < out.len() && *(#[trigger] out@[j]).0 == (*all@[jj].0)->Unknown_0,
            M::lawful() ==> forall|j1: int, j2: int|
                0 <= j1 < j2 < out.len() ==> *(#[trigger] out@[j1]).0 != *(#[trigger] out@[j2]).0,
            M::lawful() ==> unknown_in_order::<F, U, V, W, M>(out@),
        decreases all.len() - i,
    {
        let (s, e) = all[i];
        let ghost out0 = out@;
        let ghost src0 = src;
        match (s, e) {
            (Slot::Unknown(k), Entry::Unknown(w)) => {
                proof {
                    if M::lawful() {
                        assert(ents.contains_key(*all@[i as int].0));
                        assert(ents[Slot::Unknown(*k)] == Entry::<V, W>::Unknown(*w));
                        assert(unk.contains_key(*k));
                        assert(unk[*k] == *w);
                        assert forall|j: int| 0 <= j < out.len() implies *out@[j].0 != *k by {
                            assert(src[j] < i);
                            assert(*all@[src[j]].0 != *all@[i as int].0);
                        }
                    }
                }
                out.push((k, w));
                proof {
                    src = src.push(i as int);
                    assert forall|j: int|
                        0 <= j < out.len() implies 0 <= #[trigger] src[j] < i + 1 && *all@[src[j]].0
                        == Slot::<F, U>::Unknown(*out@[j].0) by {
                        if j < out0.len() {
                            assert(src[j] == src0[j]);
                            assert(out@[j] == out0[j]);
                        }
                    }
                    if M::lawful() {
                        assert forall|j1: int, j2: int|
                            #![trigger out@[j1], out@[j2]]
                            0 <= j1 < j2 < out.len() implies M::lists_before(
                            Slot::Unknown(*out@[j1].0),
                            Slot::Unknown(*out@[j2].0),
                        ) by {
                            assert(out@[j1] == out0[j1]);
                            if j2 < out0.len() {
                                assert(out@[j2] == out0[j2]);
                                assert(out0[j1] == out0[j1] && out0[j2] == out0[j2]);
                            } else {
                                assert(src[j1] < i);
                                assert(all@[src[j1]] == all@[src[j1]] && all@[i as int] == all@[i as int]);
                            }
                        }
                    }
                }
            },
            _ => {},
        }
        proof {
            if M::lawful() {
                assert forall|jj: int|
                    0 <= jj < i + 1 && (*(#[trigger] all@[jj]).0 is Unknown) && (
                    *all@[jj].1 is Unknown) implies exists|j: int|
                    0 <= j < out.len() && *(#[trigger] out@[j]).0 == (*all@[jj].0)->Unknown_0 by {
                    if jj == i {
                        assert(*out@[out.len() - 1].0 == (*all@[jj].0)->Unknown_0);
                    } else {
                        let j = choose|j: int|
                            0 <= j < out0.len() && *(#[trigger] out0[j]).0 == (*all@[jj].0)->Unknown_0;
                        assert(out@[j] == out0[j]);
                    }
                }
            }
        }
        i += 1;
    }
    proof {
        if M::lawful() {
            assert forall|u: U| #[trigger] unk.contains_key(u) implies exists|j: int|
                0 <= j < out.len() && *(#[trigger] out@[j]).0 == u by {
                let jj = choose|jj: int| 0 <= jj < all.len() && *(#[trigger] all@[jj]).0 == Slot::<F, U>::Unknown(u);
                assert(*all@[jj].0 is Unknown);
            }
        }
    }
    out
}

/// A record: one container that holds its present fields and extension entries.
#[derive(Clone, Debug, PartialEq)]
pub struct Record<M> {
    inner: M,
}

/// What a consumed record hands over: the same container, from which each
/// field can be taken out once.
#[derive(Clone, Debug, PartialEq)]
pub struct FieldsOf<M> {
    inner: M,
}

impl<M> Record<M> {
    /// The record's container.
    pub closed spec fn store(&self) -> M {
        self.inner
    }

    /// Builds a record that holds exactly the given fields.
    pub fn with_fields<F, U, V, W>(fields: Vec<(F, V)>) -> (r: Self)
        where
            M: BackingMap<Slot<F, U>, Entry<V, W>>,
        ensures
            M::lawful() ==> r.store().entries() == built_from::<F, U, V, W>(fields@),
    {
        let ghost all = fields@;
        let mut inner = M::with_capacity(fields.len());
        let mut rest = fields;
        let ghost mut taken: Seq<(F, V)> = Seq::empty();
        while rest.len() > 0
            invariant
                all == taken + rest@,
                M::lawful() ==> inner.entries() == built_from::<F, U, V, W>(taken),
            decreases rest.len(),
        {
            let (f, v) = rest.remove(0);
            proof {
                assert(taken.push((f, v)).drop_last() =~= taken);
                taken = taken.push((f, v));
                assert(all =~= taken + rest@);
            }
            inner.insert(Slot::Field(f), Entry::Field(v));
        }
        assert(taken =~= all);
        Record { inner }
    }
}

impl<M> Record<M> {
    /// A record with no field present.
    pub fn empty<K, E>() -> (r: Self)
        where
            M: BackingMap<K, E>,
        ensures
            M::lawful() ==> r.store().entries() == Map::<K, E>::empty(),
    {
        Record { inner: M::new() }
    }

    /// The value of a declared field, if present.
    pub fn field<'a, F: Copy + 'a, U: 'a, V: 'a, W: 'a>(&'a self, f: &F) -> (r: Option<&'a V>)
        where
            M: BackingMap<Slot<F, U>, Entry<V, W>>,
        ensures
            M::lawful() ==> match r {
                Some(v) => lookup(field_values(self.store().entries()), *f) == Some(*v),
                None => lookup(field_values(self.store().entries()), *f) is None,
            },
    {
        match self.inner.get(&Slot::Field(*f)) {
            Some(Entry::Field(v)) => Some(v),
            _ => None,
        }
    }

    /// A mutable reference to the value of a declared field, if present.
    pub fn field_mut<'a, F: Copy + 'a, U: 'a, V: 'a, W: 'a>(&'a mut self, f: &F) -> (r: Option<&'a mut V>)
        where
            M: BackingMap<Slot<F, U>, Entry<V, W>>,
        ensures
            M::lawful() ==> match lookup(field_values(old(self).store().entries()), *f) {
                Some(v) => r.is_some() && *r.unwrap() == v && final(self).store().entries()
                    == old(self).store().entries().insert(
                    Slot::Field(*f),
                    Entry::Field(*final(r.unwrap())),
                ),
                None => r.is_none() && final(self).store().entries() == old(self).store().entries(),
            },
    {
        let ghost before = self.inner.entries();
        match self.inner.get_mut(&Slot::Field(*f)) {
            Some(Entry::Field(v)) => Some(v),
            Some(other) => {
                proof {
                    if M::lawful() {
                        assert(before.insert(Slot::Field(*f), *other) =~= before);
                    }
                }
                None
            },
            None => None,
        }
    }

    /// Stores a value for a declared field, replacing any earlier one.
    pub fn set_field<F, U, V, W>(&mut self, f: F, v: V)
        where
            M: BackingMap<Slot<F, U>, Entry<V, W>>,
        ensures
            M::lawful() ==> final(self).store().entries() == old(self).store().entries().insert(
                Slot::Field(f),
                Entry::Field(v),
            ),
    {
        self.inner.insert(Slot::Field(f), Entry::Field(v));
    }

    /// Makes an optional field present with the given value, or absent.
    pub fn put_field<F, U, V, W>(&mut self, f: F, v: Option<V>)
        where
            M: BackingMap<Slot<F, U>, Entry<V, W>>,
        ensures
            M::lawful() ==> final(self).store().entries() == match v {
                Some(x) => old(self).store().entries().insert(Slot::Field(f), Entry::Field(x)),
                None => old(self).store().entries().remove(Slot::Field(f)),
            },
    {
        match v {
            Some(x) => {
                self.inner.insert(Slot::Field(f), Entry::Field(x));
            },
            None => {
                self.inner.remove(&Slot::Field(f));
            },
        }
    }

    /// Removes a declared field, returning its value if it was present.
    pub fn remove_field<F: Copy, U, V, W>(&mut self, f: &F) -> (r: Option<V>)
        where
            M: BackingMap<Slot<F, U>, Entry<V, W>>,
        ensures
            M::lawful() ==> final(self).store().entries() == old(self).store().entries().remove(
                Slot::Field(*f),
            ),
            M::lawful() ==> r == lookup(field_values(old(self).store().entries()), *f),
    {
        match self.inner.remove(&Slot::Field(*f)) {
            Some(Entry::Field(v)) => Some(v),
            _ => None,
        }
    }

    /// Stores an extension entry, returning the value it replaced, if any.
    pub fn add_unknown<F, U, V, W>(&mut self, k: U, w: W) -> (r: Option<W>)
        where
            M: BackingMap<Slot<F, U>, Entry<V, W>>,
        ensures
            M::lawful() ==> final(self).store().entries() == old(self).store().entries().insert(
                Slot::Unknown(k),
                Entry::Unknown(w),
            ),
            M::lawful() ==> r == lookup(unknown_values(old(self).store().entries()), k),
    {
        match self.inner.insert(Slot::Unknown(k), Entry::Unknown(w)) {
            Some(Entry::Unknown(old_value)) => Some(old_value),
            _ => None,
        }
    }

    /// The value of an extension entry, if present.
    pub fn unknown<'a, F: 'a, U: 'a, V: 'a, W: 'a>(&'a self, k: U) -> (r: Option<&'a W>)
        where
            M: BackingMap<Slot<F, U>, Entry<V, W>>,
        ensures
            M::lawful() ==> match r {
                Some(w) => lookup(unknown_values(self.store().entries()), k) == Some(*w),
                None => lookup(unknown_values(self.store().entries()), k) is None,
            },
    {
        match self.inner.get(&Slot::Unknown(k)) {
            Some(Entry::Unknown(w)) => Some(w),
            _ => None,
        }
    }

    /// A mutable reference to the value of an extension entry, if present.
    pub fn unknown_mut<'a, F: 'a, U: 'a, V: 'a, W: 'a>(&'a mut self, k: U) -> (r: Option<&'a mut W>)
        where
            M: BackingMap<Slot<F, U>, Entry<V, W>>,
        ensures
            M::lawful() ==> match lookup(unknown_values(old(self).store().entries()), k) {
                Some(w) => r.is_some() && *r.unwrap() == w && final(self).store().entries()
                    == old(self).store().entries().insert(
                    Slot::Unknown(k),
                    Entry::Unknown(*final(r.unwrap())),
                ),
                None => r.is_none() && final(self).store().entries() == old(self).store().entries(),
            },
    {
        let ghost before = self.inner.entries();
        let ghost key = Slot::<F, U>::Unknown(k);
        match self.inner.get_mut(&Slot::Unknown(k)) {
            Some(Entry::Unknown(w)) => Some(w),
            Some(other) => {
                proof {
                    if M::lawful() {
                        assert(before.insert(key, *other) =~= before);
                    }
                }
                None
            },
            None => None,
        }
    }

    /// Removes an extension entry, returning its value if it was present.
    pub fn remove_unknown<F, U, V, W>(&mut self, k: U) -> (r: Option<W>)
        where
            M: BackingMap<Slot<F, U>, Entry<V, W>>,
        ensures
            M::lawful() ==> final(self).store().entries() == old(self).store().entries().remove(
                Slot::Unknown(k),
            ),
            M::lawful() ==> r == lookup(unknown_values(old(self).store().entries()), k),
    {
        match self.inner.remove(&Slot::Unknown(k)) {
            Some(Entry::Unknown(w)) => Some(w),
            _ => None,
        }
    }

    /// The number of present fields and extension entries.
    pub fn len<K, E>(&self) -> (r: usize)
        where
            M: BackingMap<K, E>,
        ensures
            M::lawful() ==> r == self.store().entries().len(),
    {
        self.inner.len()
    }

    /// Whether no field and no extension entry is present.
    pub fn is_empty<K, E>(&self) -> (r: bool)
        where
            M: BackingMap<K, E>,
        ensures
            M::lawful() ==> (r <==> self.store().entries().len() == 0),
    {
        self.inner.is_empty()
    }

    /// Consumes the record, handing its container over to a companion from
    /// which each field can be taken out.
    pub fn into_fields(self) -> (r: FieldsOf<M>)
        ensures
            r.store() == self.store(),
    {
        FieldsOf { inner: self.inner }
    }
}

impl<M> FieldsOf<M> {
    /// The companion's container.
    pub closed spec fn store(&self) -> M {
        self.inner
    }

    /// The value of a declared field not yet taken, if any.
    pub fn field<'a, F: Copy + 'a, U: 'a, V: 'a, W: 'a>(&'a self, f: &F) -> (r: Option<&'a V>)
        where
            M: BackingMap<Slot<F, U>, Entry<V, W>>,
        ensures
            M::lawful() ==> match r {
                Some(v) => lookup(field_values(self.store().entries()), *f) == Some(*v),
                None => lookup(field_values(self.store().entries()), *f) is None,
            },
    {
        match self.inner.get(&Slot::Field(*f)) {
            Some(Entry::Field(v)) => Some(v),
            _ => None,
        }
    }

    /// Takes a declared field out: its value the first time, nothing after.
    pub fn take_field<F: Copy, U, V, W>(&mut self, f: &F) -> (r: Option<V>)
        where
            M: BackingMap<Slot<F, U>, Entry<V, W>>,
        ensures
            M::lawful() ==> final(self).store().entries() == old(self).store().entries().remove(
                Slot::Field(*f),
            ),
            M::lawful() ==> r == lookup(field_values(old(self).store().entries()), *f),
    {
        match self.inner.remove(&Slot::Field(*f)) {
            Some(Entry::Field(v)) => Some(v),
            _ => None,
        }
    }

    /// Takes an extension entry out: its value the first time, nothing after.
    pub fn take_unknown<F, U, V, W>(&mut self, k: U) -> (r: Option<W>)
        where
            M: BackingMap<Slot<F, U>, Entry<V, W>>,
        ensures
            M::lawful() ==> final(self).store().entries() == old(self).store().entries().remove(
                Slot::Unknown(k),
            ),
            M::lawful() ==> r == lookup(unknown_values(old(self).store().entries()), k),
    {
        match self.inner.remove(&Slot::Unknown(k)) {
            Some(Entry::Unknown(w)) => Some(w),
            _ => None,
        }
    }
}

impl<M> Record<M> {
    /// The fields among `order` that are present, each with its position in
    /// `order` and its value, in the order of `order`: what formatting lists.
    pub fn present_fields<'a, F: Copy + 'a, U: 'a, V: 'a, W: 'a>(&'a self, order: &Vec<F>) -> (r: Vec<(usize, &'a V)>)
        where
            M: BackingMap<Slot<F, U>, Entry<V, W>>,
        ensures
            M::lawful() ==> present_values(r@) == present_in(order@, self.store().entries()),
    {
        present_fields_in(&self.inner, order)
    }

    /// The extension entries, each once, in the container's own order.
    pub fn unknown_entries<'a, F: 'a, U: 'a, V: 'a, W: 'a>(&'a self) -> (r: Vec<(&'a U, &'a W)>)
        where
            M: IterableMap<Slot<F, U>, Entry<V, W>>,
        ensures
            M::lawful() ==> covers_entries(r@, unknown_values(self.store().entries())),
            M::lawful() ==> unknown_in_order::<F, U, V, W, M>(r@),
    {
        unknown_entries_in(&self.inner)
    }
}

impl<M> FieldsOf<M> {
    /// The fields among `order` that are present, each with its position in
    /// `order` and its value, in the order of `order`: what formatting lists.
    pub fn present_fields<'a, F: Copy + 'a, U: 'a, V: 'a, W: 'a>(&'a self, order: &Vec<F>) -> (r: Vec<(usize, &'a V)>)
        where
            M: BackingMap<Slot<F, U>, Entry<V, W>>,
        ensures
            M::lawful() ==> present_values(r@) == present_in(order@, self.store().entries()),
    {
        present_fields_in(&self.inner, order)
    }

    /// The extension entries not yet taken, each once, in the container's own order.
    pub fn unknown_entries<'a, F: 'a, U: 'a, V: 'a, W: 'a>(&'a self) -> (r: Vec<(&'a U, &'a W)>)
        where
            M: IterableMap<Slot<F, U>, Entry<V, W>>,
        ensures
            M::lawful() ==> covers_entries(r@, unknown_values(self.store().entries())),
            M::lawful() ==> unknown_in_order::<F, U, V, W, M>(r@),
    {
        unknown_entries_in(&self.inner)
    }

    /// Takes every extension entry out at once, into a fresh container.
    pub fn drain_unknown<F, U: Clone, V, W, N: BackingMap<U, W>>(&mut self) -> (r: N)
        where
            M: IterableMap<Slot<F, U>, Entry<V, W>>,
        ensures
            M::lawful() && N::lawful() && clones_exactly::<U>() ==> {
                &&& r.entries() == unknown_values(old(self).store().entries())
                &&& field_values(final(self).store().entries()) == field_values(
                    old(self).store().entries(),
                )
                &&& unknown_values(final(self).store().entries()) == Map::<U, W>::empty()
            },
    {
        let ghost start = self.inner.entries();
        let ghost unk = unknown_values(start);
        let mut keys: Vec<U> = Vec::new();
        {
            let listed = unknown_entries_in(&self.inner);
            let mut i: usize = 0;
            while i < listed.len()
                invariant
                    0 <= i <= listed.len(),
                    keys.len() == i,
                    clones_exactly::<U>() ==> forall|j: int|
                        0 <= j < i ==> keys@[j] == *(#[trigger] listed@[j]).0,
                decreases listed.len() - i,
            {
                keys.push(clone_key(listed[i].0));
                i += 1;
            }
            proof {
                if M::lawful() && clones_exactly::<U>() {
                    assert forall|j1: int, j2: int|
                        0 <= j1 < j2 < keys.len() implies keys@[j1] != keys@[j2] by {
                        assert(*listed@[j1].0 != *listed@[j2].0);
                    }
                    assert forall|j: int| 0 <= j < keys.len() implies unk.contains_key(
                        #[trigger] keys@[j],
                    ) by {
                        assert(keys@[j] == *listed@[j].0);
                    }
                    assert forall|u: U| unk.contains_key(u) implies keys@.contains(u) by {
                        let j = choose|j: int| 0 <= j < listed.len() && *(#[trigger] listed@[j]).0 == u;
                        assert(keys@[j] == u);
                    }
                }
            }
        }
        let mut result = N::new();
        let mut i: usize = 0;
        while i < keys.len()
            invariant
                0 <= i <= keys.len(),
                M::lawful() && clones_exactly::<U>() ==> {
                    &&& forall|j1: int, j2: int|
                        0 <= j1 < j2 < keys.len() ==> keys@[j1] != keys@[j2]
                    &&& forall|j: int| 0 <= j < keys.len() ==> unk.contains_key(#[trigger] keys@[j])
                    &&& forall|u: U| unk.contains_key(u) ==> keys@.contains(u)
                },
                M::lawful() && N::lawful() && clones_exactly::<U>() ==> {
                    &&& field_values(self.inner.entries()) == field_values(start)
                    &&& unknown_values(self.inner.entries()) == unk.remove_keys(
                        keys@.subrange(0, i as int).to_set(),
                    )
                    &&& result.entries() == unk.restrict(keys@.subrange(0, i as int).to_set())
                },
            decreases keys.len() - i,
        {
            let k = clone_key(&keys[i]);
            let ghost cur = self.inner.entries();
            let ghost res0 = result.entries();
            proof {
                if M::lawful() && N::lawful() && clones_exactly::<U>() {
                    lemma_remove_unknown_slot::<F, U, V, W>(cur, k);
                    let before = keys@.subrange(0, i as int);
                    let after = keys@.subrange(0, i + 1);
                    assert(after.to_set() =~= before.to_set().insert(k)) by {
                        assert(after =~= before.push(k));
                        before.lemma_push_to_set_commute(k);
                    }
                    assert(!before.to_set().contains(k)) by {
                        if before.to_set().contains(k) {
                            let j = choose|j: int| 0 <= j < before.len() && before[j] == k;
                            assert(keys@[j] == keys@[i as int]);
                        }
                    }
                    assert(unk.remove_keys(before.to_set()).remove(k) =~= unk.remove_keys(
                        after.to_set(),
                    ));
                    assert(unk.restrict(before.to_set()).insert(k, unk[k]) =~= unk.restrict(
                        after.to_set(),
                    ));
                }
            }
            let probe = clone_key(&keys[i]);
            match self.take_unknown(probe) {
                Some(w) => {
                    result.insert(k, w);
                },
                None => {},
            }
            i += 1;
        }
        proof {
            if M::lawful() && N::lawful() && clones_exactly::<U>() {
                assert(keys@.subrange(0, keys.len() as int) =~= keys@);
                assert(keys@.to_set() =~= unk.dom()) by {
                    assert forall|u: U| keys@.to_set().contains(u) implies unk.dom().contains(u) by {
                        let j = choose|j: int| 0 <= j < keys.len() && keys@[j] == u;
                        assert(unk.contains_key(keys@[j]));
                    }
                }
                assert(unk.remove_keys(keys@.to_set()) =~= Map::<U, W>::empty());
                assert(unk.restrict(keys@.to_set()) =~= unk);
            }
        }
        result
    }
}

} // verus!
