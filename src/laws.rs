//! What holds of a record across several operations.
use vstd::prelude::*;
use crate::backing::lookup;
use crate::record::{built_from, co_indexed, field_values, present_in, unknown_values, Entry, Slot};

verus! {

/// A record built from fields with distinct names reads back, for each
/// field, exactly the value it was built with.
pub proof fn law_built_fields_read_back<F, U, V, W>(fields: Seq<(F, V)>)
    requires
        forall|i: int, j: int|
            0 <= i < j < fields.len() ==> (#[trigger] fields[i]).0 != (#[trigger] fields[j]).0,
    ensures
        forall|i: int|
            0 <= i < fields.len() ==> lookup(
                field_values(built_from::<F, U, V, W>(fields)),
                (#[trigger] fields[i]).0,
            ) == Some(fields[i].1),
    decreases fields.len(),
{
    if fields.len() > 0 {
        let front = fields.drop_last();
        law_built_fields_read_back::<F, U, V, W>(front);
        assert forall|i: int| 0 <= i < fields.len() implies lookup(
            field_values(built_from::<F, U, V, W>(fields)),
            (#[trigger] fields[i]).0,
        ) == Some(fields[i].1) by {
            let m = built_from::<F, U, V, W>(fields);
            assert(m == built_from::<F, U, V, W>(front).insert(
                Slot::Field(fields.last().0),
                Entry::Field(fields.last().1),
            ));
            if i < fields.len() - 1 {
                assert(front[i] == fields[i]);
                assert(fields[i].0 != fields[fields.len() - 1].0);
            }
        }
    }
}

/// Setting a field and reading it gives the value set; removing a field, or
/// setting it to nothing, and reading it gives nothing. Removing a present
/// field takes one entry away; removing an absent one changes nothing.
pub proof fn law_set_then_get<F, U, V, W>(m: Map<Slot<F, U>, Entry<V, W>>, f: F, v: V)
    requires
        m.dom().finite(),
        co_indexed(m),
    ensures
        lookup(field_values(m.insert(Slot::Field(f), Entry::Field(v))), f) == Some(v),
        lookup(field_values(m.remove(Slot::Field(f))), f) is None,
        lookup(field_values(m), f) is Some ==> m.remove(Slot::Field(f)).len() == m.len() - 1,
        lookup(field_values(m), f) is None ==> m.remove(Slot::Field(f)) == m,
{
    if lookup(field_values(m), f) is None {
        assert(!m.contains_key(Slot::Field(f)));
        assert(m.remove(Slot::Field(f)) =~= m);
    }
}

/// Two extension entries under distinct keys read back their own values;
/// added to a record with no extension entry, they are its only ones.
pub proof fn law_two_extensions<F, U, V, W>(
    m: Map<Slot<F, U>, Entry<V, W>>,
    k1: U,
    w1: W,
    k2: U,
    w2: W,
)
    requires
        k1 != k2,
    ensures
        ({
            let m2 = m.insert(Slot::Unknown(k1), Entry::Unknown(w1)).insert(
                Slot::Unknown(k2),
                Entry::Unknown(w2),
            );
            &&& lookup(unknown_values(m2), k1) == Some(w1)
            &&& lookup(unknown_values(m2), k2) == Some(w2)
            &&& unknown_values(m) == Map::<U, W>::empty() ==> unknown_values(m2) == map![k1 => w1, k2 => w2]
        }),
{
    let m2 = m.insert(Slot::Unknown(k1), Entry::Unknown(w1)).insert(
        Slot::Unknown(k2),
        Entry::Unknown(w2),
    );
    assert(m2[Slot::Unknown(k1)] == Entry::<V, W>::Unknown(w1));
    if unknown_values(m) == Map::<U, W>::empty() {
        assert forall|u: U| #[trigger] unknown_values(m2).contains_key(u) implies u == k1 || u == k2 by {
            if u != k1 && u != k2 {
                assert(m2[Slot::Unknown(u)] == m[Slot::Unknown(u)]);
                assert(unknown_values(m).contains_key(u));
            }
        }
        assert(unknown_values(m2) =~= map![k1 => w1, k2 => w2]);
    }
}

/// Taking a field out leaves nothing behind for a second take, and so does
/// taking an extension entry out.
pub proof fn law_take_once<F, U, V, W>(m: Map<Slot<F, U>, Entry<V, W>>, f: F, k: U)
    ensures
        lookup(field_values(m.remove(Slot::Field(f))), f) is None,
        lookup(unknown_values(m.remove(Slot::Unknown(k))), k) is None,
{
}

/// Every key is paired with a value of its own kind in a record built from
/// fields, and stays so through every change the record's operations make:
/// storing a field value, storing an extension entry, removing a key.
pub proof fn law_kinds_stay_paired<F, U, V, W>(
    fields: Seq<(F, V)>,
    m: Map<Slot<F, U>, Entry<V, W>>,
    f: F,
    v: V,
    k: U,
    w: W,
    s: Slot<F, U>,
)
    ensures
        co_indexed(built_from::<F, U, V, W>(fields)),
        co_indexed(m) ==> co_indexed(m.insert(Slot::Field(f), Entry::Field(v))),
        co_indexed(m) ==> co_indexed(m.insert(Slot::Unknown(k), Entry::Unknown(w))),
        co_indexed(m) ==> co_indexed(m.remove(s)),
    decreases fields.len(),
{
    if fields.len() > 0 {
        law_kinds_stay_paired::<F, U, V, W>(fields.drop_last(), m, f, v, k, w, s);
    }
}

/// Every listed position holds a present field of `order`, with its value.
pub open spec fn lists_only_present<F, U, V, W>(order: Seq<F>, m: Map<Slot<F, U>, Entry<V, W>>) -> bool {
    forall|i: int|
        0 <= i < present_in(order, m).len() ==> (#[trigger] present_in(order, m)[i]).0 < order.len()
            && lookup(field_values(m), order[present_in(order, m)[i].0 as int]) == Some(
            present_in(order, m)[i].1,
        )
}

/// Every present field of `order` is listed.
pub open spec fn lists_every_present<F, U, V, W>(order: Seq<F>, m: Map<Slot<F, U>, Entry<V, W>>) -> bool {
    forall|k: int|
        0 <= k < order.len() && (#[trigger] lookup(field_values(m), order[k])) is Some ==> exists|
            i: int,
        | 0 <= i < present_in(order, m).len() && (#[trigger] present_in(order, m)[i]).0 == k
}

/// Formatting lists a field exactly when it is present, with its value:
/// every listed position holds a present field, and every present field of
/// `order` is listed. So a field appears once it is set, and not before.
pub proof fn law_formatting_lists_present<F, U, V, W>(order: Seq<F>, m: Map<Slot<F, U>, Entry<V, W>>)
    requires
        order.len() <= usize::MAX,
    ensures
        lists_only_present(order, m),
        lists_every_present(order, m),
    decreases order.len(),
{
    if order.len() > 0 {
        let front = order.drop_last();
        law_formatting_lists_present::<F, U, V, W>(front, m);
        let p0 = present_in(front, m);
        let p = present_in(order, m);
        let last = lookup(field_values(m), order.last());
        assert(p == p0 + match last {
            Some(v) => seq![((order.len() - 1) as usize, v)],
            None => Seq::<(usize, V)>::empty(),
        });
        assert forall|i: int| 0 <= i < p.len() implies (#[trigger] p[i]).0 < order.len() && lookup(
            field_values(m),
            order[p[i].0 as int],
        ) == Some(p[i].1) by {
            if i < p0.len() {
                assert(p[i] == p0[i]);
                assert(p0[i].0 < front.len());
                assert(order[p0[i].0 as int] == front[p0[i].0 as int]);
            }
        }
        assert forall|k: int|
            0 <= k < order.len() && (#[trigger] lookup(field_values(m), order[k])) is Some implies exists|
                i: int,
            | 0 <= i < p.len() && (#[trigger] p[i]).0 == k by {
            if k < order.len() - 1 {
                assert(front[k] == order[k]);
                assert(lookup(field_values(m), front[k]) is Some);
                let i = choose|i: int| 0 <= i < p0.len() && (#[trigger] p0[i]).0 == k;
                assert(p[i] == p0[i]);
            } else {
                assert(p[p.len() - 1].0 == k);
            }
        }
    }
}

/// A field's key, once present, stays present through every operation the
/// record offers on a required field or on any other entry: setting the
/// field, writing through its mutable getter, setting or removing another
/// field, and adding or removing extension entries. Only removing the field
/// itself takes it away, and no such operation is offered for a required one.
pub proof fn law_required_key_stays<F, U, V, W>(
    m: Map<Slot<F, U>, Entry<V, W>>,
    f: F,
    v: V,
    g: F,
    x: V,
    k: U,
    w: W,
)
    requires
        m.contains_key(Slot::Field(f)),
    ensures
        m.insert(Slot::Field(f), Entry::Field(v)).contains_key(Slot::Field(f)),
        m.insert(Slot::Field(g), Entry::Field(x)).contains_key(Slot::Field(f)),
        g != f ==> m.remove(Slot::Field(g)).contains_key(Slot::Field(f)),
        m.insert(Slot::Unknown(k), Entry::Unknown(w)).contains_key(Slot::Field(f)),
        m.remove(Slot::Unknown(k)).contains_key(Slot::Field(f)),
        lookup(field_values(m.insert(Slot::Field(f), Entry::Field(v))), f) == Some(v),
{
}

/// A record made by default construction holds no field and no extension
/// entry.
pub proof fn law_default_is_empty<F, U, V, W>(f: F, k: U)
    ensures
        lookup(field_values(Map::<Slot<F, U>, Entry<V, W>>::empty()), f) is None,
        lookup(unknown_values(Map::<Slot<F, U>, Entry<V, W>>::empty()), k) is None,
        Map::<Slot<F, U>, Entry<V, W>>::empty().len() == 0,
{
}

} // verus!
