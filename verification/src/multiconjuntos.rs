//! Facts about counting the items of a sequence, used by the laws of
//! conservation of the stages.

use vstd::prelude::*;
use vstd::multiset::Multiset;

verus! {

/// An empty sequence holds no element, however often one counts.
pub proof fn lema_vacia_sin_elementos<T>(ts: Seq<T>)
    requires
        ts.len() == 0,
    ensures
        ts.to_multiset() == Multiset::<T>::empty(),
{
    vstd::seq_lib::to_multiset_len(ts);
    vstd::multiset::lemma_multiset_empty_len(ts.to_multiset());
}

/// A sequence holds what it holds after its first element, and that element
/// once more.
pub proof fn lema_quitar_primera<T>(ts: Seq<T>)
    requires
        ts.len() > 0,
    ensures
        ts.to_multiset() == ts.drop_first().to_multiset().insert(ts[0]),
{
    broadcast use vstd::multiset::group_multiset_axioms;

    vstd::seq_lib::to_multiset_remove(ts, 0);
    vstd::seq_lib::to_multiset_contains(ts, ts[0]);
    assert(ts.contains(ts[0]));
    assert(ts.remove(0) == ts.drop_first());
    assert(ts.to_multiset() =~= ts.drop_first().to_multiset().insert(ts[0]));
}

/// A sequence with one more element at its end holds what it held, and that
/// element once more.
pub proof fn lema_agregar_ultima<T>(ts: Seq<T>, t: T)
    ensures
        ts.push(t).to_multiset() == ts.to_multiset().insert(t),
{
    vstd::seq_lib::to_multiset_build(ts, t);
}

} // verus!
