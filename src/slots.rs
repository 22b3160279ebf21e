//! The lookup from category identifier to its place in the category list, kept
//! in indexmap's `IndexMap`.

use indexmap::IndexMap;
use vstd::prelude::*;

verus! {

#[verifier::external_type_specification]
#[verifier::external_body]
#[verifier::reject_recursive_types(K)]
#[verifier::reject_recursive_types(V)]
#[verifier::reject_recursive_types(S)]
pub struct ExIndexMap<K, V, S>(IndexMap<K, V, S>);

/// The entries of the map, in their order.
pub uninterp spec fn slot_entries(m: IndexMap<u128, usize>) -> Seq<(u128, usize)>;

/// Relies on indexmap's `IndexMap::new`: an empty map.
#[verifier::external_body]
pub(crate) fn new_slot_map() -> (r: IndexMap<u128, usize>)
    ensures
        slot_entries(r) == Seq::<(u128, usize)>::empty(),
{
    IndexMap::new()
}

/// Relies on indexmap's `IndexMap::insert`: a new key is put last in the order and
/// `None` comes back; for a key already there, the value is replaced in place and
/// the old value comes back.
#[verifier::external_body]
pub(crate) fn slot_map_insert(m: &mut IndexMap<u128, usize>, key: u128, value: usize) -> (r: Option<
    usize,
>)
    ensures
        (forall|i: int| 0 <= i < slot_entries(*old(m)).len() ==> #[trigger] slot_entries(
            *old(m),
        )[i].0 != key) ==> r.is_none() && slot_entries(*final(m)) == slot_entries(*old(m)).push(
            (key, value),
        ),
        forall|i: int|
            0 <= i < slot_entries(*old(m)).len() && #[trigger] slot_entries(*old(m))[i].0 == key
                ==> r == Some(slot_entries(*old(m))[i].1) && slot_entries(*final(m)) == slot_entries(
                *old(m),
            ).update(i, (key, value)),
{
    m.insert(key, value)
}

/// Relies on indexmap's `IndexMap::get`: the value of the entry with the key, if
/// there is one.
#[verifier::external_body]
pub(crate) fn slot_of(m: &IndexMap<u128, usize>, key: u128) -> (r: Option<usize>)
    ensures
        r.is_none() <==> forall|i: int|
            0 <= i < slot_entries(*m).len() ==> #[trigger] slot_entries(*m)[i].0 != key,
        r.is_some() ==> exists|i: int|
            0 <= i < slot_entries(*m).len() && #[trigger] slot_entries(*m)[i] == (key, r->Some_0),
{
    m.get(&key).copied()
}

} // verus!
