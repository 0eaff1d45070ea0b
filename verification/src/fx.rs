//! Hash maps that hash with `rustc_hash`'s hasher.
use vstd::prelude::*;
use rustc_hash::FxHashMap;
use std::hash::Hash;
use vstd::std_specs::hash::obeys_key_model;

verus! {

/// `rustc_hash::FxHasher`, of which nothing is stated: it is only named
/// in the type of the maps that hash with it.
#[verifier::external_type_specification]
#[verifier::external_body]
pub struct ExFxHasher(rustc_hash::FxHasher);

/// `std::hash::BuildHasherDefault`, of which nothing is stated: it is only
/// named in the type of the maps that hash with `rustc_hash::FxHasher`.
#[verifier::external_type_specification]
#[verifier::external_body]
#[verifier::reject_recursive_types(H)]
pub struct ExBuildHasherDefault<H>(std::hash::BuildHasherDefault<H>);

/// `HashMap::default` for a map with `rustc_hash`'s hasher: a map
/// without entries.
#[verifier::external_body]
pub(crate) fn fx_new<K, V>() -> (r: FxHashMap<K, V>)
    ensures
        r@ == (Map::<K, V>::empty()),
{
    FxHashMap::default()
}

/// `HashMap::get` on a map with `rustc_hash`'s hasher: the value under
/// the key, if the map has an entry for it.
#[verifier::external_body]
pub(crate) fn fx_get<K: Copy + Eq + Hash, V: Copy>(map: &FxHashMap<K, V>, key: K) -> (r: Option<V>)
    requires
        obeys_key_model::<K>(),
    ensures
        r is Some == map@.contains_key(key),
        r is Some ==> r->0 == map@[key],
{
    map.get(&key).copied()
}

/// `HashMap::insert` on a map with `rustc_hash`'s hasher: afterwards the
/// map has the value under the key and is otherwise as before.
#[verifier::external_body]
pub(crate) fn fx_insert<K: Eq + Hash, V>(map: &mut FxHashMap<K, V>, key: K, value: V)
    requires
        obeys_key_model::<K>(),
    ensures
        final(map)@ == old(map)@.insert(key, value),
{
    map.insert(key, value);
}

} // verus!
