//! Mutable access to a value of a `BTreeMap`.

use std::collections::BTreeMap;
use vstd::prelude::*;

verus! {

/// A mutable reference to the value stored under `k`.
///
/// Calls `BTreeMap::get_mut`, which (as std documents) returns the value
/// stored under the key, if any; a write through the reference changes that
/// value and nothing else. Stated for key types whose ordering obeys the
/// laws of `Ord`.
#[verifier::external_body]
pub(crate) fn btree_get_mut<'a, K: Ord, V>(m: &'a mut BTreeMap<K, V>, k: &K) -> (r: Option<&'a mut V>)
    ensures
        vstd::laws_cmp::obeys_cmp::<K>() ==> match r {
            Some(v) => {
                &&& old(m)@.contains_key(*k)
                &&& *v == old(m)@[*k]
                &&& final(m)@ == old(m)@.insert(*k, *final(v))
            },
            None => !old(m)@.contains_key(*k) && final(m)@ == old(m)@,
        },
{
    m.get_mut(k)
}

} // verus!
