//! The insertion-ordered set of identifiers that backs every cache.
//!
//! The set itself comes from `indexmap`. Nothing in this file is proved: each
//! function states what the corresponding method of `IndexSet` is documented
//! to do, over the sequence of keys the set holds.

use indexmap::IndexSet;
use vstd::prelude::*;

verus! {

/// `indexmap::IndexSet`, made known as a type; what a set holds is only
/// spoken of through [`key_order`].
#[verifier::external_type_specification]
#[verifier::external_body]
#[verifier::reject_recursive_types(T)]
#[verifier::reject_recursive_types(S)]
pub struct ExIndexSet<T, S>(IndexSet<T, S>);

/// The keys that a set holds, in the order in which they were first inserted.
pub uninterp spec fn key_order(set: IndexSet<u128>) -> Seq<u128>;

/// `IndexSet::new`: a set without keys.
#[verifier::external_body]
pub(crate) fn set_new() -> (set: IndexSet<u128>)
    ensures
        key_order(set) == Seq::<u128>::empty(),
{
    IndexSet::new()
}

/// `IndexSet::len`: how many keys the set holds.
#[verifier::external_body]
pub(crate) fn set_len(set: &IndexSet<u128>) -> (n: usize)
    ensures
        n == key_order(*set).len(),
{
    set.len()
}

/// `IndexSet::get_index_of`: the position of `key` in insertion order, if the
/// set holds it.
#[verifier::external_body]
pub(crate) fn set_index_of(set: &IndexSet<u128>, key: u128) -> (found: Option<usize>)
    ensures
        match found {
            Some(i) => i < key_order(*set).len() && key_order(*set)[i as int] == key,
            None => !key_order(*set).contains(key),
        },
{
    set.get_index_of(&key)
}

/// `IndexSet::get_index`: the key at position `at` in insertion order, if
/// the set holds that many keys.
#[verifier::external_body]
pub(crate) fn set_key_at(set: &IndexSet<u128>, at: usize) -> (found: Option<u128>)
    ensures
        found == if at < key_order(*set).len() {
            Some(key_order(*set)[at as int])
        } else {
            None
        },
{
    match set.get_index(at) {
        Some(key) => Some(*key),
        None => None,
    }
}

/// `IndexSet::insert_full`: a key that the set already holds keeps its place
/// and the set is unchanged; a new key goes last. Returns the key's position
/// and whether it was new.
#[verifier::external_body]
pub(crate) fn set_insert_full(set: &mut IndexSet<u128>, key: u128) -> (placed: (usize, bool))
    ensures
        key_order(*old(set)).contains(key) ==> {
            &&& key_order(*final(set)) == key_order(*old(set))
            &&& !placed.1
            &&& placed.0 < key_order(*old(set)).len()
            &&& key_order(*old(set))[placed.0 as int] == key
        },
        !key_order(*old(set)).contains(key) ==> {
            &&& key_order(*final(set)) == key_order(*old(set)).push(key)
            &&& placed.1
            &&& placed.0 == key_order(*old(set)).len()
        },
{
    set.insert_full(key)
}

/// `IndexSet::clear`: the set holds no key afterwards.
#[verifier::external_body]
pub(crate) fn set_clear(set: &mut IndexSet<u128>)
    ensures
        key_order(*final(set)) == Seq::<u128>::empty(),
{
    set.clear()
}

} // verus!
