//! The ordered field map behind item attributes, kept in an `IndexMap`.
use indexmap::IndexMap;
use vstd::prelude::*;

use super::field::{same_value, FieldValue};

verus! {

/// `indexmap::IndexMap`, declared so that item attributes can hold one.
#[verifier::external_type_specification]
#[verifier::external_body]
#[verifier::reject_recursive_types(K)]
#[verifier::reject_recursive_types(V)]
#[verifier::reject_recursive_types(S)]
pub struct ExIndexMap<K, V, S>(IndexMap<K, V, S>);

/// The entries of an attribute map, in insertion order.
pub uninterp spec fn attribute_entries(m: IndexMap<String, FieldValue>) -> Seq<(String, FieldValue)>;

/// Position of the entry with key `k`, searching from the front.
pub open spec fn key_position(e: Seq<(String, FieldValue)>, k: Seq<char>) -> Option<int>
    decreases e.len(),
{
    if e.len() == 0 {
        None
    } else {
        match key_position(e.drop_last(), k) {
            Some(p) => Some(p),
            None => if e.last().0@ == k {
                Some(e.len() - 1)
            } else {
                None
            },
        }
    }
}

/// Replacing the value of an entry moves no key.
pub proof fn lemma_key_position_update(e: Seq<(String, FieldValue)>, p: int, v: FieldValue, k: Seq<char>)
    requires
        0 <= p < e.len(),
    ensures
        key_position(e.update(p, (e[p].0, v)), k) == key_position(e, k),
    decreases e.len(),
{
    let u = e.update(p, (e[p].0, v));
    if p < e.len() - 1 {
        lemma_key_position_update(e.drop_last(), p, v, k);
        assert(u.drop_last() =~= e.drop_last().update(p, (e[p].0, v)));
    } else {
        assert(u.drop_last() =~= e.drop_last());
    }
}

/// Appending an entry leaves the positions of the keys already present.
pub proof fn lemma_key_position_push(e: Seq<(String, FieldValue)>, entry: (String, FieldValue), k: Seq<char>)
    ensures
        key_position(e.push(entry), k) == match key_position(e, k) {
            Some(p) => Some(p),
            None => if entry.0@ == k {
                Some(e.len() as int)
            } else {
                None
            },
        },
{
    assert(e.push(entry).drop_last() =~= e);
}

/// The position found for a key holds that key.
pub proof fn lemma_key_position_valid(e: Seq<(String, FieldValue)>, k: Seq<char>)
    ensures
        key_position(e, k) matches Some(p) ==> 0 <= p < e.len() && e[p].0@ == k,
    decreases e.len(),
{
    if e.len() > 0 {
        lemma_key_position_valid(e.drop_last(), k);
    }
}

/// Creates an empty map with `IndexMap::new`.
#[verifier::external_body]
pub(crate) fn map_new() -> (m: IndexMap<String, FieldValue>)
    ensures
        attribute_entries(m) == Seq::<(String, FieldValue)>::empty(),
{
    IndexMap::new()
}

/// `IndexMap::insert`: an existing key keeps its place and gets the new
/// value, returning the old one; a new key is appended last.
#[verifier::external_body]
pub(crate) fn map_insert(m: &mut IndexMap<String, FieldValue>, key: String, value: FieldValue) -> (r: Option<FieldValue>)
    ensures
        match key_position(attribute_entries(*old(m)), key@) {
            Some(p) => {
                &&& attribute_entries(*final(m)) == attribute_entries(*old(m)).update(
                    p,
                    (attribute_entries(*old(m))[p].0, value),
                )
                &&& r == Some(attribute_entries(*old(m))[p].1)
            },
            None => {
                &&& attribute_entries(*final(m)) == attribute_entries(*old(m)).push((key, value))
                &&& r is None
            },
        },
{
    m.insert(key, value)
}

/// `IndexMap::get`: the value stored under `key`, if any.
#[verifier::external_body]
pub(crate) fn map_get<'a>(m: &'a IndexMap<String, FieldValue>, key: &str) -> (r: Option<&'a FieldValue>)
    ensures
        match key_position(attribute_entries(*m), key@) {
            Some(p) => r == Some(&attribute_entries(*m)[p].1),
            None => r is None,
        },
{
    m.get(key)
}

/// `IndexMap::shift_remove`: removes the entry under `key`, keeping the
/// order of the others, and returns its value.
#[verifier::external_body]
pub(crate) fn map_shift_remove(m: &mut IndexMap<String, FieldValue>, key: &str) -> (r: Option<FieldValue>)
    ensures
        match key_position(attribute_entries(*old(m)), key@) {
            Some(p) => {
                &&& attribute_entries(*final(m)) == attribute_entries(*old(m)).remove(p)
                &&& r == Some(attribute_entries(*old(m))[p].1)
            },
            None => {
                &&& attribute_entries(*final(m)) == attribute_entries(*old(m))
                &&& r is None
            },
        },
{
    m.shift_remove(key)
}

/// `IndexMap::len`: the number of entries.
#[verifier::external_body]
pub(crate) fn map_len(m: &IndexMap<String, FieldValue>) -> (r: usize)
    ensures
        r == attribute_entries(*m).len(),
{
    m.len()
}

/// True if two entry lists have the same keys in the same order, each with
/// the same value.
pub open spec fn same_entries(a: Seq<(String, FieldValue)>, b: Seq<(String, FieldValue)>) -> bool {
    &&& a.len() == b.len()
    &&& forall|i: int| 0 <= i < a.len() ==> #[trigger] a[i].0 == b[i].0 && same_value(a[i].1, b[i].1)
}

/// `IndexMap::clone`: a map with the same entries in the same order; each
/// key is copied by `String::clone` and each value by `FieldValue::clone`,
/// whose own contract gives the same value.
#[verifier::external_body]
pub(crate) fn map_clone(m: &IndexMap<String, FieldValue>) -> (r: IndexMap<String, FieldValue>)
    ensures
        same_entries(attribute_entries(r), attribute_entries(*m)),
{
    m.clone()
}

/// `IndexMap::get_index`: the entry at position `i`, if any.
#[verifier::external_body]
pub(crate) fn map_get_index<'a>(m: &'a IndexMap<String, FieldValue>, i: usize) -> (r: Option<(&'a String, &'a FieldValue)>)
    ensures
        i < attribute_entries(*m).len() ==> r == Some(
            (&attribute_entries(*m)[i as int].0, &attribute_entries(*m)[i as int].1),
        ),
        i >= attribute_entries(*m).len() ==> r is None,
{
    m.get_index(i)
}

} // verus!
