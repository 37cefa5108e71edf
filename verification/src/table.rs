//! Tables from interned names to values.

use std::collections::HashMap;
use std::hash::BuildHasherDefault;

use ahash::AHasher;
use vstd::prelude::*;

use crate::value::Value;

verus! {

/// The hasher of the `ahash` crate, declared so that tables can name it.
#[verifier::external_type_specification]
#[verifier::external_body]
pub struct ExAHasher(AHasher);

/// The standard library's builder of default hashers, declared so that tables
/// can name it.
#[verifier::external_type_specification]
#[verifier::external_body]
#[verifier::reject_recursive_types(H)]
pub struct ExBuildHasherDefault<H>(BuildHasherDefault<H>);

/// A hash table from interned names to values, hashed by `ahash`.
pub type Table = HashMap<usize, Value, BuildHasherDefault<AHasher>>;

/// An empty table.
pub fn new_table() -> (r: Table)
    ensures
        r@ == Map::<usize, Value>::empty(),
{
    HashMap::default()
}

/// `HashMap::insert` with the hasher of `ahash`: the name maps to the value, all
/// other names keep theirs. Hashers of one such table all hash alike, since
/// `AHasher::default` starts them from the same keys.
#[verifier::external_body]
pub(crate) fn table_insert(table: &mut Table, name: usize, value: Value)
    ensures
        final(table)@ == old(table)@.insert(name, value),
{
    table.insert(name, value);
}

/// `HashMap::get` with the hasher of `ahash`: the value of the name, if it has one.
#[verifier::external_body]
pub(crate) fn table_get(table: &Table, name: usize) -> (r: Option<Value>)
    ensures
        r == (if table@.contains_key(name) {
            Some(table@[name])
        } else {
            None
        }),
{
    table.get(&name).copied()
}

/// `HashMap::extend` with the hasher of `ahash`: every entry of the second table
/// is put into the first, over an entry of the same name.
#[verifier::external_body]
pub(crate) fn table_extend(table: &mut Table, other: &Table)
    ensures
        final(table)@ == old(table)@.union_prefer_right(other@),
{
    table.extend(other)
}

/// `HashMap::iter` with the hasher of `ahash`: every entry once, in an order that
/// is left open.
#[verifier::external_body]
pub(crate) fn table_entries(table: &Table) -> (r: Vec<(usize, Value)>)
    ensures
        forall|i: int|
            0 <= i < r@.len() ==> table@.contains_key((#[trigger] r@[i]).0) && table@[r@[i].0]
                == r@[i].1,
        forall|name: usize|
            #[trigger] table@.contains_key(name) ==> exists|i: int|
                0 <= i < r@.len() && (#[trigger] r@[i]).0 == name,
        forall|i: int, j: int|
            0 <= i < j < r@.len() ==> (#[trigger] r@[i]).0 != (#[trigger] r@[j]).0,
{
    table.iter().map(|(name, value)| (*name, *value)).collect()
}

} // verus!
