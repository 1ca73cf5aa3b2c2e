//! Laws on tables: what is put in under a key comes out under that key, until it is taken out.
use crate::table::Table;
use vstd::prelude::*;

verus! {

/// A new table has nothing under any key.
pub proof fn new_table_is_empty<V>(table: &Table<V>, key: &str, found: Option<&V>, n: usize)
    requires
        call_ensures(Table::<V>::new, (), *table),
        call_ensures(Table::<V>::get, (table, key), found),
        call_ensures(Table::<V>::len, (table,), n),
    ensures
        found is None,
        n == 0,
{
}

/// What is put in under a key is found under that key, in place of what was there; under every
/// other key is found what was found before.
pub proof fn value_is_found_under_its_key<V>(
    before: &Table<V>,
    table: &mut Table<V>,
    after: &Table<V>,
    key: String,
    value: V,
    other: &str,
    found_before: Option<&V>,
    found: Option<&V>,
)
    requires
        *before == *old(table),
        call_ensures(Table::<V>::insert, (table, key, value), ()),
        *after == *final(table),
        call_ensures(Table::<V>::get, (before, other), found_before),
        call_ensures(Table::<V>::get, (after, other), found),
    ensures
        other@ == key@ ==> found == Some(&value),
        other@ != key@ ==> found == found_before,
{
}

/// What is taken out under a key is what was found there; then nothing is found under that key, and
/// under every other what was found before.
pub proof fn value_is_taken_out_once<V>(
    before: &Table<V>,
    table: &mut Table<V>,
    after: &Table<V>,
    key: &str,
    taken: Option<V>,
    other: &str,
    found_before: Option<&V>,
    found: Option<&V>,
)
    requires
        *before == *old(table),
        call_ensures(Table::<V>::remove, (table, key), taken),
        *after == *final(table),
        call_ensures(Table::<V>::get, (before, other), found_before),
        call_ensures(Table::<V>::get, (after, other), found),
    ensures
        other@ == key@ ==> found is None && (taken is Some == found_before is Some),
        other@ == key@ && taken is Some ==> *found_before->Some_0 == taken->Some_0,
        other@ != key@ ==> found == found_before,
{
}

/// A table has a key exactly where something is found under it.
pub proof fn key_is_there_where_a_value_is_found<V>(
    table: &Table<V>,
    key: &str,
    has: bool,
    found: Option<&V>,
)
    requires
        call_ensures(Table::<V>::contains_key, (table, key), has),
        call_ensures(Table::<V>::get, (table, key), found),
    ensures
        has == found is Some,
{
}

} // verus!
