//! Concurrent price tables, held in `dashmap::DashMap`s keyed by method ids.
//!
//! `DashMap` is opaque to Verus: what a table holds is named by
//! [`pair_table`] and [`id_table`], and each method that the pricing logic
//! calls has a wrapper whose contract states what the dashmap source does to
//! those contents.
use dashmap::DashMap;
use vstd::prelude::*;

verus! {

#[verifier::external_type_specification]
#[verifier::external_body]
#[verifier::reject_recursive_types(K)]
#[verifier::reject_recursive_types(V)]
#[verifier::reject_recursive_types(S)]
pub struct ExDashMap<K, V, S>(DashMap<K, V, S>);

/// What a table keyed by (parent id, child id) holds.
pub uninterp spec fn pair_table(m: DashMap<(u64, u64), u64>) -> Map<(u64, u64), u64>;

/// What a table keyed by one method id holds.
pub uninterp spec fn id_table(m: DashMap<u64, u64>) -> Map<u64, u64>;

/// `DashMap::new`: an empty table.
#[verifier::external_body]
pub(crate) fn pair_table_new() -> (r: DashMap<(u64, u64), u64>)
    ensures
        pair_table(r).dom().is_empty(),
{
    DashMap::new()
}

/// `DashMap::insert`: maps `key` to `value`, replacing any earlier value.
/// The wrapper takes the table by `&mut` so that the change is visible to
/// Verus; the dashmap method itself locks a shard through `&self`.
#[verifier::external_body]
pub(crate) fn pair_table_insert(m: &mut DashMap<(u64, u64), u64>, key: (u64, u64), value: u64)
    ensures
        pair_table(*final(m)) == pair_table(*old(m)).insert(key, value),
{
    m.insert(key, value);
}

/// `es` lists the entries of `ds`: each key of `ds` once, with its value,
/// in some order.
pub open spec fn lists_entries(es: Seq<((u64, u64), u64)>, ds: Map<(u64, u64), u64>) -> bool {
    &&& forall|i: int| 0 <= i < es.len() ==> #[trigger] ds.dom().contains(es[i].0) && ds[es[i].0] == es[i].1
    &&& forall|k: (u64, u64)| #[trigger] ds.dom().contains(k) ==> exists|i: int| 0 <= i < es.len() && es[i].0 == k
    &&& forall|i: int, j: int| 0 <= i < j < es.len() ==> es[i].0 != es[j].0
}

/// `DashMap::iter`, each entry copied out as a (key, value) pair. Every key
/// of the table comes out exactly once; the order is that of the shards'
/// hash tables, which the contract leaves open.
#[verifier::external_body]
pub(crate) fn pair_table_entries(m: &DashMap<(u64, u64), u64>) -> (r: Vec<((u64, u64), u64)>)
    ensures
        lists_entries(r@, pair_table(*m)),
{
    m.iter().map(|e| (*e.key(), *e.value())).collect()
}

/// `es` lists the entries of `m`: each key of `m` once, with its value, in
/// some order.
pub open spec fn lists_id_entries(es: Seq<(u64, u64)>, m: Map<u64, u64>) -> bool {
    &&& forall|i: int| 0 <= i < es.len() ==> #[trigger] m.dom().contains(es[i].0) && m[es[i].0] == es[i].1
    &&& forall|k: u64| #[trigger] m.dom().contains(k) ==> exists|i: int| 0 <= i < es.len() && es[i].0 == k
    &&& forall|i: int, j: int| 0 <= i < j < es.len() ==> es[i].0 != es[j].0
}

/// `DashMap::iter`, each entry copied out as a (key, value) pair. Every key
/// of the table comes out exactly once; the order is that of the shards'
/// hash tables, which the contract leaves open.
#[verifier::external_body]
pub(crate) fn id_table_entries(m: &DashMap<u64, u64>) -> (r: Vec<(u64, u64)>)
    ensures
        lists_id_entries(r@, id_table(*m)),
{
    m.iter().map(|e| (*e.key(), *e.value())).collect()
}

/// `DashMap::new`: an empty table.
#[verifier::external_body]
pub(crate) fn id_table_new() -> (r: DashMap<u64, u64>)
    ensures
        id_table(r).dom().is_empty(),
{
    DashMap::new()
}

/// `DashMap::get`, the value copied out: the value mapped to `key`, if any.
#[verifier::external_body]
pub(crate) fn id_table_get(m: &DashMap<u64, u64>, key: u64) -> (r: Option<u64>)
    ensures
        r == (if id_table(*m).dom().contains(key) {
            Some(id_table(*m)[key])
        } else {
            None::<u64>
        }),
{
    m.get(&key).map(|v| *v)
}

/// `DashMap::insert`: maps `key` to `value`, replacing any earlier value.
/// The wrapper takes the table by `&mut` so that the change is visible to
/// Verus; the dashmap method itself locks a shard through `&self`.
#[verifier::external_body]
pub(crate) fn id_table_insert(m: &mut DashMap<u64, u64>, key: u64, value: u64)
    ensures
        id_table(*final(m)) == id_table(*old(m)).insert(key, value),
{
    m.insert(key, value);
}

} // verus!
