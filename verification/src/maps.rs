use vstd::prelude::*;

use dashmap::DashMap;

use crate::types::lifecycle::{LifecycleEntry, LifecycleEntryView};

verus! {

/// `dashmap::DashMap`, the concurrent hash map that holds the tracker's records.
#[verifier::external_type_specification]
#[verifier::external_body]
#[verifier::reject_recursive_types(K)]
#[verifier::reject_recursive_types(V)]
#[verifier::reject_recursive_types(S)]
pub struct ExDashMap<K, V, S>(DashMap<K, V, S>);

/// What a map of lifecycle entries holds: bundle id → entry.
pub uninterp spec fn lifecycle_entries(m: DashMap<String, LifecycleEntry>) -> Map<
    Seq<char>,
    LifecycleEntryView,
>;

/// What a signature index holds: transaction signature → bundle id.
pub uninterp spec fn signature_index(m: DashMap<String, String>) -> Map<Seq<char>, Seq<char>>;

/// What a block-time cache holds: slot → block time in seconds.
pub uninterp spec fn cached_block_times(m: DashMap<u64, i64>) -> Map<u64, i64>;

/// `keys` is finite and has `n` elements.
pub open spec fn counts_keys<K>(n: nat, keys: Set<K>) -> bool {
    keys.finite() && n == keys.len()
}

/// How many of the keys a sample of at most `n` of them leaves out.
pub open spec fn sample_shortfall<K>(n: usize, keys: Set<K>) -> nat {
    if n < keys.len() {
        (keys.len() - n) as nat
    } else {
        0
    }
}

/// The empty map of lifecycle entries.
pub open spec fn no_entries() -> Map<Seq<char>, LifecycleEntryView> {
    Map::empty()
}

/// The empty signature index.
pub open spec fn no_signatures() -> Map<Seq<char>, Seq<char>> {
    Map::empty()
}

/// The empty block-time cache.
pub open spec fn no_block_times() -> Map<u64, i64> {
    Map::empty()
}

// ── bundle id → lifecycle entry ─────────────────────────────────────────────

/// Calls `DashMap::new`: the map starts empty.
#[verifier::external_body]
pub(crate) fn entries_new() -> (r: DashMap<String, LifecycleEntry>)
    ensures
        lifecycle_entries(r) == no_entries(),
{
    DashMap::new()
}

/// Calls `DashMap::insert`: afterwards `key` maps to `value`, and every other key keeps its
/// entry.
#[verifier::external_body]
pub(crate) fn entries_insert(m: &mut DashMap<String, LifecycleEntry>, key: String, value: LifecycleEntry)
    ensures
        lifecycle_entries(*final(m)) == lifecycle_entries(*old(m)).insert(key@, value@),
{
    m.insert(key, value);
}

/// Calls `DashMap::get` and copies the entry out with `LifecycleEntry::clone`: `Some` exactly
/// when the key is present, holding the entry stored for it.
#[verifier::external_body]
pub(crate) fn entries_get(m: &DashMap<String, LifecycleEntry>, key: &str) -> (r: Option<LifecycleEntry>)
    ensures
        r is Some <==> lifecycle_entries(*m).contains_key(key@),
        r is Some ==> r->0@ == lifecycle_entries(*m)[key@],
{
    m.get(key).map(|e| e.value().clone())
}

/// Calls `DashMap::iter` and copies each key and entry out: every key of the map once, with
/// its entry, in the order in which the shards are walked (which this does not state).
#[verifier::external_body]
pub(crate) fn entries_pairs(m: &DashMap<String, LifecycleEntry>) -> (r: Vec<(String, LifecycleEntry)>)
    ensures
        counts_keys(r@.len(), lifecycle_entries(*m).dom()),
        forall|i: int|
            #![trigger r@[i]]
            0 <= i < r@.len() ==> (lifecycle_entries(*m).contains_key(r@[i].0@)
                && lifecycle_entries(*m)[r@[i].0@] == r@[i].1@),
        r@.map_values(|p: (String, LifecycleEntry)| p.0@).no_duplicates(),
        forall|k: Seq<char>|
            #[trigger] lifecycle_entries(*m).contains_key(k) ==> exists|i: int|
                0 <= i < r@.len() && r@[i].0@ == k,
{
    m.iter().map(|e| (e.key().clone(), e.value().clone())).collect()
}

// ── signature → bundle id ───────────────────────────────────────────────────

/// Calls `DashMap::new`: the index starts empty.
#[verifier::external_body]
pub(crate) fn signatures_new() -> (r: DashMap<String, String>)
    ensures
        signature_index(r) == no_signatures(),
{
    DashMap::new()
}

/// Calls `DashMap::insert`: afterwards `key` maps to `value`, and every other key keeps its
/// value.
#[verifier::external_body]
pub(crate) fn signatures_insert(m: &mut DashMap<String, String>, key: String, value: String)
    ensures
        signature_index(*final(m)) == signature_index(*old(m)).insert(key@, value@),
{
    m.insert(key, value);
}

/// Calls `DashMap::get` and copies the value out: `Some` exactly when the key is present,
/// holding the value stored for it.
#[verifier::external_body]
pub(crate) fn signatures_get(m: &DashMap<String, String>, key: &str) -> (r: Option<String>)
    ensures
        r is Some <==> signature_index(*m).contains_key(key@),
        r is Some ==> r->0@ == signature_index(*m)[key@],
{
    m.get(key).map(|e| e.value().clone())
}

// ── slot → block time ───────────────────────────────────────────────────────

/// Calls `DashMap::new`: the cache starts empty.
#[verifier::external_body]
pub(crate) fn block_times_new() -> (r: DashMap<u64, i64>)
    ensures
        cached_block_times(r) == no_block_times(),
{
    DashMap::new()
}

/// Calls `DashMap::get` and copies the value out: `Some` exactly when the slot is present,
/// holding the time stored for it.
#[verifier::external_body]
pub(crate) fn block_times_get(m: &DashMap<u64, i64>, slot: u64) -> (r: Option<i64>)
    ensures
        r is Some <==> cached_block_times(*m).contains_key(slot),
        r is Some ==> r->0 == cached_block_times(*m)[slot],
{
    m.get(&slot).map(|e| *e.value())
}

/// Calls `DashMap::insert`: afterwards `slot` maps to `time`, and every other slot keeps its
/// time.
#[verifier::external_body]
pub(crate) fn block_times_insert(m: &mut DashMap<u64, i64>, slot: u64, time: i64)
    ensures
        cached_block_times(*final(m)) == cached_block_times(*old(m)).insert(slot, time),
{
    m.insert(slot, time);
}

/// Calls `DashMap::remove`: afterwards `slot` is absent, and every other slot keeps its time.
#[verifier::external_body]
pub(crate) fn block_times_remove(m: &mut DashMap<u64, i64>, slot: u64)
    ensures
        cached_block_times(*final(m)) == cached_block_times(*old(m)).remove(slot),
{
    m.remove(&slot);
}

/// Calls `DashMap::len`: the number of slots in the cache.
#[verifier::external_body]
pub(crate) fn block_times_len(m: &DashMap<u64, i64>) -> (r: usize)
    ensures
        counts_keys(r as nat, cached_block_times(*m).dom()),
{
    m.len()
}

/// Calls `DashMap::iter` and takes the keys of its first `n` items: distinct slots of the
/// cache, as many as `n` or the size of the cache, whichever is smaller. Which slots come
/// first depends on the hashing and is not stated.
#[verifier::external_body]
pub(crate) fn block_times_first_keys(m: &DashMap<u64, i64>, n: usize) -> (r: Vec<u64>)
    ensures
        counts_keys(r@.len() + sample_shortfall(n, cached_block_times(*m).dom()), cached_block_times(*m).dom()),
        forall|i: int| 0 <= i < r@.len() ==> cached_block_times(*m).contains_key(#[trigger] r@[i]),
        r@.no_duplicates(),
{
    m.iter().take(n).map(|e| *e.key()).collect()
}

} // verus!
