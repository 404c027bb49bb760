use vstd::prelude::*;

use crate::engine::tracker::{
    blockhash_expired, block_time_remembered, commitment_rank, entries_after_expiry,
    entries_after_failure, entries_after_update, eviction_count, index_signatures,
    observed_timestamp, awaiting_finality, has_status, status_count, TrackerView,
    entries_after_advances, lists_entries, loaded_state, commitment_of_level, advance_plan,
    submission_entry, failure_category,
};
use crate::text::is_substring;
use crate::time::{millis_between, shifted_time, time_from_secs_or, UtcTime};
use crate::types::lifecycle::LifecycleEntryView;

verus! {

/// A commitment update never lowers a bundle's status in the commitment ordering
/// (pending < processed < confirmed < finalized); the only other outcome is "failed".
pub proof fn law_status_never_downgrades(
    m: Map<Seq<char>, LifecycleEntryView>,
    bundle_id: Seq<char>,
    c: Seq<char>,
    slot: u64,
    block_secs: i64,
    now: UtcTime,
    k: Seq<char>,
)
    requires
        m.contains_key(k),
    ensures
        ({
            let after = entries_after_update(m, bundle_id, c, slot, block_secs, now)[k];
            after.status == "failed"@ || commitment_rank(after.status) >= commitment_rank(m[k].status)
        }),
{
}

/// A failed bundle stays failed whatever commitment is observed for it, and a classified
/// failure never revives it either.
pub proof fn law_failed_is_final(
    m: Map<Seq<char>, LifecycleEntryView>,
    bundle_id: Seq<char>,
    c: Seq<char>,
    slot: u64,
    block_secs: i64,
    now: UtcTime,
    failure_type: Seq<char>,
    k: Seq<char>,
)
    requires
        m.contains_key(k),
        m[k].status == "failed"@,
    ensures
        entries_after_update(m, bundle_id, c, slot, block_secs, now)[k].status == "failed"@,
        entries_after_failure(m, bundle_id, failure_type)[k] == m[k],
{
}

/// Each commitment level is recorded once: a later observation of the same level keeps the
/// first instant, slot and latency.
pub proof fn law_commitment_recorded_once(
    m: Map<Seq<char>, LifecycleEntryView>,
    bundle_id: Seq<char>,
    c: Seq<char>,
    slot: u64,
    block_secs: i64,
    now: UtcTime,
    k: Seq<char>,
)
    requires
        m.contains_key(k),
    ensures
        ({
            let before = m[k];
            let after = entries_after_update(m, bundle_id, c, slot, block_secs, now)[k];
            &&& before.processed_at is Some ==> after.processed_at == before.processed_at
                && after.processed_slot == before.processed_slot
                && after.latency_processed_ms == before.latency_processed_ms
            &&& before.confirmed_at is Some ==> after.confirmed_at == before.confirmed_at
                && after.confirmed_slot == before.confirmed_slot
                && after.latency_confirmed_ms == before.latency_confirmed_ms
            &&& before.finalized_at is Some ==> after.finalized_at == before.finalized_at
                && after.finalized_slot == before.finalized_slot
                && after.latency_finalized_ms == before.latency_finalized_ms
        }),
{
}

/// The instant stamped on an observation is never before the submission (counted in
/// nanoseconds), for a submission and a clock reading whose nanosecond part is below one
/// second, as the tracker records them.
pub proof fn law_observation_not_before_submission(
    e: LifecycleEntryView,
    slot: u64,
    block_secs: i64,
    now: UtcTime,
)
    requires
        e.submitted_at.nanos < 1_000_000_000,
        now.nanos < 1_000_000_000,
    ensures
        observed_timestamp(e, slot, block_secs, now) matches Some(ts) ==> ts.total_nanos()
            >= e.submitted_at.total_nanos() && millis_between(ts, e.submitted_at) >= 0,
{
    let seen = time_from_secs_or(block_secs, now);
    assert(seen.nanos < 1_000_000_000);
    if let Some(ts) = observed_timestamp(e, slot, block_secs, now) {
        if seen.before(e.submitted_at) {
            let gap: int = if slot >= e.slot_submitted {
                slot - e.slot_submitted
            } else {
                0
            };
            let total = e.submitted_at.total_nanos() + gap * 400 * 1_000_000;
            assert(gap * 400 * 1_000_000 >= 0) by (nonlinear_arith)
                requires
                    gap >= 0,
            ;
            assert(ts == shifted_time(e.submitted_at, gap * 400)->0);
            assert(ts.total_nanos() == total) by {
                vstd::arithmetic::div_mod::lemma_fundamental_div_mod(total, 1_000_000_000);
            }
        } else {
            assert(ts == seen);
            assert(ts.total_nanos() >= e.submitted_at.total_nanos()) by (nonlinear_arith)
                requires
                    !(ts.secs < e.submitted_at.secs || (ts.secs == e.submitted_at.secs && ts.nanos
                        < e.submitted_at.nanos)),
                    ts.nanos < 1_000_000_000,
                    e.submitted_at.nanos < 1_000_000_000,
            ;
        }
        let d = ts.total_nanos() - e.submitted_at.total_nanos();
        assert(d / 1_000_000 >= 0) by (nonlinear_arith)
            requires
                d >= 0,
        ;
    }
}

/// After an expiry check at block height `h`, no bundle's blockhash counts as expired at `h`
/// any more: every expired bundle has been marked failed.
pub proof fn law_expiry_check_clears_expired(m: Map<Seq<char>, LifecycleEntryView>, h: u64, k: Seq<char>)
    requires
        m.contains_key(k),
    ensures
        !blockhash_expired(entries_after_expiry(m, h)[k], h),
        blockhash_expired(m[k], h) ==> entries_after_expiry(m, h)[k].status == "failed"@
            && entries_after_expiry(m, h)[k].failure_type == Some("expired_blockhash"@),
        !blockhash_expired(m[k], h) ==> entries_after_expiry(m, h)[k] == m[k],
{
    reveal_strlit("failed");
    reveal_strlit("pending");
    reveal_strlit("processed");
    assert("failed"@[0] != "pending"@[0]);
    assert("failed"@[0] != "processed"@[0]);
}

/// Every signature indexed by a submission resolves to that submission's bundle.
pub proof fn law_indexed_signature_resolves(
    index: Map<Seq<char>, Seq<char>>,
    list: Seq<Seq<char>>,
    bundle_id: Seq<char>,
    t: int,
)
    requires
        0 <= t < list.len(),
    ensures
        index_signatures(index, list, bundle_id).contains_key(list[t]),
        index_signatures(index, list, bundle_id)[list[t]] == bundle_id,
    decreases list.len(),
{
    if t < list.len() - 1 {
        law_indexed_signature_resolves(index, list.drop_last(), bundle_id, t);
        assert(list.drop_last()[t] == list[t]);
    }
}

/// The block-time cache never grows past 1001 slots: one that holds at most 1001 still
/// does after any insertion.
pub proof fn law_block_time_cache_bounded(before: Map<u64, i64>, after: Map<u64, i64>, slot: u64, time: i64)
    requires
        before.dom().finite(),
        before.dom().len() <= 1001,
        block_time_remembered(before, after, slot, time),
    ensures
        after.dom().finite(),
        after.dom().len() <= 1001,
{
    let evicted = choose|evicted: Set<u64>|
        evicted.finite() && evicted.subset_of(before.dom()) && evicted.len() == eviction_count(
            before.dom().len(),
        ) && after == before.remove_keys(evicted).insert(slot, time);
    let rest = before.dom().difference(evicted);
    assert(before.remove_keys(evicted).dom() =~= rest);
    vstd::set_lib::lemma_len_difference(before.dom(), evicted);
    assert(rest.disjoint(evicted));
    assert(rest + evicted =~= before.dom());
    vstd::set_lib::lemma_set_disjoint_lens(rest, evicted);
    assert(after.dom() =~= rest.insert(slot));
}

/// A tracker has pending bundles exactly when its statistics count some bundle as pending,
/// processed or confirmed.
pub proof fn law_pending_iff_counted(t: TrackerView)
    requires
        t.wf(),
    ensures
        (exists|k: Seq<char>| #[trigger] t.entries.contains_key(k) && awaiting_finality(t.entries[k]))
            <==> status_count(t.entries, "pending"@) + status_count(t.entries, "processed"@)
            + status_count(t.entries, "confirmed"@) > 0,
{
    let m = t.entries;
    let d = m.dom();
    let fp = d.filter(has_status(m, "pending"@));
    let fr = d.filter(has_status(m, "processed"@));
    let fc = d.filter(has_status(m, "confirmed"@));
    d.lemma_len_filter(has_status(m, "pending"@));
    d.lemma_len_filter(has_status(m, "processed"@));
    d.lemma_len_filter(has_status(m, "confirmed"@));
    if exists|k: Seq<char>| #[trigger] m.contains_key(k) && awaiting_finality(m[k]) {
        let k = choose|k: Seq<char>| #[trigger] m.contains_key(k) && awaiting_finality(m[k]);
        if m[k].status == "pending"@ {
            assert(fp.contains(k));
        } else if m[k].status == "processed"@ {
            assert(fr.contains(k));
        } else {
            assert(fc.contains(k));
        }
    } else {
        assert(fp =~= Set::empty());
        assert(fr =~= Set::empty());
        assert(fc =~= Set::empty());
    }
}


proof fn lemma_advances_keep_other_keys(
    m: Map<Seq<char>, LifecycleEntryView>,
    rows: Seq<(String, String, u64)>,
    times: Seq<i64>,
    now: UtcTime,
    start: nat,
    n: nat,
    k: Seq<char>,
)
    requires
        start <= n <= rows.len(),
        forall|j: int| start <= j < n ==> (#[trigger] rows[j]).0@ != k,
    ensures
        entries_after_advances(m, rows, times, now, n).contains_key(k)
            == entries_after_advances(m, rows, times, now, start).contains_key(k),
        entries_after_advances(m, rows, times, now, n)[k] == entries_after_advances(m, rows, times, now, start)[k],
    decreases n - start,
{
    if n > start {
        let j = (n - 1) as nat;
        lemma_advances_keep_other_keys(m, rows, times, now, start, j, k);
        assert(rows[j as int].0@ != k);
    }
}

/// Applying an advance plan whose rows name distinct bundles leaves each planned bundle as
/// a single update with its own row would leave it, whatever the other rows do.
pub proof fn law_advance_applies_each_row_alone(
    m: Map<Seq<char>, LifecycleEntryView>,
    rows: Seq<(String, String, u64)>,
    times: Seq<i64>,
    now: UtcTime,
    i: int,
)
    requires
        0 <= i < rows.len(),
        times.len() == rows.len(),
        rows.map_values(|r: (String, String, u64)| r.0@).no_duplicates(),
        m.contains_key(rows[i].0@),
    ensures
        entries_after_advances(m, rows, times, now, rows.len())[rows[i].0@] == entries_after_update(
            m,
            rows[i].0@,
            rows[i].1@,
            rows[i].2,
            times[i],
            now,
        )[rows[i].0@],
{
    let k = rows[i].0@;
    let keys = rows.map_values(|r: (String, String, u64)| r.0@);
    assert forall|j: int| 0 <= j < rows.len() && j != i implies (#[trigger] rows[j]).0@ != k by {
        assert(keys[j] != keys[i]);
    }
    lemma_advances_keep_other_keys(m, rows, times, now, 0, i as nat, k);
    lemma_advances_keep_other_keys(m, rows, times, now, (i + 1) as nat, rows.len(), k);
}


/// The status after a commitment update of a tracked bundle: "failed" stays failed, a
/// "failed" observation always marks it failed, and any other observation either leaves
/// the status as it was or raises it to the observed commitment when that ranks higher.
pub proof fn law_update_outcome(
    m: Map<Seq<char>, LifecycleEntryView>,
    k: Seq<char>,
    c: Seq<char>,
    slot: u64,
    block_secs: i64,
    now: UtcTime,
)
    requires
        m.contains_key(k),
    ensures
        ({
            let s0 = m[k].status;
            let s1 = entries_after_update(m, k, c, slot, block_secs, now)[k].status;
            &&& s0 == "failed"@ ==> s1 == "failed"@
            &&& c == "failed"@ ==> s1 == "failed"@
            &&& c != "failed"@ ==> commitment_rank(s1) >= commitment_rank(s0) && (s1 == s0 || (s1 == c
                && commitment_rank(c) > commitment_rank(s0)))
        }),
{
    reveal_strlit("failed");
    reveal_strlit("pending");
    reveal_strlit("processed");
    reveal_strlit("confirmed");
    reveal_strlit("finalized");
    assert("failed"@[0] != "pending"@[0]);
    assert("failed"@[0] != "processed"@[0]);
    assert("failed"@[0] != "confirmed"@[0]);
    assert("failed"@[1] != "finalized"@[1]);
}


/// `sig` is a signature of no entry of `loaded` but the one at `a`.
pub open spec fn only_listed_at(loaded: Seq<LifecycleEntryView>, a: int, sig: Seq<char>) -> bool {
    forall|b: int| 0 <= b < loaded.len() && b != a ==> !(#[trigger] loaded[b]).signatures.contains(sig)
}

proof fn lemma_index_keeps_unlisted(index: Map<Seq<char>, Seq<char>>, list: Seq<Seq<char>>, bundle_id: Seq<char>, sig: Seq<char>)
    requires
        !list.contains(sig),
    ensures
        index_signatures(index, list, bundle_id).contains_key(sig) == index.contains_key(sig),
        index_signatures(index, list, bundle_id)[sig] == index[sig],
    decreases list.len(),
{
    if list.len() > 0 {
        assert(list.last() == list[list.len() - 1]);
        assert forall|i: int| 0 <= i < list.drop_last().len() implies list.drop_last()[i] != sig by {
            assert(list.drop_last()[i] == list[i]);
        }
        lemma_index_keeps_unlisted(index, list.drop_last(), bundle_id, sig);
    }
}

proof fn lemma_loaded_state_holds_each(loaded: Seq<LifecycleEntryView>)
    requires
        loaded.map_values(|e: LifecycleEntryView| e.bundle_id).no_duplicates(),
    ensures
        forall|k: Seq<char>|
            #[trigger] loaded_state(loaded).0.contains_key(k) <==> exists|a: int| 0 <= a < loaded.len() && loaded[a].bundle_id == k,
        forall|a: int|
            0 <= a < loaded.len() ==> loaded_state(loaded).0[(#[trigger] loaded[a]).bundle_id] == loaded[a],
        forall|a: int, sig: Seq<char>|
            #![trigger loaded[a].signatures.contains(sig)]
            0 <= a < loaded.len() && loaded[a].signatures.contains(sig) && only_listed_at(loaded, a, sig)
                ==> loaded_state(loaded).1.contains_key(sig) && loaded_state(loaded).1[sig] == loaded[a].bundle_id,
    decreases loaded.len(),
{
    if loaded.len() > 0 {
        let n = loaded.len() - 1;
        let prev = loaded.drop_last();
        let ids = loaded.map_values(|e: LifecycleEntryView| e.bundle_id);
        assert(prev.map_values(|e: LifecycleEntryView| e.bundle_id) =~= ids.drop_last());
        lemma_loaded_state_holds_each(prev);
        assert(loaded.last() == loaded[n]);
        assert forall|k: Seq<char>|
            #[trigger] loaded_state(loaded).0.contains_key(k) <==> exists|a: int| 0 <= a < loaded.len() && loaded[a].bundle_id == k by {
            assert(loaded_state(loaded).0 == loaded_state(prev).0.insert(loaded[n].bundle_id, loaded[n]));
            if loaded_state(loaded).0.contains_key(k) && k != loaded[n].bundle_id {
                assert(loaded_state(prev).0.contains_key(k));
                let a = choose|a: int| 0 <= a < prev.len() && prev[a].bundle_id == k;
                assert(loaded[a] == prev[a]);
            }
            if exists|a: int| 0 <= a < loaded.len() && loaded[a].bundle_id == k {
                let a = choose|a: int| 0 <= a < loaded.len() && loaded[a].bundle_id == k;
                if a < n {
                    assert(prev[a] == loaded[a]);
                    assert(loaded_state(prev).0.contains_key(k));
                }
            }
        }
        assert forall|a: int| 0 <= a < loaded.len() implies loaded_state(loaded).0[(#[trigger] loaded[a]).bundle_id] == loaded[a] by {
            if a < n {
                assert(prev[a] == loaded[a]);
                assert(ids[a] != ids[n as int]);
            }
        }
        assert forall|a: int, sig: Seq<char>|
            #![trigger loaded[a].signatures.contains(sig)]
            0 <= a < loaded.len() && loaded[a].signatures.contains(sig) && only_listed_at(loaded, a, sig)
                implies loaded_state(loaded).1.contains_key(sig) && loaded_state(loaded).1[sig] == loaded[a].bundle_id by {
            if a == n {
                let t = choose|t: int| 0 <= t < loaded[a].signatures.len() && loaded[a].signatures[t] == sig;
                law_indexed_signature_resolves(loaded_state(prev).1, loaded[a].signatures, loaded[a].bundle_id, t);
            } else {
                assert(prev[a] == loaded[a]);
                assert forall|b: int| 0 <= b < prev.len() && b != a implies !(#[trigger] prev[b]).signatures.contains(sig) by {
                    assert(prev[b] == loaded[b]);
                }
                assert(only_listed_at(prev, a, sig));
                assert(!loaded[n as int].signatures.contains(sig));
                lemma_index_keeps_unlisted(loaded_state(prev).1, loaded[n as int].signatures, loaded[n as int].bundle_id, sig);
            }
        }
    }
}

/// Saving and loading again rebuilds the tracker. [`LifecycleTracker::entries`] lists the
/// entries (its `lists_entries` clause, over their views), and [`LifecycleTracker::new`]
/// builds its entries and signature index as `loaded_state` of the views it is given; so a
/// tracker started from what `entries` returned holds exactly the same entries, and each
/// signature that belongs to one entry only resolves to that entry's bundle.
///
/// [`LifecycleTracker::entries`]: crate::engine::tracker::LifecycleTracker::entries
/// [`LifecycleTracker::new`]: crate::engine::tracker::LifecycleTracker::new
pub proof fn law_save_then_load(t: TrackerView, saved: Seq<LifecycleEntryView>)
    requires
        t.wf(),
        lists_entries(saved, t.entries),
    ensures
        loaded_state(saved).0 == t.entries,
        forall|k: Seq<char>, sig: Seq<char>|
            #[trigger] t.entries.contains_key(k) && #[trigger] t.entries[k].signatures.contains(sig) && (forall|j: Seq<char>|
                #[trigger] t.entries.contains_key(j) && j != k ==> !t.entries[j].signatures.contains(sig))
                ==> loaded_state(saved).1.contains_key(sig) && loaded_state(saved).1[sig] == k,
{
    lemma_loaded_state_holds_each(saved);
    let m = t.entries;
    let l = loaded_state(saved).0;
    assert forall|k: Seq<char>| l.contains_key(k) <==> m.contains_key(k) by {
        if l.contains_key(k) {
            let a = choose|a: int| 0 <= a < saved.len() && saved[a].bundle_id == k;
            assert(m.contains_key(saved[a].bundle_id));
        }
        if m.contains_key(k) {
            let a = choose|a: int| 0 <= a < saved.len() && saved[a] == m[k];
            assert(saved[a].bundle_id == k);
        }
    }
    assert forall|k: Seq<char>| l.contains_key(k) implies l[k] == m[k] by {
        let a = choose|a: int| 0 <= a < saved.len() && saved[a].bundle_id == k;
        assert(l[saved[a].bundle_id] == saved[a]);
        assert(m[saved[a].bundle_id] == saved[a]);
    }
    assert(l =~= m);
    assert forall|k: Seq<char>, sig: Seq<char>|
        #[trigger] m.contains_key(k) && #[trigger] m[k].signatures.contains(sig) && (forall|j: Seq<char>|
            #[trigger] m.contains_key(j) && j != k ==> !m[j].signatures.contains(sig))
            implies loaded_state(saved).1.contains_key(sig) && loaded_state(saved).1[sig] == k by {
        let a = choose|a: int| 0 <= a < saved.len() && saved[a] == m[k];
        assert(saved[a].bundle_id == k);
        assert forall|b: int| 0 <= b < saved.len() && b != a implies !(#[trigger] saved[b]).signatures.contains(sig) by {
            let jb = saved[b].bundle_id;
            assert(m.contains_key(jb) && m[jb] == saved[b]);
            let ids = saved.map_values(|e: LifecycleEntryView| e.bundle_id);
            assert(ids[a] != ids[b]);
        }
        assert(only_listed_at(saved, a, sig));
        assert(saved[a].signatures.contains(sig));
    }
}


/// The slot-status levels of the stream are numbered as the commitment order: level 0 is the
/// commitment one above pending (processed), 1 the next (confirmed), 2 the last (finalized);
/// no other level names a commitment. So an advance plan for a level only ever raises bundles
/// to the commitment of that rank, from a lower one, at or before the slot.
pub proof fn law_levels_follow_commitment_order(
    level: i32,
    rows: Seq<(String, String, u64)>,
    m: Map<Seq<char>, LifecycleEntryView>,
    slot: u64,
)
    ensures
        0 <= level <= 2 ==> commitment_of_level(level) is Some && commitment_rank(commitment_of_level(level)->0)
            == level + 1,
        !(0 <= level <= 2) ==> commitment_of_level(level) is None,
        0 <= level <= 2 && advance_plan(rows, m, slot, commitment_of_level(level)->0) ==> forall|i: int|
            0 <= i < rows.len() ==> commitment_rank((#[trigger] rows[i]).1@) == level + 1 && commitment_rank(
                m[rows[i].0@].status,
            ) <= level && (m[rows[i].0@].processed_slot matches Some(ls) && ls <= slot),
{
    reveal_strlit("pending");
    reveal_strlit("processed");
    reveal_strlit("confirmed");
    reveal_strlit("finalized");
    assert("processed"@[1] != "pending"@[1]);
    assert("confirmed"@[0] != "pending"@[0]);
    assert("confirmed"@[0] != "processed"@[0]);
    assert("finalized"@[0] != "pending"@[0]);
    assert("finalized"@[0] != "processed"@[0]);
    assert("finalized"@[0] != "confirmed"@[0]);
    if 0 <= level <= 2 && advance_plan(rows, m, slot, commitment_of_level(level)->0) {
        assert forall|i: int| 0 <= i < rows.len() implies commitment_rank((#[trigger] rows[i]).1@) == level + 1
            && commitment_rank(m[rows[i].0@].status) <= level && (m[rows[i].0@].processed_slot matches Some(ls)
            && ls <= slot) by {
            assert(m.contains_key(rows[i].0@));
        }
    }
}

/// Only a pending or processed bundle can have an expired blockhash: an expiry check leaves
/// every bundle in any other state (confirmed, finalized, failed, ...) exactly as it was.
pub proof fn law_expiry_only_for_unlanded(m: Map<Seq<char>, LifecycleEntryView>, h: u64, e: LifecycleEntryView, k: Seq<char>)
    ensures
        blockhash_expired(e, h) ==> e.status == "pending"@ || e.status == "processed"@,
        blockhash_expired(e, h) ==> (e.last_valid_block_height matches Some(l) && l < h),
        ((e.status == "pending"@ || e.status == "processed"@) && (e.last_valid_block_height matches Some(l) && l < h))
            ==> blockhash_expired(e, h),
        m.contains_key(k) && m[k].status != "pending"@ && m[k].status != "processed"@ ==> entries_after_expiry(
            m,
            h,
        )[k] == m[k],
{
}

/// A recorded submission carries every argument of the submission: its intent, bundle id,
/// slot, block height, tip, signatures, last valid block height, retry count and history,
/// stamped with its instant, still pending, with nothing observed yet.
pub proof fn law_submission_keeps_its_arguments(
    now: UtcTime,
    intent_id: Seq<char>,
    bundle_id: Seq<char>,
    slot: u64,
    tip: u64,
    signatures: Seq<Seq<char>>,
    last_valid_block_height: u64,
    retry_count: u32,
    history_summary: Seq<char>,
    block_height: Option<u64>,
)
    ensures
        ({
            let e = submission_entry(
                now,
                intent_id,
                bundle_id,
                slot,
                tip,
                signatures,
                last_valid_block_height,
                retry_count,
                history_summary,
                block_height,
            );
            &&& e.intent_id == intent_id
            &&& e.bundle_id == bundle_id
            &&& e.slot_submitted == slot
            &&& e.block_height_submitted == block_height
            &&& e.submitted_at == now
            &&& e.tip_lamports == tip
            &&& e.signatures == signatures
            &&& e.last_valid_block_height == Some(last_valid_block_height)
            &&& e.retry_count == retry_count
            &&& e.history_summary == history_summary
            &&& e.status == "pending"@
            &&& e.failure_type is None
            &&& e.processed_at is None && e.confirmed_at is None && e.finalized_at is None
            &&& e.ai_decisions.len() == 0
        }),
{
}

/// Each phrase of the failure categories leads to its category, unless an earlier rule
/// already matched: the rules are tried in order (expired blockhash, insufficient funds,
/// compute exceeded, already processed, bundle failure, leader missed, RPC failure, network
/// timeout, insufficient priority fee, simulation failure, account error), and text with
/// none of the phrases is an unknown failure.
pub proof fn law_failure_phrases(lower: Seq<char>)
    ensures
        ({
            let c = failure_category(lower);
            let expired = c == "expired_blockhash"@;
            let funds = expired || c == "insufficient_funds"@;
            let compute = funds || c == "compute_exceeded"@;
            let processed = compute || c == "already_processed"@;
            let bundle = processed || c == "bundle_failure"@;
            let leader = bundle || c == "leader_missed"@;
            let rpc = leader || c == "rpc_failure"@;
            let timeout = rpc || c == "network_timeout"@;
            let fee = timeout || c == "insufficient_priority_fee"@;
            let simulation = fee || c == "simulation_failure"@;
            let account = simulation || c == "account_error"@;
            &&& (is_substring("blockhashnotfound"@, lower) || is_substring("blockhash not found"@, lower)
                || is_substring("blockhash expired"@, lower)) ==> expired
            &&& (is_substring("insufficientfunds"@, lower) || is_substring("insufficient funds"@, lower)
                || is_substring("insufficient lamports"@, lower)) ==> funds
            &&& (is_substring("computationalbudgetexceeded"@, lower) || is_substring(
                "computational budget exceeded"@,
                lower,
            ) || is_substring("exceeded compute"@, lower)) ==> compute
            &&& (is_substring("alreadyprocessed"@, lower) || is_substring("already processed"@, lower))
                ==> processed
            &&& (is_substring("bundle rejected"@, lower) || is_substring("bundledrop"@, lower)
                || is_substring("dropped"@, lower)) ==> bundle
            &&& (is_substring("leader missed"@, lower) || is_substring("slot missed"@, lower)) ==> leader
            &&& (is_substring("rpc error"@, lower) || is_substring("server error"@, lower) || is_substring(
                "502"@,
                lower,
            ) || is_substring("503"@, lower) || is_substring("429"@, lower)) ==> rpc
            &&& (is_substring("timeout"@, lower) || is_substring("deadline exceeded"@, lower)) ==> timeout
            &&& (is_substring("fee"@, lower) && (is_substring("too low"@, lower) || is_substring(
                "insufficient"@,
                lower,
            ))) ==> fee
            &&& (is_substring("simulation failed"@, lower) || is_substring("instructionerror"@, lower)
                || is_substring("program error"@, lower)) ==> simulation
            &&& (is_substring("accountinuse"@, lower) || is_substring("account in use"@, lower)
                || is_substring("accountnotfound"@, lower) || is_substring("invalid account"@, lower))
                ==> account
            &&& !account ==> c == "unknown_failure"@
        }),
{
    reveal_strlit("expired_blockhash");
    reveal_strlit("insufficient_funds");
    reveal_strlit("compute_exceeded");
    reveal_strlit("already_processed");
    reveal_strlit("bundle_failure");
    reveal_strlit("leader_missed");
    reveal_strlit("rpc_failure");
    reveal_strlit("network_timeout");
    reveal_strlit("insufficient_priority_fee");
    reveal_strlit("simulation_failure");
    reveal_strlit("account_error");
    reveal_strlit("unknown_failure");
    assert("unknown_failure"@[0] != "expired_blockhash"@[0]);
    assert("unknown_failure"@[0] != "insufficient_funds"@[0]);
    assert("unknown_failure"@[0] != "compute_exceeded"@[0]);
    assert("unknown_failure"@[0] != "already_processed"@[0]);
    assert("unknown_failure"@[0] != "bundle_failure"@[0]);
    assert("unknown_failure"@[0] != "leader_missed"@[0]);
    assert("unknown_failure"@[0] != "rpc_failure"@[0]);
    assert("unknown_failure"@[0] != "network_timeout"@[0]);
    assert("unknown_failure"@[0] != "insufficient_priority_fee"@[0]);
    assert("unknown_failure"@[0] != "simulation_failure"@[0]);
    assert("unknown_failure"@[0] != "account_error"@[0]);
}

} // verus!
