use vstd::prelude::*;
use vstd::string::*;

use dashmap::DashMap;

use crate::logging::{is_failure_event, is_transaction_event, OperationalEvent};
use crate::maps::{
    block_times_first_keys, block_times_get, block_times_insert, block_times_len,
    block_times_new, block_times_remove, cached_block_times, entries_get, entries_insert,
    entries_new, entries_pairs, lifecycle_entries, signature_index, signatures_get,
    signatures_insert, signatures_new,
};
use crate::text::{contains, is_substring, str_eq, to_lowercase, unicode_lowercase};
use crate::time::{
    add_millis, current_time, from_secs_or, in_utc_range, millis_between, millis_since, shifted_time,
    time_from_secs_or, UtcTime,
};
use crate::types::lifecycle::{
    clone_strings, default_entry_view, strs_view, LifecycleEntry, LifecycleEntryView,
};

verus! {

/// Maximum number of retries before a bundle chain is abandoned.
pub const MAX_RETRIES: u32 = 3;

/// What a signature-status reply from the RPC node calls for.
pub enum SignatureStatusAction {
    /// The transaction failed: record a classified failure with this error text.
    MarkFailed(String),
    /// The transaction reached this commitment level.
    Update(String),
    /// The reply carries neither an error nor a commitment level.
    Nothing,
}

/// The action a signature-status reply calls for: an error (as the node describes it) marks
/// the bundle failed; otherwise a confirmation status (its name, lower-cased) updates the
/// bundle's commitment; a reply with neither changes nothing.
pub fn signature_status_action(error: Option<String>, confirmation: Option<String>) -> (r: SignatureStatusAction)
    ensures
        match error {
            Some(e) => r matches SignatureStatusAction::MarkFailed(x) && x@ == e@,
            None => match confirmation {
                Some(c) => r matches SignatureStatusAction::Update(x) && x@ == unicode_lowercase(c@),
                None => r is Nothing,
            },
        },
{
    match error {
        Some(e) => SignatureStatusAction::MarkFailed(e),
        None => match confirmation {
            Some(c) => SignatureStatusAction::Update(to_lowercase(c.as_str())),
            None => SignatureStatusAction::Nothing,
        },
    }
}

// ── Model of a lifecycle entry ──────────────────────────────────────────────

/// The ordering of commitment levels that keeps a status from being downgraded:
/// pending < processed < confirmed < finalized; any other status ranks with pending.
pub open spec fn commitment_rank(s: Seq<char>) -> int {
    if s == "pending"@ {
        0
    } else if s == "processed"@ {
        1
    } else if s == "confirmed"@ {
        2
    } else if s == "finalized"@ {
        3
    } else {
        0
    }
}

/// The status after observing commitment `new`: `new` when it ranks higher, `old` otherwise.
pub open spec fn raised_status(old: Seq<char>, new: Seq<char>) -> Seq<char> {
    if commitment_rank(new) > commitment_rank(old) {
        new
    } else {
        old
    }
}

/// The milliseconds from an optional earlier instant to `ts`.
pub open spec fn delta_from(ts: UtcTime, earlier: Option<UtcTime>) -> Option<i64> {
    match earlier {
        Some(p) => Some(millis_between(ts, p)),
        None => None,
    }
}

/// The entry after observing commitment `c` at `slot`, stamped `ts`. Each commitment level is
/// recorded once: its instant, its slot and its latency from submission; "failed" marks the
/// entry failed. Anything else leaves the entry as it is.
pub open spec fn commitment_step(e: LifecycleEntryView, c: Seq<char>, slot: u64, ts: UtcTime) -> LifecycleEntryView {
    if c == "processed"@ && e.processed_at is None {
        LifecycleEntryView {
            processed_at: Some(ts),
            processed_slot: Some(slot),
            latency_processed_ms: Some(millis_between(ts, e.submitted_at)),
            status: raised_status(e.status, "processed"@),
            ..e
        }
    } else if c == "confirmed"@ && e.confirmed_at is None {
        LifecycleEntryView {
            confirmed_at: Some(ts),
            confirmed_slot: Some(slot),
            latency_confirmed_ms: Some(millis_between(ts, e.submitted_at)),
            latency_processed_to_confirmed_ms: match e.processed_at {
                Some(p) => Some(millis_between(ts, p)),
                None => e.latency_processed_to_confirmed_ms,
            },
            status: raised_status(e.status, "confirmed"@),
            ..e
        }
    } else if c == "finalized"@ && e.finalized_at is None {
        LifecycleEntryView {
            finalized_at: Some(ts),
            finalized_slot: Some(slot),
            latency_finalized_ms: Some(millis_between(ts, e.submitted_at)),
            status: raised_status(e.status, "finalized"@),
            ..e
        }
    } else if c == "failed"@ && e.status != "failed"@ {
        LifecycleEntryView { status: "failed"@, ..e }
    } else {
        e
    }
}

/// `ev` is the event that [`commitment_step`] reports: a lifecycle transition for each
/// recorded commitment or failure, nothing otherwise. A failure is stamped `now`.
pub open spec fn step_event(
    ev: Option<OperationalEvent>,
    e: LifecycleEntryView,
    bundle_id: Seq<char>,
    c: Seq<char>,
    slot: u64,
    ts: UtcTime,
    now: UtcTime,
) -> bool {
    if c == "processed"@ && e.processed_at is None {
        ev matches Some(x) && is_transaction_event(
            x,
            e.intent_id,
            slot,
            e.block_height_submitted,
            ts,
            "processed"@,
            Some(millis_between(ts, e.submitted_at)),
            e.status,
            "Observed processed commitment in Yellowstone stream"@,
            "Bundle ID: "@ + bundle_id,
        )
    } else if c == "confirmed"@ && e.confirmed_at is None {
        ev matches Some(x) && is_transaction_event(
            x,
            e.intent_id,
            slot,
            e.block_height_submitted,
            ts,
            "confirmed"@,
            delta_from(ts, e.processed_at),
            e.status,
            "Observed confirmed commitment in Yellowstone stream"@,
            "Bundle ID: "@ + bundle_id,
        )
    } else if c == "finalized"@ && e.finalized_at is None {
        ev matches Some(x) && is_transaction_event(
            x,
            e.intent_id,
            slot,
            e.block_height_submitted,
            ts,
            "finalized"@,
            delta_from(ts, e.confirmed_at),
            e.status,
            "Observed finalized commitment in Yellowstone stream"@,
            "Bundle ID: "@ + bundle_id,
        )
    } else if c == "failed"@ && e.status != "failed"@ {
        ev matches Some(x) && is_transaction_event(
            x,
            e.intent_id,
            slot,
            e.block_height_submitted,
            now,
            "failed"@,
            None,
            e.status,
            "Transaction error observed via stream"@,
            "Transaction error observed via stream"@,
        )
    } else {
        ev is None
    }
}

/// A commitment update reaches the entry: a failed entry only takes another "failed".
pub open spec fn update_applies(e: LifecycleEntryView, c: Seq<char>) -> bool {
    !(e.status == "failed"@ && c != "failed"@)
}

/// The instant stamped on an update observed at `slot` with block time `block_secs`: the
/// block time (or `now` when that second is not representable), moved forward to
/// `slot_submitted`'s instant plus 400 ms per slot when it would fall before the submission.
/// `None` where that shift leaves the representable range or the slot gap is so large that
/// the millisecond count overflows an `i64`.
pub open spec fn observed_timestamp(e: LifecycleEntryView, slot: u64, block_secs: i64, now: UtcTime) -> Option<UtcTime> {
    let seen = time_from_secs_or(block_secs, now);
    if seen.before(e.submitted_at) {
        let gap: int = if slot >= e.slot_submitted {
            slot - e.slot_submitted
        } else {
            0
        };
        if gap > i64::MAX / 400 {
            None
        } else {
            shifted_time(e.submitted_at, gap * 400)
        }
    } else {
        Some(seen)
    }
}

/// Whether an update of `e` with commitment `c` changes anything at all: it applies, and
/// either it marks the entry failed (which stamps no instant on the entry) or its timestamp
/// is representable.
pub open spec fn update_takes_effect(e: LifecycleEntryView, c: Seq<char>, slot: u64, block_secs: i64, now: UtcTime) -> bool {
    update_applies(e, c) && (c == "failed"@ || observed_timestamp(e, slot, block_secs, now) is Some)
}

/// The instant an update is stamped with: the observed timestamp, or `now` where there is
/// none (only a failure is recorded then, and it carries `now`).
pub open spec fn update_stamp(e: LifecycleEntryView, slot: u64, block_secs: i64, now: UtcTime) -> UtcTime {
    match observed_timestamp(e, slot, block_secs, now) {
        Some(t) => t,
        None => now,
    }
}

/// The failure categories, tested in order on the lower-cased error text.
pub open spec fn failure_category(lower: Seq<char>) -> Seq<char> {
    if is_substring("blockhashnotfound"@, lower) || is_substring("blockhash not found"@, lower)
        || is_substring("blockhash expired"@, lower) {
        "expired_blockhash"@
    } else if is_substring("insufficientfunds"@, lower) || is_substring(
        "insufficient funds"@,
        lower,
    ) || is_substring("insufficient lamports"@, lower) {
        "insufficient_funds"@
    } else if is_substring("computationalbudgetexceeded"@, lower) || is_substring(
        "computational budget exceeded"@,
        lower,
    ) || is_substring("exceeded compute"@, lower) {
        "compute_exceeded"@
    } else if is_substring("alreadyprocessed"@, lower) || is_substring(
        "already processed"@,
        lower,
    ) {
        "already_processed"@
    } else if is_substring("bundle rejected"@, lower) || is_substring("bundledrop"@, lower)
        || is_substring("dropped"@, lower) {
        "bundle_failure"@
    } else if is_substring("leader missed"@, lower) || is_substring("slot missed"@, lower) {
        "leader_missed"@
    } else if is_substring("rpc error"@, lower) || is_substring("server error"@, lower)
        || is_substring("502"@, lower) || is_substring("503"@, lower) || is_substring(
        "429"@,
        lower,
    ) {
        "rpc_failure"@
    } else if is_substring("timeout"@, lower) || is_substring("deadline exceeded"@, lower) {
        "network_timeout"@
    } else if is_substring("fee"@, lower) && (is_substring("too low"@, lower) || is_substring(
        "insufficient"@,
        lower,
    )) {
        "insufficient_priority_fee"@
    } else if is_substring("simulation failed"@, lower) || is_substring(
        "instructionerror"@,
        lower,
    ) || is_substring("program error"@, lower) {
        "simulation_failure"@
    } else if is_substring("accountinuse"@, lower) || is_substring("account in use"@, lower)
        || is_substring("accountnotfound"@, lower) || is_substring("invalid account"@, lower) {
        "account_error"@
    } else {
        "unknown_failure"@
    }
}

/// The failure category of an error message: [`failure_category`] of its lower-case form.
pub open spec fn classify_spec(error: Seq<char>) -> Seq<char> {
    failure_category(unicode_lowercase(error))
}

/// `list`'s signatures indexed to `bundle_id` on top of `index`, in list order.
pub open spec fn index_signatures(
    index: Map<Seq<char>, Seq<char>>,
    list: Seq<Seq<char>>,
    bundle_id: Seq<char>,
) -> Map<Seq<char>, Seq<char>>
    decreases list.len(),
{
    if list.len() == 0 {
        index
    } else {
        index_signatures(index, list.drop_last(), bundle_id).insert(list.last(), bundle_id)
    }
}

/// The entries and signature index built from `loaded`, entry after entry: each entry is
/// stored under its bundle id (a later one replacing an earlier one with the same id) and
/// each of its signatures is indexed to that bundle id.
pub open spec fn loaded_state(loaded: Seq<LifecycleEntryView>) -> (
    Map<Seq<char>, LifecycleEntryView>,
    Map<Seq<char>, Seq<char>>,
)
    decreases loaded.len(),
{
    if loaded.len() == 0 {
        (Map::empty(), Map::empty())
    } else {
        let prev = loaded_state(loaded.drop_last());
        let e = loaded.last();
        (prev.0.insert(e.bundle_id, e), index_signatures(prev.1, e.signatures, e.bundle_id))
    }
}

/// The entry that a submission records.
pub open spec fn submission_entry(
    now: UtcTime,
    intent_id: Seq<char>,
    bundle_id: Seq<char>,
    slot: u64,
    tip: u64,
    signatures: Seq<Seq<char>>,
    last_valid_block_height: u64,
    retry_count: u32,
    history_summary: Seq<char>,
    block_height: Option<u64>,
) -> LifecycleEntryView {
    LifecycleEntryView {
        intent_id,
        bundle_id,
        slot_submitted: slot,
        block_height_submitted: block_height,
        tip_lamports: tip,
        last_valid_block_height: Some(last_valid_block_height),
        signatures,
        retry_count,
        history_summary,
        ..default_entry_view(now)
    }
}

/// The entries after observing commitment `c` for bundle `k` at `slot` with block time
/// `block_secs`: the bundle's entry takes the [`commitment_step`] when the update takes
/// effect; otherwise nothing changes.
pub open spec fn entries_after_update(
    m: Map<Seq<char>, LifecycleEntryView>,
    k: Seq<char>,
    c: Seq<char>,
    slot: u64,
    block_secs: i64,
    now: UtcTime,
) -> Map<Seq<char>, LifecycleEntryView> {
    if m.contains_key(k) && update_takes_effect(m[k], c, slot, block_secs, now) {
        m.insert(k, commitment_step(m[k], c, slot, update_stamp(m[k], slot, block_secs, now)))
    } else {
        m
    }
}

/// `ev` is what observing commitment `c` for bundle `k` reports.
pub open spec fn update_event(
    ev: Option<OperationalEvent>,
    m: Map<Seq<char>, LifecycleEntryView>,
    k: Seq<char>,
    c: Seq<char>,
    slot: u64,
    block_secs: i64,
    now: UtcTime,
) -> bool {
    if m.contains_key(k) && update_takes_effect(m[k], c, slot, block_secs, now) {
        step_event(ev, m[k], k, c, slot, update_stamp(m[k], slot, block_secs, now), now)
    } else {
        ev is None
    }
}

/// The entry marked failed with the given category.
pub open spec fn failed_entry(e: LifecycleEntryView, failure_type: Seq<char>) -> LifecycleEntryView {
    LifecycleEntryView { status: "failed"@, failure_type: Some(failure_type), ..e }
}

/// The entries after a classified failure of bundle `k`: an entry that is not yet failed is
/// marked failed with the category; otherwise nothing changes.
pub open spec fn entries_after_failure(
    m: Map<Seq<char>, LifecycleEntryView>,
    k: Seq<char>,
    failure_type: Seq<char>,
) -> Map<Seq<char>, LifecycleEntryView> {
    if m.contains_key(k) && m[k].status != "failed"@ {
        m.insert(k, failed_entry(m[k], failure_type))
    } else {
        m
    }
}

/// A bundle whose blockhash has expired at block height `h`: still pending or processed, with
/// a last valid block height below `h`.
pub open spec fn blockhash_expired(e: LifecycleEntryView, h: u64) -> bool {
    &&& (e.status == "pending"@ || e.status == "processed"@)
    &&& e.last_valid_block_height matches Some(l) && h > l
}

/// The entries after an expiry check at block height `h`: every expired entry is marked
/// failed as "expired_blockhash"; the others are unchanged.
pub open spec fn entries_after_expiry(m: Map<Seq<char>, LifecycleEntryView>, h: u64) -> Map<
    Seq<char>,
    LifecycleEntryView,
> {
    m.map_values(
        |e: LifecycleEntryView|
            if blockhash_expired(e, h) {
                failed_entry(e, "expired_blockhash"@)
            } else {
                e
            },
    )
}

/// One row of the expiry report for entry `e`: intent id, bundle id, submission slot, tip,
/// age in milliseconds at `now`, retry count and history summary.
pub open spec fn expiry_row(
    row: (String, String, u64, u64, i64, u32, String),
    e: LifecycleEntryView,
    now: UtcTime,
) -> bool {
    &&& row.0@ == e.intent_id
    &&& row.1@ == e.bundle_id
    &&& row.2 == e.slot_submitted
    &&& row.3 == e.tip_lamports
    &&& row.4 == millis_between(now, e.submitted_at)
    &&& row.5 == e.retry_count
    &&& row.6@ == e.history_summary
}

/// The expiry report: one row for each expired entry and nothing else.
pub open spec fn expiry_report(
    rows: Seq<(String, String, u64, u64, i64, u32, String)>,
    m: Map<Seq<char>, LifecycleEntryView>,
    h: u64,
    now: UtcTime,
) -> bool {
    &&& rows.map_values(|r: (String, String, u64, u64, i64, u32, String)| r.1@).no_duplicates()
    &&& forall|i: int|
        0 <= i < rows.len() ==> {
            &&& m.contains_key(#[trigger] rows[i].1@)
            &&& blockhash_expired(m[rows[i].1@], h)
            &&& expiry_row(rows[i], m[rows[i].1@], now)
        }
    &&& forall|k: Seq<char>|
        #[trigger] m.contains_key(k) && blockhash_expired(m[k], h) ==> exists|i: int|
            0 <= i < rows.len() && rows[i].1@ == k
}

/// A bundle that has not reached a final state: pending, processed or confirmed.
pub open spec fn awaiting_finality(e: LifecycleEntryView) -> bool {
    e.status == "pending"@ || e.status == "processed"@ || e.status == "confirmed"@
}

/// A bundle whose signatures are still polled: pending or processed.
pub open spec fn awaiting_poll(e: LifecycleEntryView) -> bool {
    e.status == "pending"@ || e.status == "processed"@
}

/// The commitment level that a slot status reports: 0 processed, 1 confirmed, 2 finalized.
pub open spec fn commitment_of_level(level: i32) -> Option<Seq<char>> {
    if level == 0 {
        Some("processed"@)
    } else if level == 1 {
        Some("confirmed"@)
    } else if level == 2 {
        Some("finalized"@)
    } else {
        None
    }
}

/// An entry that a slot reaching commitment `c` advances: it landed at or before `slot` and
/// its status ranks below `c`.
pub open spec fn advances(e: LifecycleEntryView, slot: u64, c: Seq<char>) -> bool {
    &&& e.processed_slot matches Some(ls) && ls <= slot
    &&& commitment_rank(c) > commitment_rank(e.status)
}

/// The advance plan: one (bundle id, commitment, landed slot) row per entry that the slot
/// advances, and nothing else.
pub open spec fn advance_plan(
    rows: Seq<(String, String, u64)>,
    m: Map<Seq<char>, LifecycleEntryView>,
    slot: u64,
    c: Seq<char>,
) -> bool {
    &&& rows.map_values(|r: (String, String, u64)| r.0@).no_duplicates()
    &&& forall|i: int|
        0 <= i < rows.len() ==> {
            &&& m.contains_key(#[trigger] rows[i].0@)
            &&& advances(m[rows[i].0@], slot, c)
            &&& rows[i].1@ == c
            &&& Some(rows[i].2) == m[rows[i].0@].processed_slot
        }
    &&& forall|k: Seq<char>|
        #[trigger] m.contains_key(k) && advances(m[k], slot, c) ==> exists|i: int|
            0 <= i < rows.len() && rows[i].0@ == k
}

/// How many cached block times a new insertion evicts first: 200 once the cache holds more
/// than 1000, none before.
pub open spec fn eviction_count(cache_len: nat) -> nat {
    if cache_len > 1000 {
        200
    } else {
        0
    }
}

/// `after` is `before` with some `eviction_count` of its slots removed and then `slot`
/// mapped to `time`. Which slots go is not fixed: it depends on the map's hashing.
pub open spec fn block_time_remembered(before: Map<u64, i64>, after: Map<u64, i64>, slot: u64, time: i64) -> bool {
    exists|evicted: Set<u64>|
        evicted.finite() && evicted.subset_of(before.dom()) && evicted.len() == eviction_count(
            before.dom().len(),
        ) && after == before.remove_keys(evicted).insert(slot, time)
}

/// The keys of `m` whose entry has status `st`.
pub open spec fn has_status(m: Map<Seq<char>, LifecycleEntryView>, st: Seq<char>) -> spec_fn(Seq<char>) -> bool {
    |k: Seq<char>| m[k].status == st
}

/// The number of entries of `m` with status `st`.
pub open spec fn status_count(m: Map<Seq<char>, LifecycleEntryView>, st: Seq<char>) -> nat {
    m.dom().filter(has_status(m, st)).len()
}

/// Filtering a finite set with one more element counts that element when it passes.
proof fn lemma_filter_insert_len(s: Set<Seq<char>>, a: Seq<char>, f: spec_fn(Seq<char>) -> bool)
    requires
        s.finite(),
        !s.contains(a),
    ensures
        s.insert(a).filter(f).finite(),
        s.insert(a).filter(f).len() == s.filter(f).len() + if f(a) {
            1int
        } else {
            0int
        },
{
    s.lemma_len_filter(f);
    s.insert(a).lemma_len_filter(f);
    if f(a) {
        assert(s.insert(a).filter(f) =~= s.filter(f).insert(a));
    } else {
        assert(s.insert(a).filter(f) =~= s.filter(f));
    }
}

/// `sig` appears in `rows` paired with bundle id `k`.
pub open spec fn row_listed(rows: Seq<(String, String)>, sig: Seq<char>, k: Seq<char>) -> bool {
    exists|a: int| 0 <= a < rows.len() && rows[a].0@ == sig && rows[a].1@ == k
}

/// Every signature of `sigs` appears in `rows` paired with bundle id `k`.
pub open spec fn signatures_listed(rows: Seq<(String, String)>, sigs: Seq<Seq<char>>, k: Seq<char>) -> bool {
    forall|t: int| 0 <= t < sigs.len() ==> #[trigger] row_listed(rows, sigs[t], k)
}

/// Listing survives appending rows.
proof fn lemma_listed_extend(rows: Seq<(String, String)>, more: Seq<(String, String)>, sigs: Seq<Seq<char>>, k: Seq<char>)
    requires
        signatures_listed(rows, sigs, k),
        rows.len() <= more.len(),
        forall|a: int| 0 <= a < rows.len() ==> more[a] == rows[a],
    ensures
        signatures_listed(more, sigs, k),
{
    assert forall|t: int| 0 <= t < sigs.len() implies #[trigger] row_listed(more, sigs[t], k) by {
        assert(row_listed(rows, sigs[t], k));
        let a = choose|a: int| 0 <= a < rows.len() && rows[a].0@ == sigs[t] && rows[a].1@ == k;
        assert(more[a] == rows[a]);
    }
}

/// A row at `last` lists one more signature.
proof fn lemma_listed_push(rows: Seq<(String, String)>, sigs: Seq<Seq<char>>, k: Seq<char>, last: int)
    requires
        signatures_listed(rows, sigs, k),
        0 <= last < rows.len(),
        rows[last].1@ == k,
    ensures
        signatures_listed(rows, sigs.push(rows[last].0@), k),
{
    let s2 = sigs.push(rows[last].0@);
    assert forall|t: int| 0 <= t < s2.len() implies #[trigger] row_listed(rows, s2[t], k) by {
        if t < sigs.len() {
            assert(s2[t] == sigs[t]);
            assert(row_listed(rows, sigs[t], k));
        } else {
            assert(rows[last].0@ == s2[t]);
        }
    }
}

// ── The tracker ─────────────────────────────────────────────────────────────

/// Tracks the full lifecycle of submitted bundles across all Solana commitment levels.
pub struct LifecycleTracker {
    entries: DashMap<String, LifecycleEntry>,
    sig_to_bundle: DashMap<String, String>,
    log_file: String,
    /// Cache of recent block times to avoid per-update RPC calls.
    block_time_cache: DashMap<u64, i64>,
}

/// The mathematical content of a [`LifecycleTracker`].
pub struct TrackerView {
    /// bundle id → lifecycle entry
    pub entries: Map<Seq<char>, LifecycleEntryView>,
    /// transaction signature → bundle id
    pub signatures: Map<Seq<char>, Seq<char>>,
    /// slot → block time (seconds)
    pub block_times: Map<u64, i64>,
    pub log_file: Seq<char>,
}

impl View for LifecycleTracker {
    type V = TrackerView;

    closed spec fn view(&self) -> TrackerView {
        TrackerView {
            entries: lifecycle_entries(self.entries),
            signatures: signature_index(self.sig_to_bundle),
            block_times: cached_block_times(self.block_time_cache),
            log_file: self.log_file@,
        }
    }
}

impl TrackerView {
    /// Every entry is stored under its own bundle id.
    pub open spec fn wf(self) -> bool {
        &&& self.entries.dom().finite()
        &&& forall|k: Seq<char>| #[trigger] self.entries.contains_key(k) ==> self.entries[k].bundle_id == k
    }

    /// The tracker with the entry for `k` replaced by `e`.
    pub open spec fn with_entry(self, k: Seq<char>, e: LifecycleEntryView) -> TrackerView {
        TrackerView { entries: self.entries.insert(k, e), ..self }
    }
}

/// Indexes each signature of `list` to `bundle_id`, in list order.
fn index_signatures_into(sigs: &mut DashMap<String, String>, list: &Vec<String>, bundle_id: &String)
    ensures
        signature_index(*final(sigs)) == index_signatures(
            signature_index(*old(sigs)),
            strs_view(list@),
            bundle_id@,
        ),
{
    let ghost base = signature_index(*sigs);
    let ghost names = strs_view(list@);
    let mut j: usize = 0;
    while j < list.len()
        invariant
            base == signature_index(*old(sigs)),
            names == strs_view(list@),
            j <= list@.len(),
            signature_index(*sigs) == index_signatures(base, names.take(j as int), bundle_id@),
        decreases list@.len() - j,
    {
        signatures_insert(sigs, list[j].clone(), bundle_id.clone());
        proof {
            assert(names.take(j + 1).drop_last() =~= names.take(j as int));
            assert(names.take(j + 1).last() == list@[j as int]@);
        }
        j += 1;
    }
    proof {
        assert(names.take(list@.len() as int) =~= names);
    }
}

/// The rank of a status in the commitment ordering.
fn commitment_ord(s: &str) -> (r: u8)
    ensures
        r as int == commitment_rank(s@),
{
    if str_eq(s, "pending") {
        0
    } else if str_eq(s, "processed") {
        1
    } else if str_eq(s, "confirmed") {
        2
    } else if str_eq(s, "finalized") {
        3
    } else {
        0
    }
}

/// "Bundle ID: " followed by the bundle id.
fn bundle_detail(bundle_id: &str) -> (r: String)
    ensures
        r@ == "Bundle ID: "@ + bundle_id@,
{
    let mut d = String::from_str("Bundle ID: ");
    d.append(bundle_id);
    d
}

/// Applies one observed commitment to an entry and builds the event that reports it.
fn apply_commitment(
    entry: &mut LifecycleEntry,
    bundle_id: &str,
    commitment: &str,
    slot: u64,
    ts: UtcTime,
    now: UtcTime,
) -> (ev: Option<OperationalEvent>)
    ensures
        final(entry)@ == commitment_step(old(entry)@, commitment@, slot, ts),
        step_event(ev, old(entry)@, bundle_id@, commitment@, slot, ts, now),
{
    if str_eq(commitment, "processed") && entry.processed_at.is_none() {
        let lat = millis_since(ts, entry.submitted_at);
        entry.processed_at = Some(ts);
        entry.processed_slot = Some(slot);
        entry.latency_processed_ms = Some(lat);
        let previous = entry.status.clone();
        if commitment_ord("processed") > commitment_ord(entry.status.as_str()) {
            entry.status = String::from_str("processed");
        }
        Some(
            OperationalEvent::TransactionEvent {
                transaction_id: entry.intent_id.clone(),
                slot,
                block_height: entry.block_height_submitted,
                timestamp: ts,
                lifecycle_state: String::from_str("processed"),
                latency_delta_ms: Some(lat),
                previous_state: previous,
                next_state: String::from_str("processed"),
                state_transition_valid: true,
                transition_reason: String::from_str(
                    "Observed processed commitment in Yellowstone stream",
                ),
                details: Some(bundle_detail(bundle_id)),
            },
        )
    } else if str_eq(commitment, "confirmed") && entry.confirmed_at.is_none() {
        let lat_from_submitted = millis_since(ts, entry.submitted_at);
        entry.confirmed_at = Some(ts);
        entry.confirmed_slot = Some(slot);
        entry.latency_confirmed_ms = Some(lat_from_submitted);
        let delta = match entry.processed_at {
            Some(p) => Some(millis_since(ts, p)),
            None => None,
        };
        if let Some(d) = delta {
            entry.latency_processed_to_confirmed_ms = Some(d);
        }
        let previous = entry.status.clone();
        if commitment_ord("confirmed") > commitment_ord(entry.status.as_str()) {
            entry.status = String::from_str("confirmed");
        }
        Some(
            OperationalEvent::TransactionEvent {
                transaction_id: entry.intent_id.clone(),
                slot,
                block_height: entry.block_height_submitted,
                timestamp: ts,
                lifecycle_state: String::from_str("confirmed"),
                latency_delta_ms: delta,
                previous_state: previous,
                next_state: String::from_str("confirmed"),
                state_transition_valid: true,
                transition_reason: String::from_str(
                    "Observed confirmed commitment in Yellowstone stream",
                ),
                details: Some(bundle_detail(bundle_id)),
            },
        )
    } else if str_eq(commitment, "finalized") && entry.finalized_at.is_none() {
        let lat = millis_since(ts, entry.submitted_at);
        entry.finalized_at = Some(ts);
        entry.finalized_slot = Some(slot);
        entry.latency_finalized_ms = Some(lat);
        let delta = match entry.confirmed_at {
            Some(c) => Some(millis_since(ts, c)),
            None => None,
        };
        let previous = entry.status.clone();
        if commitment_ord("finalized") > commitment_ord(entry.status.as_str()) {
            entry.status = String::from_str("finalized");
        }
        Some(
            OperationalEvent::TransactionEvent {
                transaction_id: entry.intent_id.clone(),
                slot,
                block_height: entry.block_height_submitted,
                timestamp: ts,
                lifecycle_state: String::from_str("finalized"),
                latency_delta_ms: delta,
                previous_state: previous,
                next_state: String::from_str("finalized"),
                state_transition_valid: true,
                transition_reason: String::from_str(
                    "Observed finalized commitment in Yellowstone stream",
                ),
                details: Some(bundle_detail(bundle_id)),
            },
        )
    } else if str_eq(commitment, "failed") && !str_eq(entry.status.as_str(), "failed") {
        let previous = entry.status.clone();
        entry.status = String::from_str("failed");
        Some(
            OperationalEvent::TransactionEvent {
                transaction_id: entry.intent_id.clone(),
                slot,
                block_height: entry.block_height_submitted,
                timestamp: now,
                lifecycle_state: String::from_str("failed"),
                latency_delta_ms: None,
                previous_state: previous,
                next_state: String::from_str("failed"),
                state_transition_valid: true,
                transition_reason: String::from_str("Transaction error observed via stream"),
                details: Some(String::from_str("Transaction error observed via stream")),
            },
        )
    } else {
        None
    }
}

/// The entries after the first `n` rows of an advance plan have been applied in order, row
/// `i` as a commitment update of its bundle at its landed slot with block time `times[i]`.
pub open spec fn entries_after_advances(
    m: Map<Seq<char>, LifecycleEntryView>,
    rows: Seq<(String, String, u64)>,
    times: Seq<i64>,
    now: UtcTime,
    n: nat,
) -> Map<Seq<char>, LifecycleEntryView>
    decreases n,
{
    if n == 0 {
        m
    } else {
        let j = n - 1;
        entries_after_update(
            entries_after_advances(m, rows, times, now, j as nat),
            rows[j].0@,
            rows[j].1@,
            rows[j].2,
            times[j],
            now,
        )
    }
}

/// The block time that one row of an advance uses, with the cache before and after: the
/// cached time of its slot when there is one (the cache unchanged); else the node's answer,
/// which is cached; else the current second (the cache unchanged).
pub open spec fn block_time_choice(
    before: Map<u64, i64>,
    after: Map<u64, i64>,
    slot: u64,
    answer: Option<i64>,
    now: UtcTime,
    time: i64,
) -> bool {
    if before.contains_key(slot) {
        time == before[slot] && after == before
    } else {
        match answer {
            Some(t) => time == t && block_time_remembered(before, after, slot, t),
            None => time == now.secs && after == before,
        }
    }
}

/// `times` are the block times the rows of an advance use, row after row, and `caches` the
/// block-time cache before each row and after the last.
pub open spec fn block_times_chosen(
    rows: Seq<(String, String, u64)>,
    answers: Seq<Option<i64>>,
    now: UtcTime,
    times: Seq<i64>,
    caches: Seq<Map<u64, i64>>,
    first: Map<u64, i64>,
    last: Map<u64, i64>,
) -> bool {
    &&& times.len() == rows.len()
    &&& caches.len() == rows.len() + 1
    &&& caches[0] == first
    &&& caches[rows.len() as int] == last
    &&& forall|j: int|
        0 <= j < rows.len() ==> block_time_choice(#[trigger] caches[j], caches[j + 1], rows[j].2, answers[j], now, times[j])
}

/// `saved` lists the entries of `m`, each bundle once: what [`LifecycleTracker::entries`]
/// returns, by view.
///
/// [`LifecycleTracker::entries`]: LifecycleTracker::entries
pub open spec fn lists_entries(saved: Seq<LifecycleEntryView>, m: Map<Seq<char>, LifecycleEntryView>) -> bool {
    &&& saved.map_values(|e: LifecycleEntryView| e.bundle_id).no_duplicates()
    &&& forall|a: int|
        0 <= a < saved.len() ==> m.contains_key((#[trigger] saved[a]).bundle_id) && m[saved[a].bundle_id] == saved[a]
    &&& forall|k: Seq<char>| #[trigger] m.contains_key(k) ==> exists|a: int| 0 <= a < saved.len() && saved[a] == m[k]
}

impl LifecycleTracker {
    /// A tracker that starts with the entries `loaded` (as read back from the lifecycle log),
    /// an empty block-time cache, and persists to `log_file`.
    pub fn new(log_file: &str, loaded: Vec<LifecycleEntry>) -> (t: LifecycleTracker)
        ensures
            t@.wf(),
            t@.entries == loaded_state(loaded@.map_values(|e: LifecycleEntry| e@)).0,
            t@.signatures == loaded_state(loaded@.map_values(|e: LifecycleEntry| e@)).1,
            t@.block_times == Map::<u64, i64>::empty(),
            t@.log_file == log_file@,
    {
        let ghost views = loaded@.map_values(|e: LifecycleEntry| e@);
        let mut entries = entries_new();
        let mut sigs = signatures_new();
        let mut i: usize = 0;
        while i < loaded.len()
            invariant
                views == loaded@.map_values(|e: LifecycleEntry| e@),
                i <= loaded@.len(),
                lifecycle_entries(entries) == loaded_state(views.take(i as int)).0,
                signature_index(sigs) == loaded_state(views.take(i as int)).1,
                forall|k: Seq<char>| #[trigger] lifecycle_entries(entries).contains_key(k)
                    ==> lifecycle_entries(entries)[k].bundle_id == k,
                lifecycle_entries(entries).dom().finite(),
            decreases loaded@.len() - i,
        {
            let entry = loaded[i].clone();
            index_signatures_into(&mut sigs, &entry.signatures, &entry.bundle_id);
            let key = entry.bundle_id.clone();
            entries_insert(&mut entries, key, entry);
            proof {
                assert(views.take(i + 1).drop_last() =~= views.take(i as int));
                assert(views.take(i + 1).last() == views[i as int]);
            }
            i += 1;
        }
        proof {
            assert(views.take(loaded@.len() as int) =~= views);
        }
        LifecycleTracker {
            entries,
            sig_to_bundle: sigs,
            log_file: String::from_str(log_file),
            block_time_cache: block_times_new(),
        }
    }

    /// Classify a transaction error string into a failure category, judged
    /// case-insensitively.
    pub fn classify_failure(error: &str) -> (r: String)
        ensures
            r@ == classify_spec(error@),
    {
        let lower = to_lowercase(error);
        Self::classify_lowercase(lower.as_str())
    }

    /// The failure category of an error message that is already in lower case.
    pub fn classify_lowercase(lower: &str) -> (r: String)
        ensures
            r@ == failure_category(lower@),
    {
        if contains(lower, "blockhashnotfound") || contains(lower, "blockhash not found")
            || contains(lower, "blockhash expired") {
            String::from_str("expired_blockhash")
        } else if contains(lower, "insufficientfunds") || contains(lower, "insufficient funds")
            || contains(lower, "insufficient lamports") {
            String::from_str("insufficient_funds")
        } else if contains(lower, "computationalbudgetexceeded") || contains(
            lower,
            "computational budget exceeded",
        ) || contains(lower, "exceeded compute") {
            String::from_str("compute_exceeded")
        } else if contains(lower, "alreadyprocessed") || contains(lower, "already processed") {
            String::from_str("already_processed")
        } else if contains(lower, "bundle rejected") || contains(lower, "bundledrop") || contains(
            lower,
            "dropped",
        ) {
            String::from_str("bundle_failure")
        } else if contains(lower, "leader missed") || contains(lower, "slot missed") {
            String::from_str("leader_missed")
        } else if contains(lower, "rpc error") || contains(lower, "server error") || contains(
            lower,
            "502",
        ) || contains(lower, "503") || contains(lower, "429") {
            String::from_str("rpc_failure")
        } else if contains(lower, "timeout") || contains(lower, "deadline exceeded") {
            String::from_str("network_timeout")
        } else if contains(lower, "fee") && (contains(lower, "too low") || contains(
            lower,
            "insufficient",
        )) {
            String::from_str("insufficient_priority_fee")
        } else if contains(lower, "simulation failed") || contains(lower, "instructionerror")
            || contains(lower, "program error") {
            String::from_str("simulation_failure")
        } else if contains(lower, "accountinuse") || contains(lower, "account in use") || contains(
            lower,
            "accountnotfound",
        ) || contains(lower, "invalid account") {
            String::from_str("account_error")
        } else {
            String::from_str("unknown_failure")
        }
    }

    /// Record a new bundle submission, stamped `now`: the entry is stored under its bundle id
    /// (replacing any earlier one) and each signature is indexed to that bundle id.
    pub fn record_submission_at(
        &mut self,
        now: UtcTime,
        intent_id: String,
        bundle_id: String,
        slot: u64,
        tip: u64,
        signatures: Vec<String>,
        last_valid_block_height: u64,
        retry_count: u32,
        history_summary: String,
        block_height: Option<u64>,
    )
        requires
            old(self)@.wf(),
        ensures
            final(self)@.wf(),
            final(self)@ == (TrackerView {
                entries: old(self)@.entries.insert(
                    bundle_id@,
                    submission_entry(
                        now,
                        intent_id@,
                        bundle_id@,
                        slot,
                        tip,
                        strs_view(signatures@),
                        last_valid_block_height,
                        retry_count,
                        history_summary@,
                        block_height,
                    ),
                ),
                signatures: index_signatures(
                    old(self)@.signatures,
                    strs_view(signatures@),
                    bundle_id@,
                ),
                ..old(self)@
            }),
    {
        let mut entry = LifecycleEntry::default_at(now);
        entry.intent_id = intent_id;
        entry.bundle_id = bundle_id.clone();
        entry.slot_submitted = slot;
        entry.block_height_submitted = block_height;
        entry.tip_lamports = tip;
        entry.last_valid_block_height = Some(last_valid_block_height);
        entry.signatures = clone_strings(&signatures);
        entry.retry_count = retry_count;
        entry.history_summary = history_summary;
        entries_insert(&mut self.entries, bundle_id.clone(), entry);
        index_signatures_into(&mut self.sig_to_bundle, &signatures, &bundle_id);
    }

    /// Record a new bundle submission, stamped with the current time.
    pub fn record_submission(
        &mut self,
        intent_id: String,
        bundle_id: String,
        slot: u64,
        tip: u64,
        signatures: Vec<String>,
        last_valid_block_height: u64,
        retry_count: u32,
        history_summary: String,
        block_height: Option<u64>,
    )
        requires
            old(self)@.wf(),
        ensures
            final(self)@.wf(),
            exists|now: UtcTime|
                now.nanos < 1_000_000_000 && in_utc_range(now.secs as int) && final(self)@ == (TrackerView {
                    entries: old(self)@.entries.insert(
                        bundle_id@,
                        submission_entry(
                            now,
                            intent_id@,
                            bundle_id@,
                            slot,
                            tip,
                            strs_view(signatures@),
                            last_valid_block_height,
                            retry_count,
                            history_summary@,
                            block_height,
                        ),
                    ),
                    signatures: index_signatures(
                        old(self)@.signatures,
                        strs_view(signatures@),
                        bundle_id@,
                    ),
                    ..old(self)@
                }),
    {
        let now = current_time();
        assert(in_utc_range(now.secs as int));
        self.record_submission_at(
            now,
            intent_id,
            bundle_id,
            slot,
            tip,
            signatures,
            last_valid_block_height,
            retry_count,
            history_summary,
            block_height,
        );
    }

    /// Update the commitment status of a bundle from an observation at `slot` whose block
    /// time is `block_time_sec`, with `now` as the current time. A failed bundle only takes
    /// "failed"; each commitment level is recorded once; the status never drops to a lower
    /// commitment. Returns the event to log.
    pub fn update_status_at(
        &mut self,
        bundle_id: &str,
        commitment: &str,
        slot: u64,
        block_time_sec: i64,
        now: UtcTime,
    ) -> (ev: Option<OperationalEvent>)
        requires
            old(self)@.wf(),
        ensures
            final(self)@.wf(),
            final(self)@ == (TrackerView {
                entries: entries_after_update(
                    old(self)@.entries,
                    bundle_id@,
                    commitment@,
                    slot,
                    block_time_sec,
                    now,
                ),
                ..old(self)@
            }),
            update_event(ev, old(self)@.entries, bundle_id@, commitment@, slot, block_time_sec, now),
    {
        let found = entries_get(&self.entries, bundle_id);
        let mut entry = match found {
            Some(e) => e,
            None => {
                proof {
                    assert(final(self)@ == (TrackerView { entries: self@.entries, ..self@ }));
                }
                return None;
            },
        };
        if str_eq(entry.status.as_str(), "failed") && !str_eq(commitment, "failed") {
            return None;
        }
        let seen = from_secs_or(block_time_sec, now);
        let stamp: Option<UtcTime> = if seen.is_before(&entry.submitted_at) {
            let gap: u64 = if slot >= entry.slot_submitted {
                slot - entry.slot_submitted
            } else {
                0
            };
            if gap > (i64::MAX / 400) as u64 {
                None
            } else {
                add_millis(entry.submitted_at, gap * 400)
            }
        } else {
            Some(seen)
        };
        let ts = match stamp {
            Some(t) => t,
            None => {
                if !str_eq(commitment, "failed") {
                    return None;
                }
                now
            },
        };
        let ev = apply_commitment(&mut entry, bundle_id, commitment, slot, ts, now);
        entries_insert(&mut self.entries, String::from_str(bundle_id), entry);
        ev
    }

    /// Record a classified failure for a bundle at `now`: a bundle that is not yet failed is
    /// marked failed with the category of `error_msg`; returns the failure event to log.
    pub fn update_status_failed_at(&mut self, bundle_id: &str, error_msg: &str, slot: u64, now: UtcTime) -> (ev: Option<OperationalEvent>)
        requires
            old(self)@.wf(),
        ensures
            final(self)@.wf(),
            final(self)@ == (TrackerView {
                entries: entries_after_failure(old(self)@.entries, bundle_id@, classify_spec(error_msg@)),
                ..old(self)@
            }),
            (old(self)@.entries.contains_key(bundle_id@) && old(self)@.entries[bundle_id@].status != "failed"@)
                ==> (ev matches Some(x) && is_failure_event(x, now, bundle_id@, classify_spec(error_msg@), slot, error_msg@)),
            !(old(self)@.entries.contains_key(bundle_id@) && old(self)@.entries[bundle_id@].status != "failed"@)
                ==> ev is None,
    {
        let failure_type = Self::classify_failure(error_msg);
        match entries_get(&self.entries, bundle_id) {
            Some(mut entry) => {
                if !str_eq(entry.status.as_str(), "failed") {
                    entry.status = String::from_str("failed");
                    entry.failure_type = Some(failure_type.clone());
                    entries_insert(&mut self.entries, String::from_str(bundle_id), entry);
                    Some(
                        OperationalEvent::FailureDetected {
                            timestamp: now,
                            bundle_id: String::from_str(bundle_id),
                            failure_type,
                            slot,
                            details: String::from_str(error_msg),
                        },
                    )
                } else {
                    None
                }
            },
            None => None,
        }
    }

    /// Record a classified failure for a bundle, stamped with the current time.
    pub fn update_status_failed(&mut self, bundle_id: &str, error_msg: &str, slot: u64) -> (ev: Option<OperationalEvent>)
        requires
            old(self)@.wf(),
        ensures
            final(self)@.wf(),
            final(self)@ == (TrackerView {
                entries: entries_after_failure(old(self)@.entries, bundle_id@, classify_spec(error_msg@)),
                ..old(self)@
            }),
            (old(self)@.entries.contains_key(bundle_id@) && old(self)@.entries[bundle_id@].status != "failed"@)
                ==> (ev matches Some(x) && exists|now: UtcTime| now.nanos < 1_000_000_000 && in_utc_range(now.secs as int) && is_failure_event(x, now, bundle_id@, classify_spec(error_msg@), slot, error_msg@)),
            !(old(self)@.entries.contains_key(bundle_id@) && old(self)@.entries[bundle_id@].status != "failed"@)
                ==> ev is None,
    {
        let now = current_time();
        self.update_status_failed_at(bundle_id, error_msg, slot, now)
    }

    /// Resolve a transaction signature to its bundle and update that bundle's status, as
    /// [`Self::update_status`] does; an unknown signature changes nothing.
    pub fn update_status_by_sig(&mut self, signature: &str, commitment: &str, slot: u64, block_time_sec: i64) -> (ev: Option<OperationalEvent>)
        requires
            old(self)@.wf(),
        ensures
            final(self)@.wf(),
            !old(self)@.signatures.contains_key(signature@) ==> final(self)@ == old(self)@ && ev is None,
            old(self)@.signatures.contains_key(signature@) ==> exists|now: UtcTime|
                now.nanos < 1_000_000_000 && in_utc_range(now.secs as int) && final(self)@ == (TrackerView {
                    entries: entries_after_update(
                        old(self)@.entries,
                        old(self)@.signatures[signature@],
                        commitment@,
                        slot,
                        block_time_sec,
                        now,
                    ),
                    ..old(self)@
                }) && update_event(
                    ev,
                    old(self)@.entries,
                    old(self)@.signatures[signature@],
                    commitment@,
                    slot,
                    block_time_sec,
                    now,
                ),
    {
        match signatures_get(&self.sig_to_bundle, signature) {
            Some(bid) => self.update_status(bid.as_str(), commitment, slot, block_time_sec),
            None => None,
        }
    }

    /// Resolve a transaction signature to its bundle and record a classified failure for it,
    /// as [`Self::update_status_failed`] does; an unknown signature changes nothing.
    pub fn update_failure_by_sig(&mut self, signature: &str, error_msg: &str, slot: u64) -> (ev: Option<OperationalEvent>)
        requires
            old(self)@.wf(),
        ensures
            final(self)@.wf(),
            !old(self)@.signatures.contains_key(signature@) ==> final(self)@ == old(self)@ && ev is None,
            old(self)@.signatures.contains_key(signature@) ==> final(self)@ == (TrackerView {
                entries: entries_after_failure(
                    old(self)@.entries,
                    old(self)@.signatures[signature@],
                    classify_spec(error_msg@),
                ),
                ..old(self)@
            }),
            ({
                let b = old(self)@.signatures[signature@];
                (old(self)@.signatures.contains_key(signature@) && old(self)@.entries.contains_key(b)
                    && old(self)@.entries[b].status != "failed"@) ==> (ev matches Some(x) && exists|now: UtcTime|
                    now.nanos < 1_000_000_000 && in_utc_range(now.secs as int) && is_failure_event(x, now, b, classify_spec(error_msg@), slot, error_msg@))
            }),
            ({
                let b = old(self)@.signatures[signature@];
                !(old(self)@.signatures.contains_key(signature@) && old(self)@.entries.contains_key(b)
                    && old(self)@.entries[b].status != "failed"@) ==> ev is None
            }),
    {
        match signatures_get(&self.sig_to_bundle, signature) {
            Some(bid) => self.update_status_failed(bid.as_str(), error_msg, slot),
            None => None,
        }
    }

    /// Retrieve a copy of a lifecycle entry using a transaction signature.
    pub fn get_entry_by_sig(&self, signature: &str) -> (r: Option<LifecycleEntry>)
        ensures
            r is Some <==> (self@.signatures.contains_key(signature@)
                && self@.entries.contains_key(self@.signatures[signature@])),
            r is Some ==> r->0@ == self@.entries[self@.signatures[signature@]],
    {
        match signatures_get(&self.sig_to_bundle, signature) {
            Some(bid) => entries_get(&self.entries, bid.as_str()),
            None => None,
        }
    }

    /// Record a failure for a bundle: a tracked bundle is marked failed with the given
    /// category, whatever its status was.
    pub fn record_failure(&mut self, bundle_id: &str, failure_type: String)
        requires
            old(self)@.wf(),
        ensures
            final(self)@.wf(),
            old(self)@.entries.contains_key(bundle_id@) ==> final(self)@ == old(self)@.with_entry(
                bundle_id@,
                failed_entry(old(self)@.entries[bundle_id@], failure_type@),
            ),
            !old(self)@.entries.contains_key(bundle_id@) ==> final(self)@ == old(self)@,
    {
        if let Some(mut entry) = entries_get(&self.entries, bundle_id) {
            entry.status = String::from_str("failed");
            entry.failure_type = Some(failure_type);
            entries_insert(&mut self.entries, String::from_str(bundle_id), entry);
        }
    }

    /// Check for expired blockhashes using block height (not slot number) at `now`: every
    /// pending or processed bundle whose last valid block height is below
    /// `current_block_height` is marked failed as "expired_blockhash", and one report row is
    /// returned for each of them.
    pub fn check_expiries_at(&mut self, current_block_height: u64, now: UtcTime) -> (r: Vec<(String, String, u64, u64, i64, u32, String)>)
        requires
            old(self)@.wf(),
        ensures
            final(self)@.wf(),
            final(self)@ == (TrackerView {
                entries: entries_after_expiry(old(self)@.entries, current_block_height),
                ..old(self)@
            }),
            expiry_report(r@, old(self)@.entries, current_block_height, now),
    {
        let h = current_block_height;
        let pairs = entries_pairs(&self.entries);
        let ghost m0 = self@.entries;
        let ghost keys = pairs@.map_values(|p: (String, LifecycleEntry)| p.0@);
        let ghost rest = self@;
        let mut out: Vec<(String, String, u64, u64, i64, u32, String)> = Vec::new();
        let mut i: usize = 0;
        while i < pairs.len()
            invariant
                i <= pairs@.len(),
                m0 == old(self)@.entries,
                rest == old(self)@,
                old(self)@.wf(),
                keys == pairs@.map_values(|p: (String, LifecycleEntry)| p.0@),
                keys.no_duplicates(),
                forall|j: int| #![trigger pairs@[j]] 0 <= j < pairs@.len() ==> (m0.contains_key(pairs@[j].0@)
                    && m0[pairs@[j].0@] == pairs@[j].1@),
                forall|k: Seq<char>| #[trigger] m0.contains_key(k) ==> exists|j: int| 0 <= j < pairs@.len() && pairs@[j].0@ == k,
                self@.signatures == rest.signatures,
                self@.block_times == rest.block_times,
                self@.log_file == rest.log_file,
                self@.entries.dom() == m0.dom(),
                forall|k: Seq<char>| #[trigger] m0.contains_key(k) ==> self@.entries[k] == if keys.take(i as int).contains(k) && blockhash_expired(m0[k], h) {
                    failed_entry(m0[k], "expired_blockhash"@)
                } else {
                    m0[k]
                },
                out@.map_values(|r: (String, String, u64, u64, i64, u32, String)| r.1@).no_duplicates(),
                forall|a: int| 0 <= a < out@.len() ==> {
                    &&& m0.contains_key(#[trigger] out@[a].1@)
                    &&& blockhash_expired(m0[out@[a].1@], h)
                    &&& expiry_row(out@[a], m0[out@[a].1@], now)
                    &&& keys.take(i as int).contains(out@[a].1@)
                },
                forall|j: int| 0 <= j < i && blockhash_expired(#[trigger] pairs@[j].1@, h) ==> exists|a: int| 0 <= a < out@.len() && out@[a].1@ == keys[j],
            decreases pairs@.len() - i,
        {
            let key = &pairs[i].0;
            let e = &pairs[i].1;
            assert(keys[i as int] == key@);
            assert(m0.contains_key(key@) && m0[key@] == e@);
            let pending = str_eq(e.status.as_str(), "pending") || str_eq(e.status.as_str(), "processed");
            let past = match e.last_valid_block_height {
                Some(l) => h > l,
                None => false,
            };
            let ghost out_before = out@;
            let ghost cur_before = self@.entries;
            if pending && past {
                let mut ne = e.clone();
                ne.status = String::from_str("failed");
                ne.failure_type = Some(String::from_str("expired_blockhash"));
                let age = millis_since(now, e.submitted_at);
                out.push(
                    (
                        e.intent_id.clone(),
                        key.clone(),
                        e.slot_submitted,
                        e.tip_lamports,
                        age,
                        e.retry_count,
                        e.history_summary.clone(),
                    ),
                );
                entries_insert(&mut self.entries, key.clone(), ne);
                proof {
                    assert(!keys.take(i as int).contains(key@)) by {
                        if keys.take(i as int).contains(key@) {
                            let j = choose|j: int| 0 <= j < i && keys.take(i as int)[j] == key@;
                            assert(keys[j] == keys[i as int]);
                        }
                    }
                    let ov = out_before.map_values(|r: (String, String, u64, u64, i64, u32, String)| r.1@);
                    let nv = out@.map_values(|r: (String, String, u64, u64, i64, u32, String)| r.1@);
                    assert(nv =~= ov.push(key@));
                    assert forall|x: int, y: int| 0 <= x < nv.len() && 0 <= y < nv.len() && x != y implies nv[x] != nv[y] by {
                        if x < ov.len() && y < ov.len() {
                        } else if x == ov.len() {
                            assert(keys.take(i as int).contains(out_before[y].1@));
                        } else {
                            assert(keys.take(i as int).contains(out_before[x].1@));
                        }
                    }
                }
            }
            proof {
                assert(keys.take(i + 1) =~= keys.take(i as int).push(key@));
                assert forall|k: Seq<char>| #[trigger] m0.contains_key(k) implies self@.entries[k] == if keys.take(i + 1).contains(k) && blockhash_expired(m0[k], h) {
                    failed_entry(m0[k], "expired_blockhash"@)
                } else {
                    m0[k]
                } by {
                    if k == key@ {
                        assert(keys.take(i + 1).contains(k)) by {
                            assert(keys.take(i + 1)[i as int] == k);
                        }
                        assert(blockhash_expired(m0[k], h) == (pending && past));
                        if pending && past {
                            assert(self@.entries[k] == failed_entry(m0[k], "expired_blockhash"@));
                        } else {
                            assert(self@.entries[k] == cur_before[k]);
                        }
                    } else {
                        assert(keys.take(i + 1).contains(k) == keys.take(i as int).contains(k));
                    }
                }
                assert forall|a: int| 0 <= a < out@.len() implies keys.take(i + 1).contains(#[trigger] out@[a].1@) by {
                    if a < out_before.len() {
                        assert(out@[a] == out_before[a]);
                        assert(keys.take(i as int).contains(out_before[a].1@));
                        let j = choose|j: int| 0 <= j < i && keys.take(i as int)[j] == out_before[a].1@;
                        assert(keys.take(i + 1)[j] == out_before[a].1@);
                    } else {
                        assert(keys.take(i + 1)[i as int] == key@);
                    }
                }
                assert forall|j: int| 0 <= j < i + 1 && blockhash_expired(#[trigger] pairs@[j].1@, h) implies exists|a: int| 0 <= a < out@.len() && out@[a].1@ == keys[j] by {
                    if j < i {
                        let a = choose|a: int| 0 <= a < out_before.len() && out_before[a].1@ == keys[j];
                        assert(out@[a] == out_before[a]);
                    } else {
                        assert(out@[out@.len() - 1].1@ == key@);
                    }
                }
            }
            i += 1;
        }
        proof {
            assert(keys.take(pairs@.len() as int) =~= keys);
            assert(self@.entries =~= entries_after_expiry(m0, h)) by {
                assert forall|k: Seq<char>| #[trigger] m0.contains_key(k) implies keys.contains(k) by {
                    let j = choose|j: int| 0 <= j < pairs@.len() && pairs@[j].0@ == k;
                    assert(keys[j] == k);
                }
            }
            assert forall|k: Seq<char>| #[trigger] m0.contains_key(k) && blockhash_expired(m0[k], h) implies exists|a: int| 0 <= a < out@.len() && out@[a].1@ == k by {
                let j = choose|j: int| 0 <= j < pairs@.len() && pairs@[j].0@ == k;
                assert(pairs@[j].1@ == m0[k]);
                assert(keys[j] == k);
            }
        }
        out
    }

    /// Check for expired blockhashes at block height `current_block_height`, as
    /// [`Self::check_expiries_at`] does at the current time.
    pub fn check_expiries(&mut self, current_block_height: u64) -> (r: Vec<(String, String, u64, u64, i64, u32, String)>)
        requires
            old(self)@.wf(),
        ensures
            final(self)@.wf(),
            final(self)@ == (TrackerView {
                entries: entries_after_expiry(old(self)@.entries, current_block_height),
                ..old(self)@
            }),
            exists|now: UtcTime| now.nanos < 1_000_000_000 && in_utc_range(now.secs as int) && expiry_report(r@, old(self)@.entries, current_block_height, now),
    {
        let now = current_time();
        self.check_expiries_at(current_block_height, now)
    }

    /// The updates that advance commitments by slot finalization: when `status` is a
    /// commitment level (0 processed, 1 confirmed, 2 finalized), one (bundle id, commitment,
    /// landed slot) row for each bundle that landed at or before `slot` and has not reached
    /// that level. [`Self::apply_commitment_advances`] then applies the rows in order, each at
    /// its landed slot.
    pub fn commitment_advances(&self, slot: u64, status: i32) -> (r: Vec<(String, String, u64)>)
        requires
            self@.wf(),
        ensures
            commitment_of_level(status) is None ==> r@.len() == 0,
            commitment_of_level(status) matches Some(c) ==> advance_plan(r@, self@.entries, slot, c),
    {
        let commitment: &str = if status == 0 {
            "processed"
        } else if status == 1 {
            "confirmed"
        } else if status == 2 {
            "finalized"
        } else {
            return Vec::new();
        };
        let ghost c = commitment@;
        let target = commitment_ord(commitment);
        let pairs = entries_pairs(&self.entries);
        let ghost m0 = self@.entries;
        let ghost keys = pairs@.map_values(|p: (String, LifecycleEntry)| p.0@);
        let mut out: Vec<(String, String, u64)> = Vec::new();
        let mut i: usize = 0;
        while i < pairs.len()
            invariant
                i <= pairs@.len(),
                m0 == self@.entries,
                self@.wf(),
                c == commitment@,
                target as int == commitment_rank(c),
                keys == pairs@.map_values(|p: (String, LifecycleEntry)| p.0@),
                keys.no_duplicates(),
                forall|j: int| #![trigger pairs@[j]] 0 <= j < pairs@.len() ==> (m0.contains_key(pairs@[j].0@)
                    && m0[pairs@[j].0@] == pairs@[j].1@),
                out@.map_values(|r: (String, String, u64)| r.0@).no_duplicates(),
                forall|a: int| 0 <= a < out@.len() ==> {
                    &&& m0.contains_key(#[trigger] out@[a].0@)
                    &&& advances(m0[out@[a].0@], slot, c)
                    &&& out@[a].1@ == c
                    &&& Some(out@[a].2) == m0[out@[a].0@].processed_slot
                    &&& keys.take(i as int).contains(out@[a].0@)
                },
                forall|j: int| 0 <= j < i && advances(#[trigger] pairs@[j].1@, slot, c) ==> exists|a: int| 0 <= a < out@.len() && out@[a].0@ == keys[j],
            decreases pairs@.len() - i,
        {
            let key = &pairs[i].0;
            let e = &pairs[i].1;
            assert(keys[i as int] == key@);
            assert(m0.contains_key(key@) && m0[key@] == e@);
            let ghost out_before = out@;
            if let Some(landed) = e.processed_slot {
                if landed <= slot && target > commitment_ord(e.status.as_str()) {
                    out.push((e.bundle_id.clone(), String::from_str(commitment), landed));
                    proof {
                        assert(!keys.take(i as int).contains(key@)) by {
                            if keys.take(i as int).contains(key@) {
                                let j = choose|j: int| 0 <= j < i && keys.take(i as int)[j] == key@;
                                assert(keys[j] == keys[i as int]);
                            }
                        }
                        let ov = out_before.map_values(|r: (String, String, u64)| r.0@);
                        let nv = out@.map_values(|r: (String, String, u64)| r.0@);
                        assert(nv =~= ov.push(key@));
                        assert forall|x: int, y: int| 0 <= x < nv.len() && 0 <= y < nv.len() && x != y implies nv[x] != nv[y] by {
                            if x < ov.len() && y < ov.len() {
                            } else if x == ov.len() {
                                assert(keys.take(i as int).contains(out_before[y].0@));
                            } else {
                                assert(keys.take(i as int).contains(out_before[x].0@));
                            }
                        }
                    }
                }
            }
            proof {
                assert(keys.take(i + 1) =~= keys.take(i as int).push(key@));
                assert forall|a: int| 0 <= a < out@.len() implies keys.take(i + 1).contains(#[trigger] out@[a].0@) by {
                    if a < out_before.len() {
                        assert(out@[a] == out_before[a]);
                        assert(keys.take(i as int).contains(out_before[a].0@));
                        let j = choose|j: int| 0 <= j < i && keys.take(i as int)[j] == out_before[a].0@;
                        assert(keys.take(i + 1)[j] == out_before[a].0@);
                    } else {
                        assert(keys.take(i + 1)[i as int] == key@);
                    }
                }
                assert forall|j: int| 0 <= j < i + 1 && advances(#[trigger] pairs@[j].1@, slot, c) implies exists|a: int| 0 <= a < out@.len() && out@[a].0@ == keys[j] by {
                    if j < i {
                        let a = choose|a: int| 0 <= a < out_before.len() && out_before[a].0@ == keys[j];
                        assert(out@[a] == out_before[a]);
                    } else {
                        assert(out@[out@.len() - 1].0@ == key@);
                    }
                }
            }
            i += 1;
        }
        proof {
            assert forall|k: Seq<char>| #[trigger] m0.contains_key(k) && advances(m0[k], slot, c) implies exists|a: int| 0 <= a < out@.len() && out@[a].0@ == k by {
                let j = choose|j: int| 0 <= j < pairs@.len() && pairs@[j].0@ == k;
                assert(pairs@[j].1@ == m0[k]);
                assert(keys[j] == k);
            }
        }
        out
    }

    /// Applies the rows of an advance plan in order, row `i` observed at its landed slot
    /// with block time `block_times[i]` and stamped `now`; returns the event of each row.
    pub fn apply_commitment_advances(
        &mut self,
        rows: &Vec<(String, String, u64)>,
        block_times: &Vec<i64>,
        now: UtcTime,
    ) -> (evs: Vec<Option<OperationalEvent>>)
        requires
            old(self)@.wf(),
            block_times@.len() == rows@.len(),
        ensures
            final(self)@.wf(),
            final(self)@ == (TrackerView {
                entries: entries_after_advances(old(self)@.entries, rows@, block_times@, now, rows@.len()),
                ..old(self)@
            }),
            evs@.len() == rows@.len(),
            forall|i: int|
                0 <= i < rows@.len() ==> update_event(
                    #[trigger] evs@[i],
                    entries_after_advances(old(self)@.entries, rows@, block_times@, now, i as nat),
                    rows@[i].0@,
                    rows@[i].1@,
                    rows@[i].2,
                    block_times@[i],
                    now,
                ),
    {
        let ghost m0 = self@.entries;
        let mut evs: Vec<Option<OperationalEvent>> = Vec::new();
        let mut i: usize = 0;
        while i < rows.len()
            invariant
                i <= rows@.len(),
                block_times@.len() == rows@.len(),
                self@.wf(),
                self@ == (TrackerView {
                    entries: entries_after_advances(m0, rows@, block_times@, now, i as nat),
                    ..old(self)@
                }),
                evs@.len() == i,
                forall|j: int|
                    0 <= j < i ==> update_event(
                        #[trigger] evs@[j],
                        entries_after_advances(m0, rows@, block_times@, now, j as nat),
                        rows@[j].0@,
                        rows@[j].1@,
                        rows@[j].2,
                        block_times@[j],
                        now,
                    ),
            decreases rows@.len() - i,
        {
            let row = &rows[i];
            let ev = self.update_status_at(row.0.as_str(), row.1.as_str(), row.2, block_times[i], now);
            evs.push(ev);
            proof {
                assert(entries_after_advances(m0, rows@, block_times@, now, (i + 1) as nat)
                    == entries_after_update(
                    entries_after_advances(m0, rows@, block_times@, now, i as nat),
                    rows@[i as int].0@,
                    rows@[i as int].1@,
                    rows@[i as int].2,
                    block_times@[i as int],
                    now,
                ));
            }
            i += 1;
        }
        evs
    }

    /// Advances commitments by slot finalization: applies the rows of
    /// [`Self::commitment_advances`] in order at `now`, each observed at its landed slot with
    /// that slot's block time as [`Self::cached_block_time`] and the node give it: the cached
    /// time when there is one; else the node's answer `answers[i]`, which is then cached;
    /// else (the node gave none) the current second. Returns the event of each row.
    pub fn advance_commitments_by_slot(
        &mut self,
        rows: &Vec<(String, String, u64)>,
        answers: &Vec<Option<i64>>,
        now: UtcTime,
    ) -> (evs: Vec<Option<OperationalEvent>>)
        requires
            old(self)@.wf(),
            answers@.len() == rows@.len(),
        ensures
            final(self)@.wf(),
            final(self)@.signatures == old(self)@.signatures,
            final(self)@.log_file == old(self)@.log_file,
            evs@.len() == rows@.len(),
            exists|times: Seq<i64>, caches: Seq<Map<u64, i64>>|
                block_times_chosen(rows@, answers@, now, times, caches, old(self)@.block_times, final(self)@.block_times)
                    && final(self)@.entries == entries_after_advances(old(self)@.entries, rows@, times, now, rows@.len())
                    && forall|i: int|
                    0 <= i < rows@.len() ==> update_event(
                        #[trigger] evs@[i],
                        entries_after_advances(old(self)@.entries, rows@, times, now, i as nat),
                        rows@[i].0@,
                        rows@[i].1@,
                        rows@[i].2,
                        times[i],
                        now,
                    ),
    {
        let ghost cache0 = self@.block_times;
        let ghost mut caches: Seq<Map<u64, i64>> = seq![cache0];
        let mut times: Vec<i64> = Vec::new();
        let mut i: usize = 0;
        while i < rows.len()
            invariant
                i <= rows@.len(),
                answers@.len() == rows@.len(),
                self@.wf(),
                self@.entries == old(self)@.entries,
                self@.signatures == old(self)@.signatures,
                self@.log_file == old(self)@.log_file,
                times@.len() == i,
                caches.len() == i + 1,
                caches[0] == cache0,
                caches[i as int] == self@.block_times,
                forall|j: int|
                    0 <= j < i ==> block_time_choice(
                        #[trigger] caches[j],
                        caches[j + 1],
                        rows@[j].2,
                        answers@[j],
                        now,
                        times@[j],
                    ),
            decreases rows@.len() - i,
        {
            let slot = rows[i].2;
            let ghost before = self@.block_times;
            let t = match self.cached_block_time(slot) {
                Some(t) => t,
                None => match answers[i] {
                    Some(t) => {
                        self.remember_block_time(slot, t);
                        t
                    },
                    None => now.secs,
                },
            };
            times.push(t);
            proof {
                assert(block_time_choice(before, self@.block_times, slot, answers@[i as int], now, t));
                caches = caches.push(self@.block_times);
            }
            i += 1;
        }
        let evs = self.apply_commitment_advances(rows, &times, now);
        proof {
            assert(block_times_chosen(rows@, answers@, now, times@, caches, cache0, self@.block_times));
        }
        evs
    }

    /// The cached block time of `slot`, if any.
    pub fn cached_block_time(&self, slot: u64) -> (r: Option<i64>)
        ensures
            r == self@.block_times.get(slot),
    {
        block_times_get(&self.block_time_cache, slot)
    }

    /// Cache the block time of `slot`, first evicting 200 cached slots once the cache holds
    /// more than 1000 (a rough eviction that limits its growth).
    pub fn remember_block_time(&mut self, slot: u64, time: i64)
        requires
            old(self)@.wf(),
        ensures
            final(self)@.wf(),
            final(self)@.entries == old(self)@.entries,
            final(self)@.signatures == old(self)@.signatures,
            final(self)@.log_file == old(self)@.log_file,
            block_time_remembered(old(self)@.block_times, final(self)@.block_times, slot, time),
    {
        let ghost before = self@.block_times;
        let len = block_times_len(&self.block_time_cache);
        let ghost mut evicted: Set<u64> = Set::empty();
        if len > 1000 {
            let keys = block_times_first_keys(&self.block_time_cache, 200);
            let mut j: usize = 0;
            while j < keys.len()
                invariant
                    j <= keys@.len(),
                    keys@.no_duplicates(),
                    forall|i: int| 0 <= i < keys@.len() ==> before.contains_key(#[trigger] keys@[i]),
                    cached_block_times(self.block_time_cache) == before.remove_keys(keys@.take(j as int).to_set()),
                    self@.entries == old(self)@.entries,
                    self@.signatures == old(self)@.signatures,
                    self@.log_file == old(self)@.log_file,
                    old(self)@.wf(),
                decreases keys@.len() - j,
            {
                let k = keys[j];
                block_times_remove(&mut self.block_time_cache, k);
                proof {
                    assert(keys@.take(j + 1).to_set() =~= keys@.take(j as int).to_set().insert(k)) by {
                        assert(keys@.take(j + 1) =~= keys@.take(j as int).push(k));
                        keys@.take(j as int).lemma_push_to_set_commute(k);
                    }
                    assert(cached_block_times(self.block_time_cache) =~= before.remove_keys(keys@.take(j + 1).to_set()));
                }
                j += 1;
            }
            proof {
                assert(keys@.take(keys@.len() as int) =~= keys@);
                evicted = keys@.to_set();
                keys@.unique_seq_to_set();
                assert(evicted.subset_of(before.dom()));
                assert(evicted.finite()) by {
                    vstd::seq_lib::seq_to_set_is_finite(keys@);
                }
                assert(keys@.len() == 200);
            }
        } else {
            proof {
                assert(before.remove_keys(evicted) =~= before);
            }
        }
        block_times_insert(&mut self.block_time_cache, slot, time);
        proof {
            assert(self@.block_times == before.remove_keys(evicted).insert(slot, time));
            assert(evicted.finite() && evicted.subset_of(before.dom()) && evicted.len() == eviction_count(before.dom().len()));
        }
    }

    /// The block time of `slot` after asking the network: a fetched time is cached and
    /// returned; when the fetch failed, the current time (in whole seconds) stands in.
    pub fn resolve_block_time(&mut self, slot: u64, fetched: Option<i64>) -> (r: i64)
        requires
            old(self)@.wf(),
        ensures
            final(self)@.wf(),
            final(self)@.entries == old(self)@.entries,
            final(self)@.signatures == old(self)@.signatures,
            final(self)@.log_file == old(self)@.log_file,
            fetched matches Some(t) ==> r == t && block_time_remembered(old(self)@.block_times, final(self)@.block_times, slot, t),
            fetched is None ==> final(self)@.block_times == old(self)@.block_times,
            fetched is None ==> exists|now: UtcTime|
                now.nanos < 1_000_000_000 && in_utc_range(now.secs as int) && r == now.secs,
    {
        match fetched {
            Some(t) => {
                self.remember_block_time(slot, t);
                t
            },
            None => {
                let now = current_time();
                assert(in_utc_range(now.secs as int));
                now.secs
            },
        }
    }

    /// Summary statistics: the number of bundles that are pending, processed, confirmed,
    /// finalized and failed.
    pub fn get_stats(&self) -> (r: (usize, usize, usize, usize, usize))
        ensures
            r.0 == status_count(self@.entries, "pending"@),
            r.1 == status_count(self@.entries, "processed"@),
            r.2 == status_count(self@.entries, "confirmed"@),
            r.3 == status_count(self@.entries, "finalized"@),
            r.4 == status_count(self@.entries, "failed"@),
    {
        let pairs = entries_pairs(&self.entries);
        let ghost m0 = self@.entries;
        let ghost keys = pairs@.map_values(|p: (String, LifecycleEntry)| p.0@);
        let mut pending: usize = 0;
        let mut processed: usize = 0;
        let mut confirmed: usize = 0;
        let mut finalized: usize = 0;
        let mut failed: usize = 0;
        let mut i: usize = 0;
        proof {
            assert(keys.take(0).to_set() =~= Set::<Seq<char>>::empty());
            assert(Set::<Seq<char>>::empty().filter(has_status(m0, "pending"@)) =~= Set::<Seq<char>>::empty());
            assert(Set::<Seq<char>>::empty().filter(has_status(m0, "processed"@)) =~= Set::<Seq<char>>::empty());
            assert(Set::<Seq<char>>::empty().filter(has_status(m0, "confirmed"@)) =~= Set::<Seq<char>>::empty());
            assert(Set::<Seq<char>>::empty().filter(has_status(m0, "finalized"@)) =~= Set::<Seq<char>>::empty());
            assert(Set::<Seq<char>>::empty().filter(has_status(m0, "failed"@)) =~= Set::<Seq<char>>::empty());
        }
        while i < pairs.len()
            invariant
                i <= pairs@.len(),
                m0 == self@.entries,
                keys == pairs@.map_values(|p: (String, LifecycleEntry)| p.0@),
                keys.no_duplicates(),
                forall|j: int| #![trigger pairs@[j]] 0 <= j < pairs@.len() ==> (m0.contains_key(pairs@[j].0@)
                    && m0[pairs@[j].0@] == pairs@[j].1@),
                keys.take(i as int).to_set().finite(),
                pending <= i && processed <= i && confirmed <= i && finalized <= i && failed <= i,
                pending == keys.take(i as int).to_set().filter(has_status(m0, "pending"@)).len(),
                processed == keys.take(i as int).to_set().filter(has_status(m0, "processed"@)).len(),
                confirmed == keys.take(i as int).to_set().filter(has_status(m0, "confirmed"@)).len(),
                finalized == keys.take(i as int).to_set().filter(has_status(m0, "finalized"@)).len(),
                failed == keys.take(i as int).to_set().filter(has_status(m0, "failed"@)).len(),
            decreases pairs@.len() - i,
        {
            let key = &pairs[i].0;
            let st = pairs[i].1.status.as_str();
            let ghost prev = keys.take(i as int).to_set();
            proof {
                assert(keys[i as int] == key@);
                assert(m0[key@].status == st@);
                assert(!prev.contains(key@)) by {
                    if prev.contains(key@) {
                        let j = choose|j: int| 0 <= j < i && keys.take(i as int)[j] == key@;
                        assert(keys[j] == keys[i as int]);
                    }
                }
                assert(keys.take(i + 1).to_set() =~= prev.insert(key@)) by {
                    assert(keys.take(i + 1) =~= keys.take(i as int).push(key@));
                    keys.take(i as int).lemma_push_to_set_commute(key@);
                }
                lemma_filter_insert_len(prev, key@, has_status(m0, "pending"@));
                lemma_filter_insert_len(prev, key@, has_status(m0, "processed"@));
                lemma_filter_insert_len(prev, key@, has_status(m0, "confirmed"@));
                lemma_filter_insert_len(prev, key@, has_status(m0, "finalized"@));
                lemma_filter_insert_len(prev, key@, has_status(m0, "failed"@));
            }
            if str_eq(st, "pending") {
                pending += 1;
            }
            if str_eq(st, "processed") {
                processed += 1;
            }
            if str_eq(st, "confirmed") {
                confirmed += 1;
            }
            if str_eq(st, "finalized") {
                finalized += 1;
            }
            if str_eq(st, "failed") {
                failed += 1;
            }
            i += 1;
        }
        proof {
            assert(keys.take(pairs@.len() as int) =~= keys);
            assert(keys.to_set() =~= m0.dom()) by {
                assert forall|k: Seq<char>| m0.contains_key(k) implies keys.to_set().contains(k) by {
                    let j = choose|j: int| 0 <= j < pairs@.len() && pairs@[j].0@ == k;
                    assert(keys[j] == k);
                }
                assert forall|k: Seq<char>| keys.to_set().contains(k) implies m0.contains_key(k) by {
                    let j = choose|j: int| 0 <= j < keys.len() && keys[j] == k;
                    assert(pairs@[j].0@ == k);
                }
            }
        }
        (pending, processed, confirmed, finalized, failed)
    }

    /// The signatures that still need confirmation, each paired with its bundle id: those of
    /// every pending or processed bundle.
    pub fn signatures_awaiting_confirmation(&self) -> (r: Vec<(String, String)>)
        requires
            self@.wf(),
        ensures
            forall|a: int|
                #![trigger r@[a]]
                0 <= a < r@.len() ==> {
                    &&& self@.entries.contains_key(r@[a].1@)
                    &&& awaiting_poll(self@.entries[r@[a].1@])
                    &&& self@.entries[r@[a].1@].signatures.contains(r@[a].0@)
                },
            forall|k: Seq<char>|
                #[trigger] self@.entries.contains_key(k) && awaiting_poll(self@.entries[k])
                    ==> signatures_listed(r@, self@.entries[k].signatures, k),
    {
        let pairs = entries_pairs(&self.entries);
        let ghost m0 = self@.entries;
        let mut out: Vec<(String, String)> = Vec::new();
        let mut i: usize = 0;
        while i < pairs.len()
            invariant
                i <= pairs@.len(),
                m0 == self@.entries,
                self@.wf(),
                forall|j: int| #![trigger pairs@[j]] 0 <= j < pairs@.len() ==> (m0.contains_key(pairs@[j].0@)
                    && m0[pairs@[j].0@] == pairs@[j].1@),
                forall|a: int|
                    #![trigger out@[a]]
                    0 <= a < out@.len() ==> {
                        &&& m0.contains_key(out@[a].1@)
                        &&& awaiting_poll(m0[out@[a].1@])
                        &&& m0[out@[a].1@].signatures.contains(out@[a].0@)
                    },
                forall|j: int|
                    #![trigger pairs@[j]]
                    0 <= j < i && awaiting_poll(pairs@[j].1@) ==> signatures_listed(
                        out@,
                        pairs@[j].1@.signatures,
                        pairs@[j].0@,
                    ),
            decreases pairs@.len() - i,
        {
            let e = &pairs[i].1;
            assert(m0.contains_key(pairs@[i as int].0@) && m0[pairs@[i as int].0@] == e@);
            let ghost before = out@;
            if str_eq(e.status.as_str(), "pending") || str_eq(e.status.as_str(), "processed") {
                let mut t: usize = 0;
                while t < e.signatures.len()
                    invariant
                        t <= e.signatures@.len(),
                        m0.contains_key(e.bundle_id@),
                        m0[e.bundle_id@] == e@,
                        awaiting_poll(e@),
                        out@.len() >= before.len(),
                        forall|a: int| 0 <= a < before.len() ==> out@[a] == before[a],
                        forall|a: int|
                            #![trigger out@[a]]
                            0 <= a < out@.len() ==> {
                                &&& m0.contains_key(out@[a].1@)
                                &&& awaiting_poll(m0[out@[a].1@])
                                &&& m0[out@[a].1@].signatures.contains(out@[a].0@)
                            },
                        signatures_listed(out@, e@.signatures.take(t as int), e@.bundle_id),
                    decreases e.signatures@.len() - t,
                {
                    let ghost prev_out = out@;
                    out.push((e.signatures[t].clone(), e.bundle_id.clone()));
                    proof {
                        let last = out@.len() - 1;
                        assert(e@.signatures[t as int] == e.signatures@[t as int]@);
                        assert(out@[last].0@ == e@.signatures[t as int]);
                        assert(e@.signatures.contains(out@[last].0@));
                        lemma_listed_extend(prev_out, out@, e@.signatures.take(t as int), e@.bundle_id);
                        assert(e@.signatures.take(t + 1) =~= e@.signatures.take(t as int).push(e@.signatures[t as int]));
                        lemma_listed_push(out@, e@.signatures.take(t as int), e@.bundle_id, last);
                    }
                    t += 1;
                }
                proof {
                    assert(e@.signatures.take(e@.signatures.len() as int) =~= e@.signatures);
                }
            }
            proof {
                assert forall|j: int|
                    #![trigger pairs@[j]]
                    0 <= j < i + 1 && awaiting_poll(pairs@[j].1@) implies signatures_listed(
                        out@,
                        pairs@[j].1@.signatures,
                        pairs@[j].0@,
                    ) by {
                    if j < i {
                        lemma_listed_extend(before, out@, pairs@[j].1@.signatures, pairs@[j].0@);
                    } else {
                        assert(pairs@[j].0@ == e@.bundle_id);
                    }
                }
            }
            i += 1;
        }
        proof {
            assert forall|k: Seq<char>|
                #[trigger] self@.entries.contains_key(k) && awaiting_poll(self@.entries[k])
                    implies signatures_listed(out@, self@.entries[k].signatures, k) by {
                assert(lifecycle_entries(self.entries).contains_key(k));
                let j = choose|j: int| 0 <= j < pairs@.len() && pairs@[j].0@ == k;
                assert(pairs@[j] == pairs@[j]);
            }
        }
        out
    }

    /// Copies of all lifecycle entries (for persisting them), each once, in the map's
    /// iteration order.
    pub fn entries(&self) -> (r: Vec<LifecycleEntry>)
        requires
            self@.wf(),
        ensures
            r@.len() == self@.entries.dom().len(),
            r@.map_values(|e: LifecycleEntry| e@.bundle_id).no_duplicates(),
            forall|a: int|
                #![trigger r@[a]]
                0 <= a < r@.len() ==> self@.entries.contains_key(r@[a]@.bundle_id)
                    && self@.entries[r@[a]@.bundle_id] == r@[a]@,
            forall|k: Seq<char>| #[trigger] self@.entries.contains_key(k) ==> exists|a: int|
                0 <= a < r@.len() && r@[a]@ == self@.entries[k],
            lists_entries(r@.map_values(|e: LifecycleEntry| e@), self@.entries),
    {
        let pairs = entries_pairs(&self.entries);
        let ghost m0 = self@.entries;
        let ghost keys = pairs@.map_values(|p: (String, LifecycleEntry)| p.0@);
        let mut out: Vec<LifecycleEntry> = Vec::new();
        let mut i: usize = 0;
        while i < pairs.len()
            invariant
                i <= pairs@.len(),
                m0 == self@.entries,
                keys == pairs@.map_values(|p: (String, LifecycleEntry)| p.0@),
                forall|j: int| #![trigger pairs@[j]] 0 <= j < pairs@.len() ==> (m0.contains_key(pairs@[j].0@)
                    && m0[pairs@[j].0@] == pairs@[j].1@),
                out@.len() == i,
                forall|a: int| #![trigger out@[a]] 0 <= a < i ==> out@[a]@ == pairs@[a].1@,
            decreases pairs@.len() - i,
        {
            out.push(pairs[i].1.clone());
            i += 1;
        }
        proof {
            assert forall|a: int| #![trigger out@[a]] 0 <= a < out@.len() implies self@.entries.contains_key(out@[a]@.bundle_id)
                && self@.entries[out@[a]@.bundle_id] == out@[a]@ by {
                assert(pairs@[a] == pairs@[a]);
                assert(m0.contains_key(pairs@[a].0@));
                assert(out@[a]@ == pairs@[a].1@);
            }
            assert forall|k: Seq<char>| #[trigger] self@.entries.contains_key(k) implies exists|a: int|
                0 <= a < out@.len() && out@[a]@ == self@.entries[k] by {
                assert(lifecycle_entries(self.entries).contains_key(k));
                let j = choose|j: int| 0 <= j < pairs@.len() && pairs@[j].0@ == k;
                assert(pairs@[j] == pairs@[j]);
                assert(out@[j]@ == pairs@[j].1@);
            }
            let bids = out@.map_values(|e: LifecycleEntry| e@.bundle_id);
            assert(bids =~= keys) by {
                assert forall|a: int| 0 <= a < bids.len() implies bids[a] == keys[a] by {
                    assert(pairs@[a] == pairs@[a]);
                    assert(m0.contains_key(pairs@[a].0@));
                }
            }
            let views = out@.map_values(|e: LifecycleEntry| e@);
            assert(views.map_values(|e: LifecycleEntryView| e.bundle_id) =~= bids);
            assert forall|a: int| 0 <= a < views.len() implies m0.contains_key((#[trigger] views[a]).bundle_id)
                && m0[views[a].bundle_id] == views[a] by {
                assert(views[a] == out@[a]@);
                assert(out@[a] == out@[a]);
            }
            assert forall|k: Seq<char>| #[trigger] m0.contains_key(k) implies exists|a: int|
                0 <= a < views.len() && views[a] == m0[k] by {
                let a = choose|a: int| 0 <= a < out@.len() && out@[a]@ == m0[k];
                assert(views[a] == out@[a]@);
            }
        }
        out
    }

    /// The file the lifecycle entries are persisted to.
    pub fn log_file(&self) -> (r: &str)
        ensures
            r@ == self@.log_file,
    {
        self.log_file.as_str()
    }

    /// Whether any bundle has not reached a final state.
    pub fn has_pending_bundles(&self) -> (r: bool)
        ensures
            r == exists|k: Seq<char>| #[trigger] self@.entries.contains_key(k) && awaiting_finality(self@.entries[k]),
    {
        let pairs = entries_pairs(&self.entries);
        let ghost m = self@.entries;
        assert(m == lifecycle_entries(self.entries));
        let mut i: usize = 0;
        while i < pairs.len()
            invariant
                i <= pairs@.len(),
                m == lifecycle_entries(self.entries),
                forall|j: int| #![trigger pairs@[j]] 0 <= j < pairs@.len() ==> (lifecycle_entries(self.entries).contains_key(pairs@[j].0@)
                    && lifecycle_entries(self.entries)[pairs@[j].0@] == pairs@[j].1@),
                forall|j: int| 0 <= j < i ==> !awaiting_finality(#[trigger] pairs@[j].1@),
            decreases pairs@.len() - i,
        {
            let e = &pairs[i].1;
            if str_eq(e.status.as_str(), "pending") || str_eq(e.status.as_str(), "processed")
                || str_eq(e.status.as_str(), "confirmed") {
                assert(self@.entries.contains_key(pairs@[i as int].0@));
                return true;
            }
            i += 1;
        }
        assert forall|k: Seq<char>| #[trigger] self@.entries.contains_key(k) implies !awaiting_finality(self@.entries[k]) by {
            let j = choose|j: int| 0 <= j < pairs@.len() && pairs@[j].0@ == k;
            assert(self@.entries.contains_key(pairs@[j].0@));
            assert(self@.entries[k] == pairs@[j].1@);
        }
        false
    }

    /// Update the commitment status of a bundle from an observation at `slot` whose block
    /// time is `block_time_sec`, as [`Self::update_status_at`] does at the current time.
    pub fn update_status(
        &mut self,
        bundle_id: &str,
        commitment: &str,
        slot: u64,
        block_time_sec: i64,
    ) -> (ev: Option<OperationalEvent>)
        requires
            old(self)@.wf(),
        ensures
            final(self)@.wf(),
            exists|now: UtcTime|
                now.nanos < 1_000_000_000 && in_utc_range(now.secs as int) && final(self)@ == (TrackerView {
                    entries: entries_after_update(
                        old(self)@.entries,
                        bundle_id@,
                        commitment@,
                        slot,
                        block_time_sec,
                        now,
                    ),
                    ..old(self)@
                }) && update_event(
                    ev,
                    old(self)@.entries,
                    bundle_id@,
                    commitment@,
                    slot,
                    block_time_sec,
                    now,
                ),
    {
        let now = current_time();
        self.update_status_at(bundle_id, commitment, slot, block_time_sec, now)
    }
}

} // verus!
