use vstd::prelude::*;
use vstd::string::*;

use crate::time::{current_time, in_utc_range, UtcTime};

verus! {

/// The view of an optional string.
pub open spec fn opt_str_view(s: Option<String>) -> Option<Seq<char>> {
    match s {
        Some(x) => Some(x@),
        None => None,
    }
}

/// The view of a list of strings.
pub open spec fn strs_view(v: Seq<String>) -> Seq<Seq<char>> {
    v.map_values(|s: String| s@)
}

/// A copy of an optional string.
pub fn clone_opt_string(s: &Option<String>) -> (r: Option<String>)
    ensures
        opt_str_view(r) == opt_str_view(*s),
{
    match s {
        Some(x) => Some(x.clone()),
        None => None,
    }
}

/// A copy of a list of strings.
pub fn clone_strings(v: &Vec<String>) -> (r: Vec<String>)
    ensures
        strs_view(r@) == strs_view(v@),
{
    let mut r: Vec<String> = Vec::new();
    let mut i: usize = 0;
    while i < v.len()
        invariant
            i <= v@.len(),
            r@.len() == i,
            forall|k: int| 0 <= k < i ==> (#[trigger] r@[k])@ == v@[k]@,
        decreases v@.len() - i,
    {
        r.push(v[i].clone());
        i += 1;
    }
    assert(strs_view(r@) =~= strs_view(v@));
    r
}

/// A single recorded AI decision, stored on the lifecycle entry for audit purposes.
///
/// The decision's confidence (a number between 0 and 1) is kept as the bit pattern of its
/// IEEE-754 double, so that the record carries it unchanged.
pub struct AiDecisionRecord {
    pub timestamp: UtcTime,
    pub action: String,
    pub reasoning: String,
    pub root_cause: String,
    pub new_tip: Option<u64>,
    pub confidence_bits: Option<u64>,
}

pub struct AiDecisionRecordView {
    pub timestamp: UtcTime,
    pub action: Seq<char>,
    pub reasoning: Seq<char>,
    pub root_cause: Seq<char>,
    pub new_tip: Option<u64>,
    pub confidence_bits: Option<u64>,
}

impl View for AiDecisionRecord {
    type V = AiDecisionRecordView;

    open spec fn view(&self) -> AiDecisionRecordView {
        AiDecisionRecordView {
            timestamp: self.timestamp,
            action: self.action@,
            reasoning: self.reasoning@,
            root_cause: self.root_cause@,
            new_tip: self.new_tip,
            confidence_bits: self.confidence_bits,
        }
    }
}

impl Clone for AiDecisionRecord {
    fn clone(&self) -> (r: Self)
        ensures
            r@ == self@,
    {
        AiDecisionRecord {
            timestamp: self.timestamp,
            action: self.action.clone(),
            reasoning: self.reasoning.clone(),
            root_cause: self.root_cause.clone(),
            new_tip: self.new_tip,
            confidence_bits: self.confidence_bits,
        }
    }
}

/// The view of a list of AI decision records.
pub open spec fn records_view(v: Seq<AiDecisionRecord>) -> Seq<AiDecisionRecordView> {
    v.map_values(|r: AiDecisionRecord| r@)
}

/// A copy of a list of AI decision records.
pub fn clone_records(v: &Vec<AiDecisionRecord>) -> (r: Vec<AiDecisionRecord>)
    ensures
        records_view(r@) == records_view(v@),
{
    let mut r: Vec<AiDecisionRecord> = Vec::new();
    let mut i: usize = 0;
    while i < v.len()
        invariant
            i <= v@.len(),
            r@.len() == i,
            forall|k: int| 0 <= k < i ==> (#[trigger] r@[k])@ == v@[k]@,
        decreases v@.len() - i,
    {
        r.push(v[i].clone());
        i += 1;
    }
    assert(records_view(r@) =~= records_view(v@));
    r
}

/// Full lifecycle record for a single bundle submission.
pub struct LifecycleEntry {
    pub intent_id: String,
    pub bundle_id: String,
    // ── Submission ───────────────────────────────────────────────
    pub slot_submitted: u64,
    pub block_height_submitted: Option<u64>,
    pub submitted_at: UtcTime,
    // ── Processed (execution confirmed by validator) ─────────────
    pub processed_at: Option<UtcTime>,
    pub processed_slot: Option<u64>,
    // ── Confirmed (supermajority vote) ───────────────────────────
    pub confirmed_at: Option<UtcTime>,
    pub confirmed_slot: Option<u64>,
    // ── Finalized (rooted, irreversible) ─────────────────────────
    pub finalized_at: Option<UtcTime>,
    pub finalized_slot: Option<u64>,
    // ── Tip & status ─────────────────────────────────────────────
    pub tip_lamports: u64,
    /// Current status: "pending" | "processed" | "confirmed" | "finalized" | "failed"
    pub status: String,
    pub failure_type: Option<String>,
    // ── Latency deltas (milliseconds) ────────────────────────────
    pub latency_processed_ms: Option<i64>,
    /// submitted → confirmed
    pub latency_confirmed_ms: Option<i64>,
    /// submitted → finalized
    pub latency_finalized_ms: Option<i64>,
    /// processed → confirmed (network health indicator)
    pub latency_processed_to_confirmed_ms: Option<i64>,
    // ── Expiry & retry tracking ──────────────────────────────────
    pub last_valid_block_height: Option<u64>,
    pub retry_count: u32,
    pub signatures: Vec<String>,
    pub history_summary: String,
    // ── AI decision audit trail ──────────────────────────────────
    pub ai_decisions: Vec<AiDecisionRecord>,
}

/// The mathematical content of a [`LifecycleEntry`].
pub struct LifecycleEntryView {
    pub intent_id: Seq<char>,
    pub bundle_id: Seq<char>,
    pub slot_submitted: u64,
    pub block_height_submitted: Option<u64>,
    pub submitted_at: UtcTime,
    pub processed_at: Option<UtcTime>,
    pub processed_slot: Option<u64>,
    pub confirmed_at: Option<UtcTime>,
    pub confirmed_slot: Option<u64>,
    pub finalized_at: Option<UtcTime>,
    pub finalized_slot: Option<u64>,
    pub tip_lamports: u64,
    pub status: Seq<char>,
    pub failure_type: Option<Seq<char>>,
    pub latency_processed_ms: Option<i64>,
    pub latency_confirmed_ms: Option<i64>,
    pub latency_finalized_ms: Option<i64>,
    pub latency_processed_to_confirmed_ms: Option<i64>,
    pub last_valid_block_height: Option<u64>,
    pub retry_count: u32,
    pub signatures: Seq<Seq<char>>,
    pub history_summary: Seq<char>,
    pub ai_decisions: Seq<AiDecisionRecordView>,
}

impl View for LifecycleEntry {
    type V = LifecycleEntryView;

    open spec fn view(&self) -> LifecycleEntryView {
        LifecycleEntryView {
            intent_id: self.intent_id@,
            bundle_id: self.bundle_id@,
            slot_submitted: self.slot_submitted,
            block_height_submitted: self.block_height_submitted,
            submitted_at: self.submitted_at,
            processed_at: self.processed_at,
            processed_slot: self.processed_slot,
            confirmed_at: self.confirmed_at,
            confirmed_slot: self.confirmed_slot,
            finalized_at: self.finalized_at,
            finalized_slot: self.finalized_slot,
            tip_lamports: self.tip_lamports,
            status: self.status@,
            failure_type: opt_str_view(self.failure_type),
            latency_processed_ms: self.latency_processed_ms,
            latency_confirmed_ms: self.latency_confirmed_ms,
            latency_finalized_ms: self.latency_finalized_ms,
            latency_processed_to_confirmed_ms: self.latency_processed_to_confirmed_ms,
            last_valid_block_height: self.last_valid_block_height,
            retry_count: self.retry_count,
            signatures: strs_view(self.signatures@),
            history_summary: self.history_summary@,
            ai_decisions: records_view(self.ai_decisions@),
        }
    }
}

impl Clone for LifecycleEntry {
    fn clone(&self) -> (r: Self)
        ensures
            r@ == self@,
    {
        LifecycleEntry {
            intent_id: self.intent_id.clone(),
            bundle_id: self.bundle_id.clone(),
            slot_submitted: self.slot_submitted,
            block_height_submitted: self.block_height_submitted,
            submitted_at: self.submitted_at,
            processed_at: self.processed_at,
            processed_slot: self.processed_slot,
            confirmed_at: self.confirmed_at,
            confirmed_slot: self.confirmed_slot,
            finalized_at: self.finalized_at,
            finalized_slot: self.finalized_slot,
            tip_lamports: self.tip_lamports,
            status: self.status.clone(),
            failure_type: clone_opt_string(&self.failure_type),
            latency_processed_ms: self.latency_processed_ms,
            latency_confirmed_ms: self.latency_confirmed_ms,
            latency_finalized_ms: self.latency_finalized_ms,
            latency_processed_to_confirmed_ms: self.latency_processed_to_confirmed_ms,
            last_valid_block_height: self.last_valid_block_height,
            retry_count: self.retry_count,
            signatures: clone_strings(&self.signatures),
            history_summary: self.history_summary.clone(),
            ai_decisions: clone_records(&self.ai_decisions),
        }
    }
}

impl LifecycleEntry {
    /// A fresh entry submitted at `now`: every text empty, every count zero, every optional
    /// field absent and the status "pending".
    pub fn default_at(now: UtcTime) -> (e: LifecycleEntry)
        ensures
            e@ == default_entry_view(now),
    {
        let e = LifecycleEntry {
            intent_id: String::new(),
            bundle_id: String::new(),
            slot_submitted: 0,
            block_height_submitted: None,
            submitted_at: now,
            processed_at: None,
            processed_slot: None,
            confirmed_at: None,
            confirmed_slot: None,
            finalized_at: None,
            finalized_slot: None,
            tip_lamports: 0,
            status: String::from_str("pending"),
            failure_type: None,
            latency_processed_ms: None,
            latency_confirmed_ms: None,
            latency_finalized_ms: None,
            latency_processed_to_confirmed_ms: None,
            last_valid_block_height: None,
            retry_count: 0,
            signatures: Vec::new(),
            history_summary: String::new(),
            ai_decisions: Vec::new(),
        };
        assert(strs_view(e.signatures@) =~= Seq::empty());
        assert(records_view(e.ai_decisions@) =~= Seq::empty());
        e
    }
}

/// The entry that [`LifecycleEntry::default_at`] gives for `now`.
pub open spec fn default_entry_view(now: UtcTime) -> LifecycleEntryView {
    LifecycleEntryView {
        intent_id: Seq::empty(),
        bundle_id: Seq::empty(),
        slot_submitted: 0,
        block_height_submitted: None,
        submitted_at: now,
        processed_at: None,
        processed_slot: None,
        confirmed_at: None,
        confirmed_slot: None,
        finalized_at: None,
        finalized_slot: None,
        tip_lamports: 0,
        status: "pending"@,
        failure_type: None,
        latency_processed_ms: None,
        latency_confirmed_ms: None,
        latency_finalized_ms: None,
        latency_processed_to_confirmed_ms: None,
        last_valid_block_height: None,
        retry_count: 0,
        signatures: Seq::empty(),
        history_summary: Seq::empty(),
        ai_decisions: Seq::empty(),
    }
}

impl Default for LifecycleEntry {
    /// A fresh "pending" entry submitted now.
    fn default() -> (e: Self)
        ensures
            e@.submitted_at.nanos < 1_000_000_000,
            in_utc_range(e@.submitted_at.secs as int),
            e@ == default_entry_view(e@.submitted_at),
    {
        LifecycleEntry::default_at(current_time())
    }
}

} // verus!
