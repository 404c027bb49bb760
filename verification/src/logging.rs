use vstd::prelude::*;

use crate::time::UtcTime;

verus! {

#[allow(inconsistent_fields)]
/// Structured operational events for the JSONL audit log.
///
/// Numbers that the log keeps as floating point (a congestion factor, a confidence, a
/// message rate) are carried here as the bit patterns of their IEEE-754 doubles.
pub enum OperationalEvent {
    /// System startup with configuration summary.
    SystemStartup {
        timestamp: UtcTime,
        network: String,
        rpc_url: String,
        jito_url: String,
        yellowstone_endpoint: String,
        ai_primary_provider: String,
        ai_fallback_provider: Option<String>,
        payer_pubkey: String,
        jito_validator_count: usize,
    },
    /// A bundle was successfully submitted to the Jito Block Engine.
    BundleSubmitted {
        timestamp: UtcTime,
        bundle_id: String,
        slot: u64,
        block_height: Option<u64>,
        tip_lamports: u64,
        signatures: Vec<String>,
        memo: String,
        fault_injection: Option<String>,
    },
    /// A transaction commitment level was observed (processed/confirmed/finalized).
    CommitmentUpdate {
        timestamp: UtcTime,
        bundle_id: String,
        commitment: String,
        slot: u64,
        latency_ms: Option<i64>,
    },
    /// A failure was detected (blockhash expiry, transaction error, etc.).
    FailureDetected {
        timestamp: UtcTime,
        bundle_id: String,
        failure_type: String,
        slot: u64,
        details: String,
    },
    /// The AI agent made an autonomous decision about a failure.
    AiDecision {
        timestamp: UtcTime,
        bundle_id: String,
        action: String,
        reasoning: String,
        root_cause: String,
        new_tip: Option<u64>,
        wait_slots: Option<u64>,
        confidence_bits: Option<u64>,
        provider: String,
    },
    /// A dynamic tip was calculated from network data.
    TipCalculated {
        timestamp: UtcTime,
        base_lamports: u64,
        congestion_factor_bits: u64,
        result_lamports: u64,
        recent_fee_count: usize,
        p75_fee: Option<u64>,
        avg_tip_account_balance_lamports: Option<u64>,
    },
    /// A retry intent was queued by the AI agent.
    RetryQueued {
        timestamp: UtcTime,
        original_bundle_id: String,
        new_intent_id: String,
        reason: String,
        new_tip: Option<u64>,
    },
    /// The Yellowstone gRPC stream connected successfully.
    StreamConnected { timestamp: UtcTime, endpoint: String },
    /// The Yellowstone gRPC stream disconnected.
    StreamDisconnected {
        timestamp: UtcTime,
        endpoint: String,
        backoff_secs: u64,
        reconnection_count: u64,
    },
    /// A slot was observed from the stream (sampled — not every slot is logged).
    SlotObserved {
        timestamp: UtcTime,
        slot: u64,
        block_height: Option<u64>,
        leader: Option<String>,
        is_jito_window: bool,
    },
    /// A bundle submission attempt failed at the HTTP/RPC level.
    SubmissionError { timestamp: UtcTime, intent_id: String, error: String, slot: u64 },
    /// Bundle status retrieved from Jito's getBundleStatuses API.
    BundleStatusUpdate {
        timestamp: UtcTime,
        bundle_id: String,
        status: String,
        landed_slot: Option<u64>,
    },
    /// Stream health metrics report (emitted periodically).
    StreamHealth {
        timestamp: UtcTime,
        messages_per_sec_bits: u64,
        total_slot_updates: u64,
        total_tx_updates: u64,
        messages_dropped: u64,
        reconnection_count: u64,
    },
    /// A lifecycle state transition of a tracked transaction.
    TransactionEvent {
        transaction_id: String,
        slot: u64,
        block_height: Option<u64>,
        timestamp: UtcTime,
        lifecycle_state: String,
        latency_delta_ms: Option<i64>,
        previous_state: String,
        next_state: String,
        state_transition_valid: bool,
        transition_reason: String,
        details: Option<String>,
    },
}

/// `ev` is the lifecycle transition event with these contents; its next state is the
/// lifecycle state and the transition is marked valid.
pub open spec fn is_transaction_event(
    ev: OperationalEvent,
    transaction_id: Seq<char>,
    slot: u64,
    block_height: Option<u64>,
    timestamp: UtcTime,
    state: Seq<char>,
    latency_delta_ms: Option<i64>,
    previous_state: Seq<char>,
    reason: Seq<char>,
    details: Seq<char>,
) -> bool {
    match ev {
        OperationalEvent::TransactionEvent {
            transaction_id: t,
            slot: s,
            block_height: b,
            timestamp: ts,
            lifecycle_state: l,
            latency_delta_ms: d,
            previous_state: p,
            next_state: n,
            state_transition_valid: v,
            transition_reason: r,
            details: x,
        } => {
            &&& t@ == transaction_id
            &&& s == slot
            &&& b == block_height
            &&& ts == timestamp
            &&& l@ == state
            &&& d == latency_delta_ms
            &&& p@ == previous_state
            &&& n@ == state
            &&& v
            &&& r@ == reason
            &&& x matches Some(xs) && xs@ == details
        },
        _ => false,
    }
}

/// `ev` reports a classified failure with these contents.
pub open spec fn is_failure_event(
    ev: OperationalEvent,
    timestamp: UtcTime,
    bundle_id: Seq<char>,
    failure_type: Seq<char>,
    slot: u64,
    details: Seq<char>,
) -> bool {
    match ev {
        OperationalEvent::FailureDetected {
            timestamp: ts,
            bundle_id: b,
            failure_type: f,
            slot: s,
            details: d,
        } => ts == timestamp && b@ == bundle_id && f@ == failure_type && s == slot && d@ == details,
        _ => false,
    }
}

} // verus!
