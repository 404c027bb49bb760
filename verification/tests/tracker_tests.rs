use smart_tx_stack::engine::retry::{expiry_step, submission_due, ExpiryAction};
use smart_tx_stack::engine::tracker::{
    signature_status_action, LifecycleTracker, SignatureStatusAction, MAX_RETRIES,
};
use smart_tx_stack::types::ai::AgentDecision;
use smart_tx_stack::logging::OperationalEvent;
use smart_tx_stack::time::UtcTime;
use smart_tx_stack::types::lifecycle::LifecycleEntry;

fn now() -> UtcTime {
    let t = chrono::Utc::now();
    UtcTime { secs: t.timestamp(), nanos: t.timestamp_subsec_nanos() }
}

fn at(secs: i64) -> UtcTime {
    UtcTime { secs, nanos: 0 }
}

fn tracker_with_bundle(bundle: &str, sig: &str, slot: u64, last_valid: u64, now: UtcTime) -> LifecycleTracker {
    let mut t = LifecycleTracker::new("test_lifecycle_logs.json", Vec::new());
    t.record_submission_at(
        now,
        "intent_1".to_string(),
        bundle.to_string(),
        slot,
        150000,
        vec![sig.to_string()],
        last_valid,
        0,
        "".to_string(),
        None,
    );
    t
}

#[test]
fn tests_test_classify_failure() {
    assert_eq!(
        LifecycleTracker::classify_failure("InstructionError: ComputationalBudgetExceeded"),
        "compute_exceeded"
    );
    assert_eq!(LifecycleTracker::classify_failure("BlockhashNotFound"), "expired_blockhash");
    assert_eq!(
        LifecycleTracker::classify_failure("InsufficientFundsForRent"),
        "insufficient_funds"
    );
    assert_eq!(
        LifecycleTracker::classify_failure("Fee too low"),
        "insufficient_priority_fee"
    );
    assert_eq!(
        LifecycleTracker::classify_failure("Some unknown error occurred"),
        "unknown_failure"
    );
}

#[test]
fn test_advance_commitments_by_slot() {
    let mut tracker = LifecycleTracker::new("test_lifecycle_logs.json", Vec::new());
    tracker.record_submission(
        "intent_1".to_string(),
        "bundle_1".to_string(),
        100,
        150000,
        vec!["sig1".to_string()],
        200,
        0,
        "".to_string(),
        None,
    );

    let bt = tracker.resolve_block_time(102, None);
    tracker.update_status("bundle_1", "processed", 102, bt);
    let entry = tracker.get_entry_by_sig("sig1").unwrap();
    assert_eq!(entry.status, "processed");
    assert_eq!(entry.processed_slot, Some(102));

    let rows = tracker.commitment_advances(105, 1);
    let answers = vec![None; rows.len()];
    tracker.advance_commitments_by_slot(&rows, &answers, now());
    let entry = tracker.get_entry_by_sig("sig1").unwrap();
    assert_eq!(entry.status, "confirmed");
}

#[test]
fn classify_failure_covers_every_category() {
    let cases = [
        ("Transaction simulation failed: Blockhash not found", "expired_blockhash"),
        ("blockhash expired", "expired_blockhash"),
        ("Transfer: insufficient lamports 10000, need 150000", "insufficient_funds"),
        ("Program failed: exceeded compute units", "compute_exceeded"),
        ("AlreadyProcessed", "already_processed"),
        ("Bundle rejected by block engine", "bundle_failure"),
        ("packet dropped", "bundle_failure"),
        ("Leader missed the slot", "leader_missed"),
        ("RPC error: 503 Service Unavailable", "rpc_failure"),
        ("HTTP 429", "rpc_failure"),
        ("request timeout", "network_timeout"),
        ("deadline exceeded", "network_timeout"),
        ("priority fee insufficient", "insufficient_priority_fee"),
        ("Transaction simulation failed: custom", "simulation_failure"),
        ("Program Error: custom 0x1", "simulation_failure"),
        ("AccountInUse", "account_error"),
        ("AccountNotFound", "account_error"),
        ("", "unknown_failure"),
    ];
    for (msg, expected) in cases {
        assert_eq!(LifecycleTracker::classify_failure(msg), expected, "{}", msg);
    }
}

#[test]
fn classify_failure_ignores_case() {
    assert_eq!(LifecycleTracker::classify_failure("BLOCKHASH EXPIRED"), "expired_blockhash");
    assert_eq!(LifecycleTracker::classify_failure("TIMEOUT"), "network_timeout");
}

#[test]
fn record_submission_indexes_signatures() {
    let t = tracker_with_bundle("bundle_1", "sig1", 100, 200, at(1000));
    let e = t.get_entry_by_sig("sig1").unwrap();
    assert_eq!(e.bundle_id, "bundle_1");
    assert_eq!(e.intent_id, "intent_1");
    assert_eq!(e.status, "pending");
    assert_eq!(e.slot_submitted, 100);
    assert_eq!(e.tip_lamports, 150000);
    assert_eq!(e.last_valid_block_height, Some(200));
    assert_eq!(e.submitted_at, at(1000));
    assert!(t.get_entry_by_sig("other").is_none());
}

#[test]
fn update_records_each_commitment_once_with_latencies() {
    let mut t = tracker_with_bundle("b", "s", 100, 200, at(1000));
    let ev = t.update_status_at("b", "processed", 102, 1002, at(5000));
    match ev {
        Some(OperationalEvent::TransactionEvent { lifecycle_state, latency_delta_ms, previous_state, .. }) => {
            assert_eq!(lifecycle_state, "processed");
            assert_eq!(previous_state, "pending");
            assert_eq!(latency_delta_ms, Some(2000));
        }
        _ => panic!("expected a lifecycle event"),
    }
    let e = t.get_entry_by_sig("s").unwrap();
    assert_eq!(e.processed_at, Some(at(1002)));
    assert_eq!(e.latency_processed_ms, Some(2000));

    t.update_status_at("b", "confirmed", 103, 1003, at(5000));
    let e = t.get_entry_by_sig("s").unwrap();
    assert_eq!(e.status, "confirmed");
    assert_eq!(e.confirmed_slot, Some(103));
    assert_eq!(e.latency_confirmed_ms, Some(3000));
    assert_eq!(e.latency_processed_to_confirmed_ms, Some(1000));

    // A second "processed" observation neither downgrades nor re-records.
    let ev = t.update_status_at("b", "processed", 110, 1010, at(5000));
    assert!(ev.is_none());
    let e = t.get_entry_by_sig("s").unwrap();
    assert_eq!(e.status, "confirmed");
    assert_eq!(e.processed_slot, Some(102));
}

#[test]
fn block_time_before_submission_is_moved_forward_by_slots() {
    let mut t = tracker_with_bundle("b", "s", 100, 200, at(1000));
    t.update_status_at("b", "processed", 105, 990, at(5000));
    let e = t.get_entry_by_sig("s").unwrap();
    assert_eq!(e.processed_at, Some(at(1002)));
    assert_eq!(e.latency_processed_ms, Some(2000));
}

#[test]
fn failed_bundle_takes_no_commitment() {
    let mut t = tracker_with_bundle("b", "s", 100, 200, at(1000));
    let ev = t.update_status_failed_at("b", "BlockhashNotFound", 101, at(1001));
    match ev {
        Some(OperationalEvent::FailureDetected { failure_type, slot, details, .. }) => {
            assert_eq!(failure_type, "expired_blockhash");
            assert_eq!(slot, 101);
            assert_eq!(details, "BlockhashNotFound");
        }
        _ => panic!("expected a failure event"),
    }
    assert!(t.update_status_failed_at("b", "timeout", 102, at(1002)).is_none());
    assert!(t.update_status_at("b", "confirmed", 103, 1003, at(1003)).is_none());
    let e = t.get_entry_by_sig("s").unwrap();
    assert_eq!(e.status, "failed");
    assert_eq!(e.failure_type.as_deref(), Some("expired_blockhash"));
    assert!(e.confirmed_at.is_none());
}

#[test]
fn unknown_signature_changes_nothing() {
    let mut t = tracker_with_bundle("b", "s", 100, 200, at(1000));
    assert!(t.update_status_by_sig("nope", "processed", 101, 1001).is_none());
    assert!(t.update_failure_by_sig("nope", "timeout", 101).is_none());
    assert_eq!(t.get_entry_by_sig("s").unwrap().status, "pending");
    t.update_failure_by_sig("s", "request timeout", 101);
    let e = t.get_entry_by_sig("s").unwrap();
    assert_eq!(e.failure_type.as_deref(), Some("network_timeout"));
}

#[test]
fn expiry_is_strictly_past_last_valid_height() {
    let mut t = tracker_with_bundle("b", "s", 1000, 1150, at(1000));
    assert!(t.check_expiries_at(1150, at(1002)).is_empty());
    let rows = t.check_expiries_at(1151, at(1002));
    assert_eq!(rows.len(), 1);
    let (intent, bundle, slot, tip, latency, retries, history) = &rows[0];
    assert_eq!(intent, "intent_1");
    assert_eq!(bundle, "b");
    assert_eq!(*slot, 1000);
    assert_eq!(*tip, 150000);
    assert_eq!(*latency, 2000);
    assert_eq!(*retries, 0);
    assert_eq!(history, "");
    let e = t.get_entry_by_sig("s").unwrap();
    assert_eq!(e.status, "failed");
    assert_eq!(e.failure_type.as_deref(), Some("expired_blockhash"));
    // An expired bundle is reported once.
    assert!(t.check_expiries_at(1200, at(1003)).is_empty());
}

#[test]
fn stats_and_pending_follow_statuses() {
    let mut t = LifecycleTracker::new("x.json", Vec::new());
    assert!(!t.has_pending_bundles());
    for (b, s) in [("b1", "s1"), ("b2", "s2"), ("b3", "s3")] {
        t.record_submission_at(at(1000), "i".to_string(), b.to_string(), 10, 1, vec![s.to_string()], 50, 0, String::new(), None);
    }
    t.update_status_at("b2", "finalized", 12, 1001, at(1001));
    t.record_failure("b3", "bundle_failure".to_string());
    assert_eq!(t.get_stats(), (1, 0, 0, 1, 1));
    assert!(t.has_pending_bundles());
    let waiting = t.signatures_awaiting_confirmation();
    assert_eq!(waiting, vec![("s1".to_string(), "b1".to_string())]);
    t.record_failure("b1", "bundle_failure".to_string());
    assert!(!t.has_pending_bundles());
    assert_eq!(t.entries().len(), 3);
}

#[test]
fn loaded_entries_are_indexed() {
    let mut e = LifecycleEntry::default_at(at(1000));
    e.bundle_id = "old".to_string();
    e.signatures = vec!["a".to_string(), "b".to_string()];
    e.status = "confirmed".to_string();
    let t = LifecycleTracker::new("x.json", vec![e]);
    assert_eq!(t.log_file(), "x.json");
    assert_eq!(t.get_entry_by_sig("b").unwrap().bundle_id, "old");
    assert_eq!(t.get_stats(), (0, 0, 1, 0, 0));
}

#[test]
fn block_time_cache_evicts_when_full() {
    let mut t = LifecycleTracker::new("x.json", Vec::new());
    assert_eq!(t.resolve_block_time(7, Some(77)), 77);
    assert_eq!(t.cached_block_time(7), Some(77));
    for slot in 0..1001u64 {
        t.remember_block_time(1000 + slot, slot as i64);
    }
    // The cache held 1001 times: the next insertion evicts 200 of them first.
    t.remember_block_time(5000, 1);
    let kept = (0..6000u64).filter(|s| t.cached_block_time(*s).is_some()).count();
    assert_eq!(kept, 803);
    assert_eq!(t.cached_block_time(5000), Some(1));
}

#[test]
fn classify_lowercase_takes_text_as_it_is() {
    assert_eq!(LifecycleTracker::classify_lowercase("blockhashnotfound"), "expired_blockhash");
    assert_eq!(LifecycleTracker::classify_lowercase("BlockhashNotFound"), "unknown_failure");
    assert_eq!(LifecycleTracker::classify_lowercase("fee too low"), "insufficient_priority_fee");
}

fn decision(action: &str, tip: Option<u64>) -> AgentDecision {
    AgentDecision {
        reasoning: "r".to_string(),
        root_cause: "stale blockhash".to_string(),
        action: action.to_string(),
        new_tip_lamports: tip,
        wait_slots: None,
        confidence_bits: None,
    }
}

#[test]
fn expiry_step_follows_the_agent_within_the_cap() {
    assert_eq!(MAX_RETRIES, 3);
    assert!(matches!(expiry_step(3, 10_000, "", None), ExpiryAction::Abandon));
    assert!(matches!(expiry_step(0, 10_000, "", Some(decision("abort", None))), ExpiryAction::Stop));
    assert!(matches!(expiry_step(1, 10_000, "", Some(decision("wait", None))), ExpiryAction::Stop));
    assert!(matches!(expiry_step(1, 10_000, "", Some(decision("escalate", Some(1)))), ExpiryAction::Stop));
    assert!(matches!(
        expiry_step(1, 10_000, "", Some(decision("retry_higher_tip", Some(30_000)))),
        ExpiryAction::Retry { retries: 2, override_tip: Some(30_000), .. }
    ));
    match expiry_step(1, 10_000, "1: x -> y; ", Some(decision("refresh_blockhash", Some(20_000)))) {
        ExpiryAction::Retry { retries, override_tip, history, reason } => {
            assert_eq!(retries, 2);
            assert_eq!(override_tip, Some(20_000));
            assert_eq!(history, "1: x -> y; 2: stale blockhash -> refresh_blockhash; ");
            assert_eq!(reason, "stale blockhash");
        }
        _ => panic!("expected a retry"),
    }
    match expiry_step(2, 10_000, "", None) {
        ExpiryAction::Retry { retries, override_tip, history, .. } => {
            assert_eq!(retries, 3);
            assert_eq!(override_tip, Some(15_000));
            assert_eq!(history, "3: AI unavailable -> retry_higher_tip; ");
        }
        _ => panic!("expected a retry"),
    }
}

#[test]
fn submissions_fall_on_every_tenth_slot_in_a_window() {
    assert!(submission_due(120, true));
    assert!(!submission_due(121, true));
    assert!(!submission_due(120, false));
}

#[test]
fn status_replies_map_to_actions() {
    assert!(matches!(
        signature_status_action(Some("InstructionError(0, Custom(1))".to_string()), Some("Processed".to_string())),
        SignatureStatusAction::MarkFailed(e) if e == "InstructionError(0, Custom(1))"
    ));
    assert!(matches!(
        signature_status_action(None, Some("Finalized".to_string())),
        SignatureStatusAction::Update(c) if c == "finalized"
    ));
    assert!(matches!(signature_status_action(None, None), SignatureStatusAction::Nothing));
}

#[test]
fn advance_plan_is_applied_with_given_block_times() {
    let mut t = tracker_with_bundle("b", "s", 100, 200, at(1000));
    t.update_status_at("b", "processed", 102, 1002, at(5000));
    let rows = t.commitment_advances(110, 2);
    assert_eq!(rows, vec![("b".to_string(), "finalized".to_string(), 102)]);
    let evs = t.apply_commitment_advances(&rows, &vec![1004], at(5000));
    assert_eq!(evs.len(), 1);
    let e = t.get_entry_by_sig("s").unwrap();
    assert_eq!(e.status, "finalized");
    assert_eq!(e.finalized_slot, Some(102));
    assert_eq!(e.latency_finalized_ms, Some(4000));
    // Nothing to advance for an unknown level.
    assert!(t.commitment_advances(110, 7).is_empty());
}

#[test]
fn failure_is_recorded_even_without_a_representable_instant() {
    let mut t = tracker_with_bundle("b", "s", 0, 200, at(1000));
    // Block time before submission and a slot gap too large to shift by.
    assert!(t.update_status_at("b", "processed", u64::MAX, 0, at(1001)).is_none());
    assert_eq!(t.get_entry_by_sig("s").unwrap().status, "pending");
    assert!(t.update_status_at("b", "failed", u64::MAX, 0, at(1001)).is_some());
    assert_eq!(t.get_entry_by_sig("s").unwrap().status, "failed");
}

#[test]
fn polling_skips_confirmed_bundles() {
    let mut t = tracker_with_bundle("b", "s", 100, 200, at(1000));
    t.update_status_at("b", "confirmed", 102, 1002, at(5000));
    assert!(t.signatures_awaiting_confirmation().is_empty());
    assert!(t.has_pending_bundles());
}

#[test]
fn saved_entries_load_back() {
    let mut t = tracker_with_bundle("b", "s", 100, 200, at(1000));
    t.update_status_at("b", "processed", 102, 1002, at(5000));
    let t2 = LifecycleTracker::new("x.json", t.entries());
    assert_eq!(t2.get_entry_by_sig("s").unwrap().processed_slot, Some(102));
    assert_eq!(t2.get_stats(), t.get_stats());
}

#[test]
fn failure_by_signature_reports_the_event() {
    let mut t = tracker_with_bundle("b", "s", 100, 200, at(1000));
    match t.update_failure_by_sig("s", "request timeout", 101) {
        Some(OperationalEvent::FailureDetected { bundle_id, failure_type, .. }) => {
            assert_eq!(bundle_id, "b");
            assert_eq!(failure_type, "network_timeout");
        }
        _ => panic!("expected a failure event"),
    }
}

#[test]
fn advance_uses_cached_then_fetched_then_current_block_times() {
    let mut t = tracker_with_bundle("a", "sa", 100, 200, at(1000));
    t.record_submission_at(at(1000), "i".to_string(), "b".to_string(), 100, 1, vec!["sb".to_string()], 200, 0, String::new(), None);
    t.update_status_at("a", "processed", 101, 1001, at(5000));
    t.update_status_at("b", "processed", 102, 1001, at(5000));
    t.remember_block_time(101, 1003);
    let rows = t.commitment_advances(110, 1);
    assert_eq!(rows.len(), 2);
    // The node answers 1006 for slot 102; the cached time of slot 101 wins over its answer.
    let answers: Vec<Option<i64>> = rows.iter().map(|r| if r.2 == 102 { Some(1006) } else { Some(9999) }).collect();
    t.advance_commitments_by_slot(&rows, &answers, at(7000));
    assert_eq!(t.get_entry_by_sig("sa").unwrap().confirmed_at, Some(at(1003)));
    assert_eq!(t.get_entry_by_sig("sb").unwrap().confirmed_at, Some(at(1006)));
    assert_eq!(t.cached_block_time(102), Some(1006));

    // With no cached time and no answer, the current second stands in.
    let mut u = tracker_with_bundle("c", "sc", 100, 200, at(1000));
    u.update_status_at("c", "processed", 101, 1001, at(5000));
    let rows = u.commitment_advances(110, 2);
    u.advance_commitments_by_slot(&rows, &vec![None], at(7000));
    assert_eq!(u.get_entry_by_sig("sc").unwrap().finalized_at, Some(at(7000)));
    assert_eq!(u.cached_block_time(101), None);
}
