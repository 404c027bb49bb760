use smart_tx_stack::streaming::yellowstone::{
    next_backoff, reconnect_step, should_refresh_leader_schedule, StreamOutcome, transaction_update, YellowstoneStreamer,
    INITIAL_BACKOFF_SECS, MAX_BACKOFF_SECS,
};
use smart_tx_stack::time::UtcTime;
use smart_tx_stack::types::streaming::StreamHealthMetrics;

fn streamer() -> YellowstoneStreamer {
    let jito_validators = vec!["validator_a".to_string(), "validator_b".to_string()];
    YellowstoneStreamer::new("http://localhost:50051", None, "payer_pubkey".to_string(), jito_validators)
}

fn leaders(names: &[&str]) -> Vec<String> {
    names.iter().map(|s| s.to_string()).collect()
}

#[test]
fn test_optimal_submission_window() {
    let streamer = streamer();
    let schedule = streamer.is_optimal_submission_window(100); // should be false
    assert!(!schedule);
}

#[test]
fn window_looks_four_slots_ahead() {
    let mut s = streamer();
    s.update_leader_schedule(100, &leaders(&["x", "x", "x", "x", "x", "validator_b", "x"]));
    assert_eq!(s.leader_schedule.get(&105).map(|l| l.as_str()), Some("validator_b"));
    assert!(!s.is_optimal_submission_window(100));
    assert!(s.is_optimal_submission_window(101));
    assert!(s.is_optimal_submission_window(105));
    assert!(!s.is_optimal_submission_window(106));
    // Recording a later schedule keeps earlier slots.
    s.update_leader_schedule(110, &leaders(&["validator_a"]));
    assert!(s.is_optimal_submission_window(106));
    assert!(s.is_optimal_submission_window(103));
}

#[test]
fn backoff_doubles_up_to_thirty_seconds() {
    let mut b = INITIAL_BACKOFF_SECS;
    let mut seen = vec![b];
    for _ in 0..7 {
        b = next_backoff(b);
        seen.push(b);
    }
    assert_eq!(seen, vec![1, 2, 4, 8, 16, 30, 30, 30]);
    assert_eq!(MAX_BACKOFF_SECS, 30);
}

#[test]
fn schedule_refreshes_every_hundred_slots() {
    assert!(should_refresh_leader_schedule(0));
    assert!(should_refresh_leader_schedule(1200));
    assert!(!should_refresh_leader_schedule(1201));
}

#[test]
fn updates_carry_leader_and_signature() {
    let mut s = streamer();
    s.update_leader_schedule(7, &leaders(&["validator_a"]));
    let now = UtcTime { secs: 1_700_000_000, nanos: 5 };
    let u = s.slot_update(7, 1, now);
    assert_eq!((u.slot, u.status, u.timestamp, u.block_height), (7, 1, now, None));
    assert_eq!(u.leader.as_deref(), Some("validator_a"));
    assert_eq!(s.slot_update(8, 0, now).leader, None);

    let t = transaction_update(&vec![0, 0, 1], 9, Some("InstructionError".to_string()));
    assert_eq!(t.signature, "112");
    assert_eq!(t.slot, 9);
    assert_eq!(t.error.as_deref(), Some("InstructionError"));
}

#[test]
fn health_metrics_start_empty() {
    let m = StreamHealthMetrics::default();
    assert!(m.last_message_at.is_none() && m.window_start.is_none());
    assert_eq!(
        (m.reconnection_count, m.messages_in_window, m.total_slot_updates, m.total_tx_updates, m.messages_dropped),
        (0, 0, 0, 0, 0)
    );
}

#[test]
fn reconnect_waits_reset_after_subscribing() {
    assert_eq!(reconnect_step(4, StreamOutcome::NotReady), (4, 4));
    assert_eq!(reconnect_step(4, StreamOutcome::SubscribeFailed), (4, 8));
    assert_eq!(reconnect_step(16, StreamOutcome::SubscribeFailed), (16, 30));
    assert_eq!(reconnect_step(16, StreamOutcome::Subscribed), (0, 1));
    assert_eq!(reconnect_step(1, StreamOutcome::Disconnected), (1, 2));
}

#[test]
fn validators_are_kept_once_each() {
    let s = YellowstoneStreamer::new("e", None, "p".to_string(), leaders(&["a", "b", "a"]));
    assert_eq!(s.jito_validators, leaders(&["a", "b"]));
}
