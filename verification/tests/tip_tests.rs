use smart_tx_stack::engine::bundle::{
    bundle_id_or_unknown, bundle_reply, bundles_endpoint, encode_bundle, BundleReplyError,
    SerializedTransaction,
};
use smart_tx_stack::engine::memo::{memo_instruction_plan, MemoInstruction};
use smart_tx_stack::engine::tip::{
    average, fallback_retry_tip, tip_account_texts, clamp_tip, hardcoded_tip_accounts, percentile_75, sorted_copy, sum_fits, tips_endpoint,
    TipError, TipManager, MAX_TIP_LAMPORTS, MIN_TIP_LAMPORTS, TIP_ACCOUNTS_TTL_NANOS,
};

#[test]
fn percentile_is_taken_from_the_sorted_sample() {
    assert_eq!(sorted_copy(&vec![5, 1, 4, 2, 3]), vec![1, 2, 3, 4, 5]);
    assert_eq!(percentile_75(&vec![5, 1, 4, 2, 3]), 4);
    assert_eq!(percentile_75(&vec![9]), 9);
    assert_eq!(percentile_75(&vec![3, 1]), 3);
    assert_eq!(percentile_75(&vec![10, 20, 30, 40]), 40);
    assert_eq!(percentile_75(&(1..=100).collect::<Vec<u64>>()), 76);
}

#[test]
fn average_is_the_integer_mean() {
    assert_eq!(average(&vec![1, 2, 4]), 2);
    assert_eq!(average(&vec![7]), 7);
    assert!(sum_fits(&vec![u64::MAX]));
    assert!(!sum_fits(&vec![u64::MAX, 1]));
}

#[test]
fn tips_are_clamped() {
    assert_eq!(clamp_tip(0), MIN_TIP_LAMPORTS);
    assert_eq!(clamp_tip(10_000), 10_000);
    assert_eq!(clamp_tip(123_456), 123_456);
    assert_eq!(clamp_tip(u64::MAX), MAX_TIP_LAMPORTS);
    assert_eq!(MAX_TIP_LAMPORTS, 50_000_000);
}

#[test]
fn endpoints() {
    assert_eq!(tips_endpoint("https://je.example//"), "https://je.example/api/v1/tips");
    assert_eq!(tips_endpoint("https://je.example"), "https://je.example/api/v1/tips");
    assert_eq!(bundles_endpoint("https://je.example"), "https://je.example/api/v1/bundles");
}

#[test]
fn tip_account_cache() {
    let mut m = TipManager::new("https://je.example");
    assert!(m.fresh_tip_accounts(0).is_none());

    // Nothing fetched and nothing cached: the well-known accounts are used and cached.
    let got = m.accept_fetched_tip_accounts(None, 10);
    assert_eq!(got, hardcoded_tip_accounts());
    assert_eq!(got.len(), 8);
    assert_eq!(m.tip_accounts_fetched_at, None);

    // A fetched list replaces the cache and is fresh for five minutes.
    let fetched = vec!["A".to_string(), "B".to_string()];
    assert_eq!(m.accept_fetched_tip_accounts(Some(fetched.clone()), 100), fetched);
    assert_eq!(m.fresh_tip_accounts(99 + TIP_ACCOUNTS_TTL_NANOS), Some(fetched.clone()));
    assert!(m.fresh_tip_accounts(100 + TIP_ACCOUNTS_TTL_NANOS).is_none());

    // A failed or empty fetch keeps the stale cache.
    assert_eq!(m.accept_fetched_tip_accounts(Some(vec![]), 999), fetched);
    assert_eq!(m.tip_accounts_fetched_at, Some(100));
}

#[test]
fn random_tip_account_is_one_of_them() {
    assert_eq!(TipManager::select_random_tip_account(&vec![]), Err(TipError::NoTipAccounts));
    let pool = vec!["A".to_string(), "B".to_string(), "C".to_string()];
    let a = TipManager::select_random_tip_account(&pool).unwrap();
    assert!(pool.contains(&a));
}

#[test]
fn snapshots_summarise_the_samples() {
    let mut m = TipManager::new("https://je.example");
    m.record_priority_fees(&vec![0, 10, 0, 30, 20]);
    assert_eq!(m.recent_priority_fees, vec![10, 30, 20]);
    m.tip_account_balances = vec![100, 200];
    assert_eq!(m.base_priority_fee(), 30);
    assert_eq!(m.get_tip_snapshot(Some(42)), (Some(20), Some(30), Some(150), Some(42)));
    let n = m.get_network_snapshot(None);
    assert_eq!(n.avg_recent_priority_fee, Some(20));
    assert_eq!(n.p75_recent_priority_fee, Some(30));
    assert_eq!(n.avg_tip_account_balance, Some(150));
    assert_eq!(n.current_dynamic_tip, None);

    m.record_priority_fees(&vec![5, 7]);
    assert_eq!(m.base_priority_fee(), 0);
    assert_eq!(m.get_tip_snapshot(None), (Some(6), None, Some(150), None));
    assert_eq!(m.get_network_snapshot(None).p75_recent_priority_fee, Some(7));

    m.record_jito_percentile_75th(12345);
    assert_eq!(m.jito_percentile_75th, Some(12345));
}

#[test]
fn bundle_transactions_are_base58_encoded() {
    let txs = vec![
        SerializedTransaction {
            first_signature: Some(vec![0, 1]),
            bytes: vec![0x04, 0x30, 0x5e, 0x2b, 0x24, 0x73, 0xf0, 0x58],
        },
        SerializedTransaction { first_signature: None, bytes: vec![0, 0, 0] },
    ];
    let (encoded, signatures) = encode_bundle(&txs);
    assert_eq!(encoded, vec!["he11owor1d".to_string(), "111".to_string()]);
    assert_eq!(signatures, vec!["12".to_string()]);
}

#[test]
fn bundle_id_defaults_to_unknown() {
    assert_eq!(bundle_id_or_unknown(Some("abc".to_string())), "abc");
    assert_eq!(bundle_id_or_unknown(None), "unknown_id");
}

#[test]
fn memo_fault_injection_starves_compute() {
    assert_eq!(memo_instruction_plan(&None, false), vec![MemoInstruction::Memo]);
    assert_eq!(
        memo_instruction_plan(&Some("compute_exceeded".to_string()), true),
        vec![MemoInstruction::Memo, MemoInstruction::ComputeUnitLimit(1), MemoInstruction::Tip]
    );
    assert_eq!(
        memo_instruction_plan(&Some("bad_blockhash".to_string()), true),
        vec![MemoInstruction::Memo, MemoInstruction::Tip]
    );
}

#[test]
fn fallback_retry_raises_the_tip_by_half() {
    assert_eq!(fallback_retry_tip(10_000), 15_000);
    assert_eq!(fallback_retry_tip(3), 4);
    assert_eq!(fallback_retry_tip(u64::MAX), u64::MAX);
}

#[test]
fn tip_accounts_are_read_from_the_result_array() {
    assert_eq!(
        tip_account_texts(r#"{"jsonrpc":"2.0","result":["A",7,"B"],"id":1}"#),
        Some(vec!["A".to_string(), "B".to_string()])
    );
    assert_eq!(tip_account_texts(r#"{"result":"A"}"#), None);
    assert_eq!(tip_account_texts("<html>"), None);
}

#[test]
fn bundle_replies() {
    assert!(matches!(bundle_reply(r#"{"result":"abc"}"#), Ok(id) if id == "abc"));
    assert!(matches!(bundle_reply(r#"{"result":5}"#), Ok(id) if id == "unknown_id"));
    assert!(matches!(
        bundle_reply(r#"{"error":{"code":-32602,"message":"bad"}}"#),
        Err(BundleReplyError::Rejected(e)) if e == r#"{"code":-32602,"message":"bad"}"#
    ));
    assert!(matches!(bundle_reply(r#"{"error":null,"result":"x"}"#), Err(BundleReplyError::Rejected(e)) if e == "null"));
    assert!(matches!(bundle_reply("oops"), Err(BundleReplyError::InvalidReply)));
}
