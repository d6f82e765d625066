use solana_balanced_client::{send_and_confirm_endpoints, RpcEndpoint, SolanaClientRateLimit};

/// A limit whose window index never changes during a test: the interval is longer than any
/// timestamp the clock can give.
fn long_limit(maximum: u64, default_amount: u64) -> SolanaClientRateLimit {
    SolanaClientRateLimit::new(i64::MAX as u64, maximum, default_amount)
}

#[test]
fn new_limit_starts_empty() {
    let limit = SolanaClientRateLimit::new(1000, 10, 1);
    assert!(limit.endpoint_amounts.is_empty());
    assert!(limit.ignore_endpoints.is_empty());
    assert_eq!(limit.last_datetime, 0);
    assert_eq!(limit.interval, 1000);
    assert_eq!(limit.consumed_amount, 0);
    assert_eq!(limit.maximum_amount, 10);
    assert_eq!(limit.default_amount_per_endpoint, 1);
}

#[test]
fn interval_above_i64_wraps_like_a_cast() {
    let limit = SolanaClientRateLimit::new(u64::MAX, 10, 1);
    assert_eq!(limit.interval, -1);
}

#[test]
fn add_endpoint_amount_sets_amount_and_unignores() {
    let limit = SolanaClientRateLimit::new(1000, 10, 1)
        .ignore_endpoint(RpcEndpoint::GetAccountInfo)
        .add_endpoint_amount(RpcEndpoint::GetAccountInfo, 2);
    assert_eq!(
        limit.endpoint_amounts.get(&RpcEndpoint::GetAccountInfo.code()),
        Some(&2)
    );
    assert!(!limit.ignore_endpoints.contains(&RpcEndpoint::GetAccountInfo.code()));
}

#[test]
fn ignore_endpoint_drops_amount() {
    let limit = SolanaClientRateLimit::new(1000, 10, 1)
        .add_endpoint_amount(RpcEndpoint::GetHealth, 7)
        .ignore_endpoint(RpcEndpoint::GetHealth);
    assert!(limit.endpoint_amounts.is_empty());
    assert!(limit.ignore_endpoints.contains(&RpcEndpoint::GetHealth.code()));
}

fn custom(method: &str) -> RpcEndpoint {
    RpcEndpoint::Custom { method: method.to_string() }
}

#[test]
fn ignores_all_endpoints_then_one_counts() {
    // A limit that only counts GetMultipleAccounts requests.
    let mut limit = SolanaClientRateLimit::new(60 * 1000, 6, 1)
        .add_endpoint_amount(RpcEndpoint::GetBalance, 3)
        .add_endpoint_amount(custom("getFoo"), 2)
        .ignore_endpoint(custom("getBar"))
        .ignores_all_endpoints()
        .add_endpoint_amount(RpcEndpoint::GetMultipleAccounts, 1);
    // Every named endpoint but GetMultipleAccounts is ignored.
    assert_eq!(limit.ignore_endpoints.len(), 58);
    assert_eq!(limit.endpoint_amounts.len(), 1);
    assert!(limit.custom_amounts.is_empty());
    assert!(limit.ignore_custom_methods.is_empty());
    assert!(limit.ignores_other_custom_methods);
    assert!(limit.check_endpoints_at(&vec![RpcEndpoint::GetBalance; 100], 0));
    assert!(limit.check_endpoints_at(&vec![RpcEndpoint::GetMultipleAccounts; 6], 0));
    assert!(!limit.check_endpoints_at(&vec![RpcEndpoint::GetMultipleAccounts; 7], 0));
    assert!(limit.check_endpoints_at(&vec![custom("getFoo"); 7], 0));
    assert!(limit.check_endpoints_at(&vec![custom("anything"); 7], 0));
    assert!(limit.check_endpoints_at(&vec![RpcEndpoint::GetRecentPrioritizationFees; 7], 0));
    assert!(limit.check_endpoints_at(&vec![RpcEndpoint::GetTokenLargestAccounts; 7], 0));
    assert!(limit.check_endpoints_at(&vec![RpcEndpoint::Custom { method: String::new() }; 7], 0));
}

#[test]
fn ignores_all_then_custom_amount_counts_that_method() {
    let mut limit = SolanaClientRateLimit::new(1000, 4, 1)
        .ignores_all_endpoints()
        .add_endpoint_amount(custom("getFoo"), 2);
    assert!(limit.check_endpoints_at(&vec![custom("getBar"); 50], 0));
    assert!(limit.check_endpoints_at(&vec![custom("getFoo"); 2], 0));
    assert!(!limit.check_endpoints_at(&vec![custom("getFoo"); 3], 0));
    limit.apply_endpoint(custom("getFoo"));
    limit.apply_endpoint(custom("getBar"));
    assert_eq!(limit.consumed_amount, 2);
}

#[test]
fn custom_methods_are_metered_one_by_one() {
    let mut limit = SolanaClientRateLimit::new(1000, 100, 1)
        .add_endpoint_amount(custom("getFoo"), 10)
        .add_endpoint_amount(custom("getBar"), 20)
        .ignore_endpoint(custom("getBaz"));
    limit.apply_endpoints(&[custom("getFoo"), custom("getBar"), custom("getBaz"), custom("getQux")]);
    // 10 + 20 + 0 + the default amount 1.
    assert_eq!(limit.consumed_amount, 31);
    assert_eq!(limit.custom_amounts.len(), 2);
    assert_eq!(limit.ignore_custom_methods, vec!["getBaz".to_string()]);
}

#[test]
fn last_builder_call_decides() {
    let mut limit = SolanaClientRateLimit::new(1000, 100, 1)
        .ignore_endpoint(custom("getFoo"))
        .add_endpoint_amount(custom("getFoo"), 5)
        .add_endpoint_amount(custom("getFoo"), 7)
        .add_endpoint_amount(RpcEndpoint::GetSlot, 3)
        .ignore_endpoint(RpcEndpoint::GetSlot);
    assert_eq!(limit.custom_amounts, vec![("getFoo".to_string(), 7)]);
    assert!(limit.ignore_custom_methods.is_empty());
    assert!(limit.endpoint_amounts.is_empty());
    assert!(limit.ignore_endpoints.contains(&RpcEndpoint::GetSlot.code()));
    limit.apply_endpoints(&[custom("getFoo"), RpcEndpoint::GetSlot]);
    assert_eq!(limit.consumed_amount, 7);
    let mut limit = limit.ignore_endpoint(custom("getFoo"));
    assert!(limit.custom_amounts.is_empty());
    limit.apply_endpoint(custom("getFoo"));
    assert_eq!(limit.consumed_amount, 7);
}

#[test]
fn order_of_a_batch_does_not_matter() {
    let batch = [RpcEndpoint::GetBlock, RpcEndpoint::GetHealth, custom("getFoo"), RpcEndpoint::GetSlot];
    let reordered = [RpcEndpoint::GetSlot, custom("getFoo"), RpcEndpoint::GetBlock, RpcEndpoint::GetHealth];
    let tariff = || {
        SolanaClientRateLimit::new(1000, 6, 1)
            .add_endpoint_amount(RpcEndpoint::GetBlock, 3)
            .add_endpoint_amount(custom("getFoo"), 2)
            .ignore_endpoint(RpcEndpoint::GetHealth)
    };
    let mut a = tariff();
    let mut b = tariff();
    assert!(a.check_endpoints_at(&batch, 0));
    assert!(b.check_endpoints_at(&reordered, 0));
    a.apply_endpoints(&batch);
    b.apply_endpoints(&reordered);
    assert_eq!(a.consumed_amount, 6);
    assert_eq!(b.consumed_amount, 6);
    assert!(!a.check_endpoints_at(&batch, 0));
    assert!(!b.check_endpoints_at(&reordered, 0));
}

#[test]
fn more_endpoints_never_admit_more() {
    let mut limit = SolanaClientRateLimit::new(1000, 3, 1);
    assert!(limit.check_endpoints_at(&[RpcEndpoint::GetSlot, RpcEndpoint::GetSlot], 0));
    assert!(limit.check_endpoints_at(&[RpcEndpoint::GetSlot, RpcEndpoint::GetBlock, RpcEndpoint::GetSlot], 0));
    assert!(!limit.check_endpoints_at(
        &[RpcEndpoint::GetSlot, RpcEndpoint::GetBlock, RpcEndpoint::GetHealth, RpcEndpoint::GetSlot],
        0
    ));
}

#[test]
fn check_admits_up_to_the_maximum() {
    let mut limit = SolanaClientRateLimit::new(1000, 5, 1)
        .add_endpoint_amount(RpcEndpoint::GetBlock, 3);
    assert!(limit.check_endpoints_at(&[RpcEndpoint::GetBlock, RpcEndpoint::GetSlot, RpcEndpoint::GetSlot], 4500));
    assert_eq!(limit.last_datetime, 4);
    assert_eq!(limit.consumed_amount, 0);
    assert!(!limit.check_endpoints_at(&[RpcEndpoint::GetBlock, RpcEndpoint::GetBlock], 4500));
}

#[test]
fn check_then_apply_charges_once() {
    let mut limit = SolanaClientRateLimit::new(1000, 5, 2);
    assert!(limit.check_endpoints_at(&[RpcEndpoint::GetSlot, RpcEndpoint::GetSlot], 1000));
    limit.apply_endpoints(&[RpcEndpoint::GetSlot, RpcEndpoint::GetSlot]);
    assert_eq!(limit.consumed_amount, 4);
    // Same interval: only 1 left.
    assert!(!limit.check_endpoints_at(&[RpcEndpoint::GetSlot], 1999));
    assert_eq!(limit.consumed_amount, 4);
    // Next interval: the consumption is reset.
    assert!(limit.check_endpoints_at(&[RpcEndpoint::GetSlot], 2000));
    assert_eq!(limit.last_datetime, 2);
    assert_eq!(limit.consumed_amount, 0);
}

#[test]
fn ignored_endpoints_pass_even_over_budget() {
    let mut limit = SolanaClientRateLimit::new(1000, 1, 1).ignore_endpoint(RpcEndpoint::GetHealth);
    limit.last_datetime = 3;
    limit.consumed_amount = 5;
    assert!(limit.check_endpoints_at(&[RpcEndpoint::GetHealth], 3000));
    assert!(limit.check_endpoints_at(&[], 3000));
    assert!(!limit.check_endpoints_at(&[RpcEndpoint::GetHealth, RpcEndpoint::GetSlot], 3000));
    limit.apply_endpoints(&[RpcEndpoint::GetHealth]);
    assert_eq!(limit.consumed_amount, 5);
}

#[test]
fn zero_amount_endpoint_still_checked() {
    let mut limit = SolanaClientRateLimit::new(1000, 1, 1).add_endpoint_amount(RpcEndpoint::GetSlot, 0);
    limit.consumed_amount = 2;
    assert!(!limit.check_endpoints_at(&[RpcEndpoint::GetSlot], 0));
}

#[test]
fn check_handles_amounts_beyond_u64() {
    let mut limit = SolanaClientRateLimit::new(1000, u64::MAX, 1)
        .add_endpoint_amount(RpcEndpoint::GetBlock, u64::MAX);
    assert!(limit.check_endpoints_at(&[RpcEndpoint::GetBlock], 0));
    assert!(!limit.check_endpoints_at(&[RpcEndpoint::GetBlock, RpcEndpoint::GetSlot], 0));
}

#[test]
fn window_division_rounds_toward_zero() {
    let mut limit = SolanaClientRateLimit::new(1000, 1, 1);
    assert!(limit.check_endpoints_at(&[], -1500));
    assert_eq!(limit.last_datetime, -1);
    let mut negative = SolanaClientRateLimit::new(u64::MAX - 999, 1, 1);
    assert_eq!(negative.interval, -1000);
    assert!(negative.check_endpoints_at(&[], 2500));
    assert_eq!(negative.last_datetime, -2);
    assert!(negative.check_endpoints_at(&[], i64::MIN));
    assert_eq!(negative.last_datetime, i64::MIN / -1000);
}

#[test]
fn check_endpoint_with_clock() {
    let mut limit = long_limit(2, 1);
    assert!(limit.check_endpoint(RpcEndpoint::GetSlot));
    limit.apply_endpoint(RpcEndpoint::GetSlot);
    assert!(limit.check_endpoint(RpcEndpoint::GetSlot));
    limit.apply_endpoint(RpcEndpoint::GetSlot);
    assert_eq!(limit.consumed_amount, 2);
    assert!(!limit.check_endpoint(RpcEndpoint::GetSlot));
    assert!(!limit.check_endpoints(&[RpcEndpoint::GetVersion]));
    assert_eq!(limit.last_datetime, 0);
}

#[test]
fn short_interval_moves_to_current_window() {
    let mut limit = SolanaClientRateLimit::new(1, 1, 1);
    limit.consumed_amount = 1;
    assert!(limit.check_endpoint(RpcEndpoint::GetSlot));
    assert!(limit.last_datetime > 0);
    assert_eq!(limit.consumed_amount, 0);
}

#[test]
fn apply_endpoint_uses_default_and_amounts() {
    let mut limit = SolanaClientRateLimit::new(1000, 100, 4).add_endpoint_amount(RpcEndpoint::GetBlock, 23);
    limit.apply_endpoint(RpcEndpoint::GetBlock);
    limit.apply_endpoint(RpcEndpoint::GetSlot);
    assert_eq!(limit.consumed_amount, 27);
}

#[test]
fn refuses_always_reports_oversized_batches() {
    let limit = SolanaClientRateLimit::new(1000, 3, 2).ignore_endpoint(RpcEndpoint::GetHealth);
    assert!(!limit.refuses_always(&[RpcEndpoint::GetSlot]));
    assert!(limit.refuses_always(&[RpcEndpoint::GetSlot, RpcEndpoint::GetSlot]));
    assert!(!limit.refuses_always(&vec![RpcEndpoint::GetHealth; 10]));
}

#[test]
fn endpoint_codes_are_distinct() {
    assert_ne!(custom("getFoo").code(), RpcEndpoint::DeregisterNode.code());
    assert_eq!(RpcEndpoint::DeregisterNode.code(), 0);
    assert_eq!(RpcEndpoint::SignVote.code(), 56);
    assert_eq!(RpcEndpoint::GetRecentPrioritizationFees.code(), 57);
    assert_eq!(RpcEndpoint::GetTokenLargestAccounts.code(), 58);
    assert_eq!(custom("getFoo").code(), 59);
    assert_eq!(custom("getBar").code(), 59);
}

#[test]
fn send_and_confirm_batches() {
    assert_eq!(
        send_and_confirm_endpoints(true),
        vec![
            RpcEndpoint::GetLatestBlockhash,
            RpcEndpoint::SendTransaction,
            RpcEndpoint::GetSignatureStatuses
        ]
    );
    assert_eq!(
        send_and_confirm_endpoints(false),
        vec![RpcEndpoint::SendTransaction, RpcEndpoint::GetSignatureStatuses]
    );
}

#[test]
fn second_check_at_same_instant_changes_nothing() {
    let mut limit = SolanaClientRateLimit::new(1000, 3, 1);
    limit.consumed_amount = 2;
    assert!(limit.check_endpoints_at(&[RpcEndpoint::GetSlot], 7000));
    assert_eq!((limit.last_datetime, limit.consumed_amount), (7, 0));
    limit.consumed_amount = 2;
    assert!(limit.check_endpoints_at(&[RpcEndpoint::GetSlot], 7000));
    assert!(limit.check_endpoints_at(&[RpcEndpoint::GetSlot], 7000));
    assert_eq!((limit.last_datetime, limit.consumed_amount), (7, 2));
}
