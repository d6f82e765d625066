use std::sync::Arc;

use solana_balanced_client::{RpcEndpoint, SolanaClientInner, SolanaClientRateLimit, SolanaClientRpc};
use solana_rpc_client::nonblocking::rpc_client::RpcClient;

fn client(url: &str) -> Arc<RpcClient> {
    Arc::new(RpcClient::new(url.to_string()))
}

/// A limit whose window index never changes during a test.
fn long_limit(maximum: u64, default_amount: u64) -> SolanaClientRateLimit {
    SolanaClientRateLimit::new(i64::MAX as u64, maximum, default_amount)
}

#[test]
fn new_rpc_has_no_limits() {
    let c = client("http://localhost:1");
    let rpc = SolanaClientRpc::new(c.clone());
    assert!(Arc::ptr_eq(&rpc.rpc_client, &c));
    assert!(rpc.limits.is_empty());
}

#[test]
fn add_limit_appends() {
    let rpc = SolanaClientRpc::new(client("http://localhost:1"))
        .add_limit(long_limit(1, 1))
        .add_limit(long_limit(2, 1));
    assert_eq!(rpc.limits.len(), 2);
    assert_eq!(rpc.limits[0].maximum_amount, 1);
    assert_eq!(rpc.limits[1].maximum_amount, 2);
}

#[test]
fn execute_charges_every_limit_when_all_admit() {
    let mut rpc = SolanaClientRpc::new(client("http://localhost:1"))
        .add_limit(long_limit(10, 1))
        .add_limit(long_limit(3, 2).ignore_endpoint(RpcEndpoint::GetHealth));
    assert!(rpc.execute_endpoints(&[RpcEndpoint::GetSlot, RpcEndpoint::GetHealth]));
    assert_eq!(rpc.limits[0].consumed_amount, 2);
    assert_eq!(rpc.limits[1].consumed_amount, 2);
    // The second limit has 1 left, less than a GetSlot costs there.
    assert!(!rpc.execute_endpoint(RpcEndpoint::GetSlot));
    assert_eq!(rpc.limits[0].consumed_amount, 2);
    assert_eq!(rpc.limits[1].consumed_amount, 2);
    assert!(rpc.execute_endpoint(RpcEndpoint::GetHealth));
    assert_eq!(rpc.limits[0].consumed_amount, 3);
    assert_eq!(rpc.limits[1].consumed_amount, 2);
}

#[test]
fn execute_without_limits_always_succeeds() {
    let mut rpc = SolanaClientRpc::new(client("http://localhost:1"));
    assert!(rpc.execute_endpoints(&vec![RpcEndpoint::GetBlock; 1000]));
}

#[test]
fn refusing_limit_stops_before_later_ones() {
    // The second limit has a zero interval, but the first refuses any GetBlock.
    let mut rpc = SolanaClientRpc::new(client("http://localhost:1"))
        .add_limit(long_limit(1, 5))
        .add_limit(SolanaClientRateLimit::new(0, 100, 1));
    assert!(rpc.is_ready_for(&[RpcEndpoint::GetBlock]));
    assert!(!rpc.execute_endpoint(RpcEndpoint::GetBlock));
    assert!(!rpc.is_ready_for(&[]));
    let zero_first = SolanaClientRpc::new(client("http://localhost:1"))
        .add_limit(SolanaClientRateLimit::new(0, 100, 1));
    assert!(!zero_first.is_ready_for(&[RpcEndpoint::GetBlock]));
}

#[test]
fn quicknode_configuration_counts_credits() {
    let mut rpc = SolanaClientRpc::new(client("http://localhost:1"))
        .add_limit(
            SolanaClientRateLimit::new(30 * 24 * 60 * 60 * 1000, 10_000_000, 1)
                .add_endpoint_amount(RpcEndpoint::GetAccountInfo, 2)
                .add_endpoint_amount(RpcEndpoint::GetBlock, 23)
                .add_endpoint_amount(RpcEndpoint::GetProgramAccounts, 35)
                .add_endpoint_amount(RpcEndpoint::GetLargestAccounts, 259),
        )
        .add_limit(long_limit(25, 1));
    assert!(rpc.execute_endpoints(&[
        RpcEndpoint::GetAccountInfo,
        RpcEndpoint::GetBlock,
        RpcEndpoint::GetProgramAccounts,
        RpcEndpoint::GetLargestAccounts,
        RpcEndpoint::GetVersion,
    ]));
    assert_eq!(rpc.limits[0].consumed_amount, 2 + 23 + 35 + 259 + 1);
    assert_eq!(rpc.limits[1].consumed_amount, 5);
}

#[test]
fn inner_builders() {
    let default = client("http://localhost:9");
    let mut inner = SolanaClientInner::new(default.clone());
    assert_eq!(inner.next_rpc_index, 0);
    assert!(!inner.move_rpc_index);
    assert!(inner.rpc_list.is_empty());
    assert!(Arc::ptr_eq(&inner.default_rpc, &default));
    inner.add_rpc(SolanaClientRpc::new(client("http://localhost:1")));
    inner.set_move_rpc_index(true);
    assert_eq!(inner.rpc_list.len(), 1);
    assert!(inner.move_rpc_index);
}

fn two_rpc_inner(move_index: bool) -> (SolanaClientInner, Arc<RpcClient>, Arc<RpcClient>, Arc<RpcClient>) {
    let default = client("http://localhost:9");
    let first = client("http://localhost:1");
    let second = client("http://localhost:2");
    let mut inner = SolanaClientInner::new(default.clone());
    inner.add_rpc(SolanaClientRpc::new(first.clone()).add_limit(long_limit(1, 1)));
    inner.add_rpc(SolanaClientRpc::new(second.clone()).add_limit(long_limit(2, 1)));
    inner.set_move_rpc_index(move_index);
    (inner, default, first, second)
}

#[test]
fn pick_tries_in_turn_then_falls_back() {
    let (mut inner, default, first, second) = two_rpc_inner(false);
    assert!(inner.is_ready_for(&[RpcEndpoint::GetSlot]));
    assert!(Arc::ptr_eq(&inner.pick_rpc(&[RpcEndpoint::GetSlot]), &first));
    assert!(Arc::ptr_eq(&inner.pick_rpc(&[RpcEndpoint::GetSlot]), &second));
    assert!(Arc::ptr_eq(&inner.pick_rpc(&[RpcEndpoint::GetSlot]), &second));
    assert!(Arc::ptr_eq(&inner.pick_rpc(&[RpcEndpoint::GetSlot]), &default));
    assert_eq!(inner.next_rpc_index, 0);
    assert_eq!(inner.rpc_list[0].limits[0].consumed_amount, 1);
    assert_eq!(inner.rpc_list[1].limits[0].consumed_amount, 2);
}

#[test]
fn select_moves_index_when_asked() {
    let (mut inner, _, _, _) = two_rpc_inner(true);
    assert_eq!(inner.select_rpc(&[RpcEndpoint::GetSlot]), Some(0));
    assert_eq!(inner.next_rpc_index, 0);
    assert_eq!(inner.select_rpc(&[RpcEndpoint::GetSlot]), Some(1));
    assert_eq!(inner.next_rpc_index, 1);
    // Starting from the second client: it still has room for one more.
    assert_eq!(inner.select_rpc(&[RpcEndpoint::GetSlot]), Some(1));
    assert_eq!(inner.select_rpc(&[RpcEndpoint::GetSlot]), None);
    assert_eq!(inner.next_rpc_index, 1);
}

#[test]
fn select_wraps_around_from_next_index() {
    let (mut inner, _, _, _) = two_rpc_inner(false);
    inner.next_rpc_index = 1;
    // The second client takes two requests, then the first one takes one.
    assert_eq!(inner.select_rpc(&[RpcEndpoint::GetSlot]), Some(1));
    assert_eq!(inner.select_rpc(&[RpcEndpoint::GetSlot]), Some(1));
    assert_eq!(inner.select_rpc(&[RpcEndpoint::GetSlot]), Some(0));
    assert_eq!(inner.select_rpc(&[RpcEndpoint::GetSlot]), None);
    assert_eq!(inner.next_rpc_index, 1);
}

#[test]
fn inner_readiness() {
    let default = client("http://localhost:9");
    let mut inner = SolanaClientInner::new(default);
    // No RPC client: picking would index an empty list.
    assert!(!inner.is_ready_for(&[RpcEndpoint::GetSlot]));
    inner.add_rpc(SolanaClientRpc::new(client("http://localhost:1")).add_limit(SolanaClientRateLimit::new(0, 1, 1)));
    assert!(!inner.is_ready_for(&[RpcEndpoint::GetSlot]));
    inner.rpc_list[0].limits[0].interval = 1;
    assert!(inner.is_ready_for(&[RpcEndpoint::GetSlot]));
    inner.next_rpc_index = 1;
    assert!(!inner.is_ready_for(&[RpcEndpoint::GetSlot]));
}

#[test]
fn zero_interval_client_behind_an_accepting_one() {
    let default = client("http://localhost:9");
    let mut inner = SolanaClientInner::new(default);
    // The first client has no limits, so it takes every request.
    inner.add_rpc(SolanaClientRpc::new(client("http://localhost:1")));
    inner.add_rpc(SolanaClientRpc::new(client("http://localhost:2")).add_limit(SolanaClientRateLimit::new(0, 1, 1)));
    assert!(inner.is_ready_for(&[RpcEndpoint::GetSlot]));
    assert_eq!(inner.select_rpc(&[RpcEndpoint::GetSlot]), Some(0));
    inner.next_rpc_index = 1;
    assert!(!inner.is_ready_for(&[RpcEndpoint::GetSlot]));
}

#[test]
fn accepts_always_needs_room_in_every_limit() {
    let mut rpc = SolanaClientRpc::new(client("http://localhost:1"))
        .add_limit(long_limit(4, 2))
        .add_limit(long_limit(10, 1).ignore_endpoint(RpcEndpoint::GetSlot));
    assert!(rpc.accepts_always(&[RpcEndpoint::GetSlot, RpcEndpoint::GetSlot]));
    assert!(!rpc.accepts_always(&vec![RpcEndpoint::GetSlot; 3]));
    rpc.limits[0].consumed_amount = 1;
    assert!(!rpc.accepts_always(&[RpcEndpoint::GetSlot, RpcEndpoint::GetSlot]));
    assert!(rpc.limits[0].admits_always(&[RpcEndpoint::GetSlot]));
    assert!(rpc.limits[1].admits_always(&vec![RpcEndpoint::GetSlot; 100]));
    rpc.limits[1].interval = 0;
    assert!(!rpc.accepts_always(&[RpcEndpoint::GetSlot]));
}

#[test]
fn start_index_stays_in_the_list() {
    let (mut inner, _, _, _) = two_rpc_inner(true);
    for _ in 0..5 {
        inner.select_rpc(&[RpcEndpoint::GetSlot]);
        assert!(inner.next_rpc_index < inner.rpc_list.len());
    }
    let (mut still, _, _, _) = two_rpc_inner(false);
    for _ in 0..5 {
        still.select_rpc(&[RpcEndpoint::GetSlot]);
        assert_eq!(still.next_rpc_index, 0);
    }
}
