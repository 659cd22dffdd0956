use web3_proxy::errors::{ProviderFailure, Web3ProxyError};
use web3_proxy::json::{JsonMember, JsonValue};
use web3_proxy::jsonrpc::{JsonRpcErrorData, JsonRpcForwardedResponse, JsonRpcRequest};
use web3_proxy::primitives::H256;
use web3_proxy::rpcs::blocks::{reorg_from, BlockIndex, HeadSnapshot};
use web3_proxy::rpcs::connection::{Backend, Capabilities, Health, HealthLimits};
use web3_proxy::rpcs::connections::{fan_out_result, OutcomeKind, Pool, UpstreamOutcome};
use web3_proxy::rpcs::consensus::{
    consensus_head, quorum_height, to_publish, weight_from, weight_on, Report,
};
use web3_proxy::rpcs::request::{
    eth_call_params, AuthorizedRequest, ErrorAction, EthCallParams, Level, OpenRequestHandle,
    OpenRequestResult, QuotaAnswer, RequestErrorHandler, RevertChance, RevertLog,
};
use web3_proxy::rpcs::selection::{pick_weighted, share, without_handle, BestBackend};

fn hash(n: u8) -> H256 {
    let mut bytes = [0u8; 32];
    bytes[31] = n;
    H256 { bytes }
}

fn head(number: u64, this: u8, parent: u8) -> HeadSnapshot {
    HeadSnapshot { hash: hash(this), number, parent_hash: hash(parent), timestamp: number * 12 }
}

fn plain() -> Capabilities {
    Capabilities { archive: false, trace: false, debug: false }
}

fn backend(id: &str, soft_limit: u32, hard_limit: u32, weight: u32) -> Backend {
    Backend::new(id.to_string(), soft_limit, hard_limit, weight, plain(), false)
}

fn limits() -> HealthLimits {
    HealthLimits { max_lag: 2, max_failures: 3, stall_timeout: 1000 }
}

fn synced(id: &str, soft_limit: u32, at: HeadSnapshot) -> Backend {
    let mut b = backend(id, soft_limit, 10, 1);
    b.observe_head(at, 0, None, &limits());
    b.observe_head(at, 0, Some(at.number), &limits());
    assert_eq!(b.health, Health::Synced);
    b
}

#[test]
fn a_new_backend_counts_nothing() {
    let b = backend("a", 10, 5, 1);
    assert_eq!(b.active_requests, 0);
    assert_eq!(b.total_requests, 0);
    assert_eq!(b.health, Health::New);
    assert_eq!(b.head, None);
}

#[test]
fn handles_are_counted_while_they_are_out() {
    let mut b = backend("a", 10, 5, 1);
    let first = OpenRequestHandle::new(&mut b, None);
    let second = OpenRequestHandle::new(&mut b, None);
    assert_eq!(b.active_requests, 2);
    assert_eq!(b.total_requests, 2);
    assert_eq!(first.clone_connection(), "a");
    first.release(&mut b);
    assert_eq!(b.active_requests, 1);
    assert_eq!(b.total_requests, 2);
    second.release(&mut b);
    assert_eq!(b.active_requests, 0);
    assert_eq!(b.total_requests, 2);
}

#[test]
fn a_handle_serves_one_request() {
    let mut b = backend("a", 10, 5, 1);
    let mut handle = OpenRequestHandle::new(&mut b, None);
    assert!(!handle.used());
    handle.request();
    assert!(handle.used());
}

#[test]
fn an_unhealthy_backend_never_gives_a_handle() {
    let mut b = synced("a", 10, head(100, 1, 0));
    for _ in 0..3 {
        b.record_failure(&limits());
    }
    assert_eq!(b.health, Health::Unhealthy);
    assert!(!b.wants_quota(None));
    assert_eq!(b.open_handle(None, None, QuotaAnswer::Allowed, 5), OpenRequestResult::RetryNever);
    assert_eq!(b.active_requests, 0);
}

#[test]
fn a_backend_behind_the_block_never_gives_a_handle() {
    let mut b = synced("a", 10, head(100, 1, 0));
    assert!(!b.wants_quota(Some(101)));
    assert_eq!(
        b.open_handle(None, Some(101), QuotaAnswer::Allowed, 5),
        OpenRequestResult::RetryNever
    );
    assert!(b.wants_quota(Some(100)));
    let mut fresh = backend("b", 10, 5, 1);
    assert_eq!(
        fresh.open_handle(None, Some(0), QuotaAnswer::Allowed, 5),
        OpenRequestResult::RetryNever
    );
}

#[test]
fn a_backend_at_its_ceiling_is_tried_again() {
    let mut b = backend("a", 10, 1, 1);
    let result = b.open_handle(None, None, QuotaAnswer::Allowed, 7);
    assert!(matches!(result, OpenRequestResult::Handle(_)));
    assert_eq!(b.active_requests, 1);
    assert!(!b.wants_quota(None));
    assert_eq!(b.open_handle(None, None, QuotaAnswer::Allowed, 7), OpenRequestResult::RetryAt(7));
    assert_eq!(b.active_requests, 1);
    assert_eq!(b.total_requests, 1);
}

#[test]
fn the_quota_oracle_decides() {
    let mut b = backend("a", 10, 5, 1);
    assert_eq!(
        b.open_handle(None, None, QuotaAnswer::RetryAfter(250), 1000),
        OpenRequestResult::RetryAt(1250)
    );
    assert_eq!(
        b.open_handle(None, None, QuotaAnswer::RetryAfter(5), u64::MAX - 1),
        OpenRequestResult::RetryAt(u64::MAX)
    );
    assert_eq!(b.active_requests, 0);
    assert_eq!(b.total_requests, 0);
    let user = AuthorizedRequest::User { has_db: true, user_key_id: 9 };
    match b.open_handle(Some(user), None, QuotaAnswer::Allowed, 1000) {
        OpenRequestResult::Handle(handle) => {
            assert_eq!(handle.clone_connection(), "a");
            assert!(!handle.used());
        }
        other => panic!("no handle: {:?}", other),
    }
    assert_eq!(b.active_requests, 1);
    assert_eq!(b.total_requests, 1);
}

#[test]
fn health_follows_heads_failures_and_time() {
    let mut b = backend("a", 10, 5, 1);
    b.observe_head(head(90, 1, 0), 10, Some(100), &limits());
    assert_eq!(b.health, Health::Syncing);
    assert_eq!(b.head, Some(head(90, 1, 0)));
    b.observe_head(head(97, 2, 1), 20, Some(100), &limits());
    assert_eq!(b.health, Health::Syncing);
    b.observe_head(head(98, 3, 2), 30, Some(100), &limits());
    assert_eq!(b.health, Health::Synced);
    assert_eq!(b.head_seen_at, 30);
    b.record_failure(&limits());
    b.record_failure(&limits());
    assert_eq!(b.health, Health::Synced);
    b.record_success();
    assert_eq!(b.failures, 0);
    b.record_failure(&limits());
    b.record_failure(&limits());
    b.record_failure(&limits());
    assert_eq!(b.health, Health::Unhealthy);
    b.observe_head(head(99, 4, 3), 40, Some(100), &limits());
    assert_eq!(b.health, Health::Unhealthy);
    b.record_success();
    assert_eq!(b.health, Health::Syncing);
    b.observe_head(head(100, 5, 4), 50, Some(100), &limits());
    assert_eq!(b.health, Health::Synced);
    b.check_stall(1050, &limits());
    assert_eq!(b.health, Health::Synced);
    b.check_stall(1051, &limits());
    assert_eq!(b.health, Health::Unhealthy);
}

#[test]
fn syncing_needs_a_consensus_head() {
    let mut b = backend("a", 10, 5, 1);
    b.observe_head(head(90, 1, 0), 10, None, &limits());
    assert_eq!(b.health, Health::Syncing);
    b.observe_head(head(91, 2, 1), 10, None, &limits());
    assert_eq!(b.health, Health::Syncing);
}

#[test]
fn capabilities_cover_needs() {
    let archive = Capabilities { archive: true, trace: false, debug: false };
    assert!(archive.satisfies(&plain()));
    assert!(archive.satisfies(&archive));
    assert!(!plain().satisfies(&archive));
    assert!(!archive.satisfies(&Capabilities { archive: true, trace: true, debug: false }));
}

#[test]
fn handlers_from_levels() {
    assert_eq!(RequestErrorHandler::from(Level::Debug), RequestErrorHandler::DebugLevel);
    assert_eq!(RequestErrorHandler::from(Level::Warn), RequestErrorHandler::WarnLevel);
    assert_eq!(RequestErrorHandler::from(Level::Error), RequestErrorHandler::ErrorLevel);
}

fn reverted(message: &str) -> ProviderFailure {
    ProviderFailure::JsonRpc(JsonRpcErrorData { message: message.to_string(), code: 3, data: None })
}

#[test]
fn what_is_done_about_failed_requests() {
    let mut b = backend("a", 10, 5, 1);
    let user = AuthorizedRequest::User { has_db: true, user_key_id: 9 };
    let handle = OpenRequestHandle::new(&mut b, Some(user));
    let save = RequestErrorHandler::SaveReverts(RevertChance::Always);
    let revert = reverted("execution reverted: no");
    assert_eq!(handle.on_error("eth_call", save, &revert), ErrorAction::SaveRevert);
    assert_eq!(handle.on_error("eth_estimateGas", save, &revert), ErrorAction::SaveRevert);
    assert_eq!(handle.on_error("eth_getBalance", save, &revert), ErrorAction::LogDebug);
    assert_eq!(handle.on_error("eth_call", save, &reverted("out of gas")), ErrorAction::LogDebug);
    assert_eq!(
        handle.on_error("eth_call", save, &ProviderFailure::Other("closed".to_string())),
        ErrorAction::Nothing
    );
    assert_eq!(
        handle.on_error("eth_call", RequestErrorHandler::SaveReverts(RevertChance::Never), &revert),
        ErrorAction::LogDebug
    );
    let sometimes = RequestErrorHandler::SaveReverts(RevertChance::Below(10));
    assert_eq!(handle.on_error_with("eth_call", sometimes, &revert, 11), ErrorAction::LogDebug);
    assert_eq!(handle.on_error_with("eth_call", sometimes, &revert, 10), ErrorAction::SaveRevert);
    assert_eq!(handle.on_error_with("eth_call", sometimes, &revert, 0), ErrorAction::SaveRevert);
    assert_eq!(handle.on_error_with("eth_call", save, &revert, u64::MAX), ErrorAction::SaveRevert);
    assert_eq!(
        handle.on_error_with(
            "eth_call",
            RequestErrorHandler::SaveReverts(RevertChance::Never),
            &revert,
            0
        ),
        ErrorAction::LogDebug
    );
    let nearly = RequestErrorHandler::SaveReverts(RevertChance::Below(u64::MAX));
    assert_eq!(handle.on_error("eth_call", nearly, &revert), ErrorAction::SaveRevert);
    assert_eq!(handle.authorization(), &AuthorizedRequest::User { has_db: true, user_key_id: 9 });
    assert_eq!(
        handle.on_error("eth_call", RequestErrorHandler::DebugLevel, &revert),
        ErrorAction::LogDebug
    );
    assert_eq!(
        handle.on_error("eth_call", RequestErrorHandler::WarnLevel, &revert),
        ErrorAction::LogWarn
    );
    assert_eq!(
        handle.on_error("eth_call", RequestErrorHandler::ErrorLevel, &revert),
        ErrorAction::LogError
    );
    let internal = OpenRequestHandle::new(&mut b, None);
    assert_eq!(internal.on_error("eth_call", save, &revert), ErrorAction::LogDebug);
}

#[test]
fn reverts_are_recorded_for_users_with_a_database() {
    let params = || EthCallParams {
        method: "eth_call".to_string(),
        to: vec![0xde, 0xad],
        data: "0x01".to_string(),
    };
    let user = AuthorizedRequest::User { has_db: true, user_key_id: 9 };
    assert_eq!(
        user.save_revert(params(), 1234),
        Some(RevertLog {
            user_key_id: 9,
            method: "eth_call".to_string(),
            to: vec![0xde, 0xad],
            call_data: "0x01".to_string(),
            timestamp: 1234,
        })
    );
    assert!(user.has_db());
    let without = AuthorizedRequest::User { has_db: false, user_key_id: 9 };
    assert_eq!(without.save_revert(params(), 1234), None);
    let ip = AuthorizedRequest::Ip { has_db: true, ip: "1.2.3.4".to_string() };
    assert_eq!(ip.save_revert(params(), 1234), None);
    assert_eq!(AuthorizedRequest::Internal { has_db: true }.save_revert(params(), 1234), None);
}

fn report(number: u64, this: u8, parent: u8, weight: u32) -> Report {
    Report { head: head(number, this, parent), weight }
}

#[test]
fn weights_at_and_above_a_block() {
    let reports = vec![report(100, 1, 0, 5), report(101, 2, 1, 3), report(99, 9, 8, 2)];
    assert_eq!(weight_from(&reports, 99), 10);
    assert_eq!(weight_from(&reports, 100), 8);
    assert_eq!(weight_from(&reports, 101), 3);
    assert_eq!(weight_from(&reports, 102), 0);
    assert_eq!(weight_on(&reports, 100, &hash(1)), 5);
    assert_eq!(weight_on(&reports, 100, &hash(2)), 0);
    assert_eq!(weight_on(&reports, 101, &hash(2)), 3);
}

#[test]
fn the_consensus_height_is_the_greatest_with_a_quorum() {
    let reports = vec![report(100, 1, 0, 5), report(101, 2, 1, 3), report(99, 9, 8, 2)];
    assert_eq!(quorum_height(&reports, 3), Some(101));
    assert_eq!(quorum_height(&reports, 4), Some(100));
    assert_eq!(quorum_height(&reports, 8), Some(100));
    assert_eq!(quorum_height(&reports, 9), Some(99));
    assert_eq!(quorum_height(&reports, 10), Some(99));
    assert_eq!(quorum_height(&reports, 11), None);
    assert_eq!(quorum_height(&reports, 0), Some(101));
    assert_eq!(quorum_height(&vec![], 0), None);
    assert_eq!(quorum_height(&vec![], 1), None);
}

#[test]
fn the_consensus_head_is_the_block_with_most_weight() {
    let reports = vec![report(100, 1, 0, 5), report(100, 2, 0, 6), report(100, 1, 0, 2)];
    assert_eq!(consensus_head(&reports, 10, 5, &None), Some(head(100, 1, 0)));
    let reports = vec![report(100, 1, 0, 5), report(100, 2, 0, 6)];
    assert_eq!(consensus_head(&reports, 10, 5, &None), Some(head(100, 2, 0)));
}

#[test]
fn equal_weights_prefer_the_block_that_continues_the_chain() {
    let reports = vec![report(100, 1, 7, 5), report(100, 2, 8, 5)];
    assert_eq!(consensus_head(&reports, 10, 5, &Some(hash(8))), Some(head(100, 2, 8)));
    assert_eq!(consensus_head(&reports, 10, 5, &Some(hash(7))), Some(head(100, 1, 7)));
    assert_eq!(consensus_head(&reports, 10, 5, &Some(hash(9))), Some(head(100, 1, 7)));
    assert_eq!(consensus_head(&reports, 10, 5, &None), Some(head(100, 1, 7)));
}

#[test]
fn no_consensus_without_a_quorum_or_beyond_the_lag() {
    let reports = vec![report(100, 1, 0, 5), report(110, 2, 0, 3)];
    assert_eq!(consensus_head(&reports, 9, 5, &None), None);
    assert_eq!(consensus_head(&reports, 8, 5, &None), None);
    assert_eq!(consensus_head(&reports, 8, 10, &None), Some(head(100, 1, 0)));
    assert_eq!(consensus_head(&reports, 3, 5, &None), Some(head(110, 2, 0)));
    assert_eq!(consensus_head(&vec![], 0, 5, &None), None);
}

#[test]
fn the_consensus_height_never_falls_while_backends_advance() {
    let mut numbers = [100u64, 100, 99];
    let weights = [5u32, 3, 2];
    let mut last = 0;
    for step in 0..50usize {
        numbers[step % 3] += (step % 2) as u64 + 1;
        let reports: Vec<Report> = (0..3)
            .map(|i| report(numbers[i], numbers[i] as u8, 0, weights[i]))
            .collect();
        let height = quorum_height(&reports, 7).unwrap();
        assert!(height >= last);
        last = height;
    }
}

#[test]
fn only_a_new_head_is_published() {
    let a = head(100, 1, 0);
    let b = head(101, 2, 1);
    assert_eq!(to_publish(&None, &None), None);
    assert_eq!(to_publish(&Some(a), &None), None);
    assert_eq!(to_publish(&None, &Some(a)), Some(a));
    assert_eq!(to_publish(&Some(a), &Some(a)), None);
    assert_eq!(to_publish(&Some(a), &Some(b)), Some(b));
    assert!(a.same(&a));
    assert!(!a.same(&b));
}

fn answer(value: JsonValue) -> UpstreamOutcome {
    UpstreamOutcome::Response(JsonRpcForwardedResponse::from_value(value, JsonValue::Null))
}

fn node_error(message: &str) -> UpstreamOutcome {
    UpstreamOutcome::Response(JsonRpcForwardedResponse::from_str(message, -32000, None))
}

#[test]
fn outcomes_by_kind() {
    assert_eq!(answer(JsonValue::Bool(true)).classify(), OutcomeKind::Answer);
    assert_eq!(answer(JsonValue::Null).classify(), OutcomeKind::Null);
    assert_eq!(node_error("no").classify(), OutcomeKind::Error);
    assert_eq!(
        UpstreamOutcome::Failure(Web3ProxyError::NoHandleReady).classify(),
        OutcomeKind::Error
    );
}

#[test]
fn fan_out_returns_the_first_answer() {
    let result = fan_out_result(vec![
        node_error("first"),
        answer(JsonValue::Null),
        answer(JsonValue::Text("0xhash1".to_string())),
        answer(JsonValue::Text("0xhash2".to_string())),
    ]);
    assert_eq!(
        result,
        Ok(JsonRpcForwardedResponse::from_value(
            JsonValue::Text("0xhash1".to_string()),
            JsonValue::Null
        ))
    );
}

#[test]
fn fan_out_returns_the_last_error_when_all_fail() {
    let result = fan_out_result(vec![
        node_error("first"),
        UpstreamOutcome::Failure(Web3ProxyError::NoHandleReady),
        node_error("last"),
    ]);
    assert_eq!(result, Ok(JsonRpcForwardedResponse::from_str("last", -32000, None)));
    let result = fan_out_result(vec![
        node_error("first"),
        UpstreamOutcome::Failure(Web3ProxyError::NoHandleReady),
    ]);
    assert_eq!(result, Err(Web3ProxyError::NoHandleReady));
}

#[test]
fn fan_out_returns_null_when_none_knows() {
    let null = Ok(JsonRpcForwardedResponse::from_value(JsonValue::Null, JsonValue::Null));
    assert_eq!(fan_out_result(vec![answer(JsonValue::Null), answer(JsonValue::Null)]), null);
    assert_eq!(fan_out_result(vec![node_error("no"), answer(JsonValue::Null)]), null);
    assert_eq!(fan_out_result(vec![answer(JsonValue::Null), node_error("no")]), null);
}

#[test]
fn fan_out_to_nobody_has_no_servers() {
    assert_eq!(fan_out_result(vec![]), Err(Web3ProxyError::NoServersSynced));
}

#[test]
fn forks_are_found() {
    assert_eq!(reorg_from(&head(100, 1, 0), &head(100, 1, 0)), None);
    assert_eq!(reorg_from(&head(100, 1, 0), &head(101, 2, 1)), None);
    assert_eq!(reorg_from(&head(100, 1, 0), &head(103, 5, 4)), None);
    assert_eq!(reorg_from(&head(100, 1, 0), &head(100, 2, 0)), Some(100));
    assert_eq!(reorg_from(&head(100, 1, 0), &head(101, 3, 2)), Some(100));
    assert_eq!(reorg_from(&head(100, 1, 0), &head(98, 7, 6)), Some(98));
}

#[test]
fn the_block_index_holds_the_youngest_blocks() {
    let mut index = BlockIndex::new(2);
    assert_eq!(index.get(1), None);
    index.insert(1, hash(1));
    index.insert(2, hash(2));
    assert_eq!(index.get(1), Some(hash(1)));
    index.insert(3, hash(3));
    assert_eq!(index.get(1), None);
    assert_eq!(index.get(2), Some(hash(2)));
    assert_eq!(index.get(3), Some(hash(3)));
    index.insert(2, hash(9));
    assert_eq!(index.get(2), Some(hash(9)));
    assert_eq!(index.get(3), Some(hash(3)));
    assert_eq!(index.len(), 2);
    index.invalidate_from(3);
    assert_eq!(index.get(3), None);
    assert_eq!(index.get(2), Some(hash(9)));
    index.invalidate_from(0);
    assert_eq!(index.len(), 0);
    let mut none = BlockIndex::new(0);
    none.insert(1, hash(1));
    assert_eq!(none.get(1), None);
}

fn pool_of(backends: Vec<Backend>, quorum: u64) -> Pool {
    Pool::new(backends, quorum, limits(), 16)
}

#[test]
fn the_pool_follows_the_heads_of_its_backends() {
    let mut pool = pool_of(vec![backend("a", 5, 10, 1), backend("b", 5, 10, 1)], 10);
    assert_eq!(pool.head_block_number(), 0);
    assert_eq!(pool.head_block_hash(), None);
    assert_eq!(pool.num_synced_backends(), 0);
    let update = pool.on_head(0, head(100, 1, 0), 1);
    assert_eq!(update.published, None);
    assert_eq!(update.fork, None);
    let update = pool.on_head(1, head(100, 1, 0), 2);
    assert_eq!(update.consensus, Some(head(100, 1, 0)));
    assert_eq!(update.published, Some(head(100, 1, 0)));
    assert_eq!(pool.head_block_number(), 100);
    assert_eq!(pool.head_block_hash(), Some(hash(1)));
    assert_eq!(pool.block_hash(100), Some(hash(1)));
    assert_eq!(pool.block_hash(99), None);
    let update = pool.on_head(0, head(100, 1, 0), 3);
    assert_eq!(update.published, None);
    assert_eq!(pool.num_synced_backends(), 1);
    pool.on_head(1, head(100, 1, 0), 4);
    assert_eq!(pool.num_synced_backends(), 2);
    assert_eq!(pool.reports().len(), 2);
}

#[test]
fn a_reorganisation_takes_the_block_out_of_the_index() {
    let mut pool = pool_of(vec![backend("a", 10, 10, 1)], 10);
    let update = pool.on_head(0, head(100, 1, 0), 1);
    assert_eq!(update.published, Some(head(100, 1, 0)));
    assert_eq!(pool.block_hash(100), Some(hash(1)));
    let update = pool.on_head(0, head(100, 2, 0), 2);
    assert_eq!(update.fork, Some(100));
    assert_eq!(update.published, Some(head(100, 2, 0)));
    assert_eq!(pool.block_hash(100), Some(hash(2)));
    assert_eq!(pool.head_block_hash(), Some(hash(2)));
    assert_eq!(pool.index.len(), 1);
}

#[test]
fn candidates_reach_the_block_and_have_the_capabilities() {
    let archive = Capabilities { archive: true, trace: false, debug: false };
    let mut old = synced("old", 5, head(90, 1, 0));
    old.capabilities = archive;
    let pool = pool_of(
        vec![synced("a", 5, head(100, 2, 1)), old, backend("new", 5, 10, 1)],
        10,
    );
    assert_eq!(pool.candidates(None, &plain()), vec![0, 1]);
    assert_eq!(pool.candidates(Some(95), &plain()), vec![0]);
    assert_eq!(pool.candidates(Some(90), &plain()), vec![0, 1]);
    assert_eq!(pool.candidates(Some(90), &archive), vec![1]);
    assert_eq!(pool.candidates(Some(101), &plain()), Vec::<usize>::new());
}

#[test]
fn shares_follow_weight_and_room() {
    let mut b = backend("a", 5, 10, 3);
    assert_eq!(share(&b), 3000);
    b.active_requests = 5;
    assert_eq!(share(&b), 1500);
    b.active_requests = 9;
    assert_eq!(share(&b), 300);
    b.active_requests = 10;
    assert_eq!(share(&b), 0);
    b.hard_limit = 0;
    b.active_requests = 0;
    assert_eq!(share(&b), 0);
    b.hard_limit = 3;
    b.weight = 1;
    b.active_requests = 1;
    assert_eq!(share(&b), 666);
}

#[test]
fn a_draw_falls_to_its_share() {
    let shares = vec![10u128, 0, 30, 60];
    assert_eq!(pick_weighted(&shares, 0), Some(0));
    assert_eq!(pick_weighted(&shares, 9), Some(0));
    assert_eq!(pick_weighted(&shares, 10), Some(2));
    assert_eq!(pick_weighted(&shares, 39), Some(2));
    assert_eq!(pick_weighted(&shares, 40), Some(3));
    assert_eq!(pick_weighted(&shares, 99), Some(3));
    assert_eq!(pick_weighted(&shares, 100), Some(0));
    assert_eq!(pick_weighted(&shares, 1_000_000_000_045), Some(3));
    assert_eq!(pick_weighted(&vec![0, 0], 5), None);
    assert_eq!(pick_weighted(&vec![], 5), None);
}

#[test]
fn every_candidate_is_tried_once() {
    let mut busy = backend("c", 5, 1, 1);
    busy.active_requests = 1;
    let pool = pool_of(vec![backend("a", 5, 10, 1), backend("b", 5, 10, 5), busy], 10);
    for _ in 0..50 {
        let mut order = pool.best_order(vec![0, 1, 2]);
        assert_eq!(order[2], 2);
        order.sort();
        assert_eq!(order, vec![0, 1, 2]);
    }
    assert_eq!(pool.best_order(vec![]), Vec::<usize>::new());
    assert_eq!(pool.best_order(vec![1]), vec![1]);
}

#[test]
fn the_order_follows_the_draws() {
    let mut busy = backend("c", 5, 1, 1);
    busy.active_requests = 1;
    let pool = pool_of(vec![backend("a", 5, 10, 1), backend("b", 5, 10, 5), busy], 10);
    assert_eq!(pool.order_from_draws(vec![0, 1, 2], &vec![0, 0, 0]), vec![0, 1, 2]);
    assert_eq!(pool.order_from_draws(vec![0, 1, 2], &vec![999, 4999, 7]), vec![0, 1, 2]);
    assert_eq!(pool.order_from_draws(vec![0, 1, 2], &vec![1000, 0, 0]), vec![1, 0, 2]);
    assert_eq!(pool.order_from_draws(vec![0, 1, 2], &vec![5999, 999]), vec![1, 0, 2]);
    assert_eq!(pool.order_from_draws(vec![0, 1, 2], &vec![6000]), vec![0, 1, 2]);
    assert_eq!(pool.order_from_draws(vec![2, 1, 0], &vec![0, 0, 0]), vec![1, 0, 2]);
    assert_eq!(pool.order_from_draws(vec![2, 1, 0], &vec![5000]), vec![0, 2, 1]);
    assert_eq!(pool.order_from_draws(vec![0, 1, 2], &vec![]), vec![0, 1, 2]);
    assert_eq!(pool.order_from_draws(vec![], &vec![3]), Vec::<usize>::new());
}

#[test]
fn without_a_handle_the_earliest_retry_counts() {
    assert_eq!(without_handle(&vec![]), BestBackend::NoBackend);
    assert_eq!(without_handle(&vec![None, None]), BestBackend::NoBackend);
    assert_eq!(without_handle(&vec![Some(30), None, Some(10), Some(20)]), BestBackend::RetryAt(10));
    assert_eq!(without_handle(&vec![None, Some(5)]), BestBackend::RetryAt(5));
}

#[test]
fn the_pool_asks_one_backend_for_a_handle() {
    let mut pool = pool_of(vec![synced("a", 5, head(100, 1, 0)), backend("b", 5, 10, 1)], 10);
    let result = pool.try_backend(0, None, Some(100), QuotaAnswer::Allowed, 9);
    assert!(matches!(result, OpenRequestResult::Handle(_)));
    assert_eq!(pool.backends[0].active_requests, 1);
    assert_eq!(pool.backends[0].total_requests, 1);
    assert_eq!(pool.backends[1].total_requests, 0);
    let result = pool.try_backend(1, None, Some(100), QuotaAnswer::Allowed, 9);
    assert_eq!(result, OpenRequestResult::RetryNever);
}

fn call_to(to: JsonValue, data: Option<&str>) -> JsonRpcRequest {
    let mut members = vec![JsonMember { name: "to".to_string(), value: to }];
    if let Some(data) = data {
        members.push(JsonMember {
            name: "data".to_string(),
            value: JsonValue::Text(data.to_string()),
        });
    }
    JsonRpcRequest {
        id: JsonValue::Number("1".to_string()),
        method: "eth_call".to_string(),
        params: Some(JsonValue::Array(vec![
            JsonValue::Object(members),
            JsonValue::Text("latest".to_string()),
        ])),
    }
}

#[test]
fn the_call_is_read_from_the_parameters() {
    let request = call_to(JsonValue::Text("0x00ff10".to_string()), Some("0x01"));
    assert_eq!(
        eth_call_params(&request),
        Some(EthCallParams {
            method: "eth_call".to_string(),
            to: vec![0x00, 0xff, 0x10],
            data: "0x01".to_string(),
        })
    );
    let bare = call_to(JsonValue::Text("0xAb".to_string()), None);
    assert_eq!(
        eth_call_params(&bare),
        Some(EthCallParams { method: "eth_call".to_string(), to: vec![0xab], data: String::new() })
    );
    assert_eq!(eth_call_params(&call_to(JsonValue::Text("0xzz".to_string()), None)), None);
    assert_eq!(eth_call_params(&call_to(JsonValue::Number("5".to_string()), None)), None);
    let none = JsonRpcRequest { id: JsonValue::Null, method: "eth_call".to_string(), params: None };
    assert_eq!(eth_call_params(&none), None);
    let empty = JsonRpcRequest {
        id: JsonValue::Null,
        method: "eth_call".to_string(),
        params: Some(JsonValue::Array(vec![])),
    };
    assert_eq!(eth_call_params(&empty), None);
    let flat = JsonRpcRequest {
        id: JsonValue::Null,
        method: "eth_call".to_string(),
        params: Some(JsonValue::Array(vec![JsonValue::Text("0x01".to_string())])),
    };
    assert_eq!(eth_call_params(&flat), None);
}

#[test]
fn a_handle_records_the_revert_of_its_caller() {
    let mut b = backend("a", 10, 5, 1);
    let request = call_to(JsonValue::Text("0x00ff".to_string()), Some("0x01"));
    let user = AuthorizedRequest::User { has_db: true, user_key_id: 9 };
    let handle = OpenRequestHandle::new(&mut b, Some(user));
    assert_eq!(
        handle.revert_log(&request, 77),
        Some(RevertLog {
            user_key_id: 9,
            method: "eth_call".to_string(),
            to: vec![0x00, 0xff],
            call_data: "0x01".to_string(),
            timestamp: 77,
        })
    );
    assert_eq!(handle.revert_log(&call_to(JsonValue::Null, None), 77), None);
    let without = AuthorizedRequest::User { has_db: false, user_key_id: 9 };
    assert_eq!(OpenRequestHandle::new(&mut b, Some(without)).revert_log(&request, 77), None);
    assert_eq!(OpenRequestHandle::new(&mut b, None).revert_log(&request, 77), None);
}

#[test]
fn settling_a_request_counts_for_or_against_the_backend() {
    let at = head(100, 1, 0);
    let mut pool = pool_of(vec![synced("a", 10, at), synced("b", 10, at)], 10);
    let id = || JsonValue::Number("7".to_string());

    let gone = || Err(ProviderFailure::Other("connection closed".to_string()));
    for failures in 1..=3u32 {
        assert_eq!(
            pool.settle(1, id(), gone()),
            UpstreamOutcome::Failure(Web3ProxyError::EthersProvider(ProviderFailure::Other(
                "connection closed".to_string()
            )))
        );
        assert_eq!(pool.backends[1].failures, failures);
    }
    assert_eq!(pool.backends[1].health, Health::Unhealthy);
    assert_eq!(pool.backends[0].failures, 0);
    assert_eq!(pool.backends[0].health, Health::Synced);

    let refused = JsonRpcErrorData { message: "nonce too low".to_string(), code: -32000, data: None };
    assert_eq!(
        pool.settle(1, id(), Err(ProviderFailure::JsonRpc(refused.duplicate()))),
        UpstreamOutcome::Response(JsonRpcForwardedResponse::from_response_data(refused, id()))
    );
    assert_eq!(pool.backends[1].failures, 3);
    assert_eq!(pool.backends[1].health, Health::Unhealthy);

    let answer = JsonRpcForwardedResponse::from_value(JsonValue::Text("0x10".to_string()), id());
    let as_sent = JsonRpcForwardedResponse::from_value(
        JsonValue::Text("0x10".to_string()),
        JsonValue::Number("990".to_string()),
    );
    assert_eq!(pool.settle(1, id(), Ok(as_sent)), UpstreamOutcome::Response(answer));
    assert_eq!(pool.backends[1].failures, 0);
    assert_eq!(pool.backends[1].health, Health::Syncing);
}

#[test]
fn handles_released_in_any_order_leave_no_request_under_way() {
    let mut b = backend("a", 10, 5, 1);
    b.total_requests = 40;
    let first = OpenRequestHandle::new(&mut b, None);
    let second = OpenRequestHandle::new(&mut b, None);
    let third = OpenRequestHandle::new(&mut b, None);
    assert_eq!(b.active_requests, 3);
    second.release(&mut b);
    assert_eq!(b.active_requests, 2);
    third.release(&mut b);
    first.release(&mut b);
    assert_eq!(b.active_requests, 0);
    assert_eq!(b.total_requests, 43);
    let mut fresh = backend("a", 10, 5, 1);
    fresh.total_requests = 43;
    assert_eq!(b, fresh);
}

#[test]
fn one_handle_counts_one_request_on_one_backend() {
    let at = head(100, 1, 0);
    let mut pool = pool_of(vec![synced("a", 10, at), synced("b", 10, at), synced("c", 10, at)], 10);
    let total = |pool: &Pool| pool.backends.iter().map(|b| b.total_requests).sum::<u64>();
    assert_eq!(total(&pool), 0);
    let handle = match pool.try_backend(1, None, Some(100), QuotaAnswer::Allowed, 5) {
        OpenRequestResult::Handle(handle) => handle,
        other => panic!("no handle: {:?}", other),
    };
    assert_eq!(total(&pool), 1);
    assert_eq!(pool.backends[1].total_requests, 1);
    assert_eq!(pool.backends[1].active_requests, 1);
    handle.release(&mut pool.backends[1]);
    assert_eq!(pool.backends[1].active_requests, 0);
    assert_eq!(
        pool.try_backend(2, None, Some(100), QuotaAnswer::RetryAfter(10), 5),
        OpenRequestResult::RetryAt(15)
    );
    assert_eq!(pool.try_backend(0, None, Some(101), QuotaAnswer::Allowed, 5), OpenRequestResult::RetryNever);
    assert_eq!(total(&pool), 1);
}

#[test]
fn the_clock_is_looked_at_for_every_backend() {
    let at = head(100, 1, 0);
    let mut pool = pool_of(vec![synced("a", 10, at), backend("b", 10, 10, 1), synced("c", 10, at)], 10);
    pool.backends[2].head_seen_at = 900;
    pool.check_stalls(1000);
    assert_eq!(pool.backends[0].health, Health::Synced);
    assert_eq!(pool.backends[1].health, Health::New);
    assert_eq!(pool.backends[2].health, Health::Synced);
    pool.check_stalls(1001);
    assert_eq!(pool.backends[0].health, Health::Unhealthy);
    assert_eq!(pool.backends[1].health, Health::New);
    assert_eq!(pool.backends[2].health, Health::Synced);
    pool.check_stalls(1901);
    assert_eq!(pool.backends[2].health, Health::Unhealthy);
    assert_eq!(pool.backends.len(), 3);
}

#[test]
fn the_published_head_does_not_fall_when_backends_report_on() {
    let mut pool = pool_of(
        vec![backend("a", 6, 10, 1), backend("b", 6, 10, 1), backend("c", 6, 10, 1)],
        10,
    );
    let mut published = Vec::new();
    let reports = [
        (0, head(100, 1, 0)),
        (1, head(100, 1, 0)),
        (0, head(101, 2, 1)),
        (2, head(99, 9, 8)),
        (1, head(101, 2, 1)),
        (2, head(102, 3, 2)),
        (0, head(102, 3, 2)),
    ];
    for (now, (place, at)) in reports.into_iter().enumerate() {
        if let Some(new_head) = pool.on_head(place, at, now as u64).published {
            published.push(new_head.number);
        }
    }
    assert_eq!(published, vec![100, 101, 102]);
}
