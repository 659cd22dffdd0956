use web3_proxy::active_requests::{ActiveRequests, Flight};
use web3_proxy::app::{
    batch_body, batch_reply, cache_key, flatten_handle, flatten_handles, get_migrated_db,
    proxy_web3_rpc_requests, AppConfig, DatabaseOptions, DispatchPlan, Finished, JoinFailure,
    PendingRequest, PoolChoice, RateLimiterOptions, RedisPoolOptions, Reply, Role, Step,
    TopConfig, Web3ProxyApp, DEFAULT_REQUEST_TIMEOUT, PENDING_TX_CAPACITY,
};
use web3_proxy::cache::CacheKey;
use web3_proxy::errors::{RateLimit, Web3ProxyError};
use web3_proxy::user_cache::UserCacheValue;
use web3_proxy::json::{JsonMember, JsonValue};
use web3_proxy::jsonrpc::{
    JsonRpcErrorData, JsonRpcForwardedResponse, JsonRpcRequest, JsonRpcRequestEnum,
};
use web3_proxy::methods::LocalMethod;
use web3_proxy::pending_transactions::Waiting;
use web3_proxy::primitives::H256;
use web3_proxy::rpcs::blocks::HeadSnapshot;
use web3_proxy::rpcs::connection::{Backend, Capabilities, HealthLimits};
use web3_proxy::rpcs::connections::{fan_out_result, Pool, UpstreamOutcome};
use web3_proxy::rpcs::request::{OpenRequestResult, QuotaAnswer};

fn hash(n: u8) -> H256 {
    let mut bytes = [0u8; 32];
    bytes[31] = n;
    H256 { bytes }
}

fn text(s: &str) -> JsonValue {
    JsonValue::Text(s.to_string())
}

fn number(n: u64) -> JsonValue {
    JsonValue::Number(n.to_string())
}

fn config() -> AppConfig {
    AppConfig {
        user_agent: "satoshiandkin/web3_proxy/0.1.0".to_string(),
        race_on_private: true,
        max_retries: 3,
        request_timeout: 0,
    }
}

fn pool(names: &[&str]) -> Pool {
    let backends = names
        .iter()
        .map(|name| {
            Backend::new(
                name.to_string(),
                10,
                10,
                1,
                Capabilities { archive: false, trace: false, debug: false },
                false,
            )
        })
        .collect();
    Pool::new(
        backends,
        10,
        HealthLimits { max_lag: 2, max_failures: 3, stall_timeout: 1000 },
        16,
    )
}

/// An application whose one backend reports the head `0xabc` at block 100.
fn app_at_block_100() -> Web3ProxyApp {
    let mut balanced = pool(&["a"]);
    let head = HeadSnapshot { hash: hash(0xab), number: 100, parent_hash: hash(0xaa), timestamp: 0 };
    balanced.on_head(0, head, 1);
    balanced.on_head(0, head, 2);
    Web3ProxyApp::new(config(), balanced, None, 10, 10_000, 16, 60_000, 4)
}

fn request(id: u64, method: &str, params: Option<JsonValue>) -> JsonRpcRequest {
    JsonRpcRequest { id: number(id), method: method.to_string(), params }
}

fn get_balance(id: u64, block: &str) -> JsonRpcRequest {
    request(
        id,
        "eth_getBalance",
        Some(JsonValue::Array(vec![text("0xaaa"), text(block)])),
    )
}

fn value_of(step: Step) -> JsonRpcForwardedResponse {
    match step {
        Step::Done(Ok(Reply::Value(response))) => response,
        other => panic!("not answered: {:?}", other),
    }
}

fn dispatched(step: Step) -> PendingRequest {
    match step {
        Step::Dispatch { pending } => pending,
        other => panic!("not sent: {:?}", other),
    }
}

/// Sends the request to the one backend and comes back with its answer.
fn send(app: &mut Web3ProxyApp, pending: PendingRequest, result: JsonValue) -> Finished {
    let handle = match app.balanced_rpcs.try_backend(
        0,
        None,
        pending.plan.min_block,
        QuotaAnswer::Allowed,
        0,
    ) {
        OpenRequestResult::Handle(handle) => handle,
        other => panic!("no handle: {:?}", other),
    };
    handle.release(&mut app.balanced_rpcs.backends[0]);
    let response = JsonRpcForwardedResponse::from_value(result, pending.request.id.duplicate());
    app.finish(pending, Ok(response))
}

#[test]
fn a_cached_answer_needs_no_backend() {
    let mut app = app_at_block_100();
    let pending = dispatched(app.proxy_web3_rpc_request(get_balance(1, "latest")));
    assert_eq!(pending.role, Role::Leader(0));
    assert_eq!(
        pending.plan,
        DispatchPlan { pool: PoolChoice::Balanced, all: false, min_block: Some(100) }
    );
    assert_eq!(
        pending.key,
        Some(CacheKey {
            block_hash: hash(0xab),
            method: "eth_getBalance".to_string(),
            params: Some("[\"0xaaa\",\"0x64\"]".to_string()),
        })
    );
    let finished = send(&mut app, pending, text("0x10"));
    assert_eq!(finished.wake, Some(0));
    assert_eq!(
        finished.result,
        Ok(Reply::Value(JsonRpcForwardedResponse::from_value(text("0x10"), number(1))))
    );
    assert_eq!(app.balanced_rpcs.backends[0].total_requests, 1);

    match app.proxy_web3_rpc_request(get_balance(2, "latest")) {
        Step::Done(Ok(reply)) => {
            assert_eq!(
                reply,
                Reply::Cached { id: number(2), payload: b",\"result\":\"0x10\"".to_vec() }
            );
            assert_eq!(
                reply.into_bytes(),
                b"{\"jsonrpc\":\"2.0\",\"id\":2,\"result\":\"0x10\"}".to_vec()
            );
        }
        other => panic!("not from the cache: {:?}", other),
    }
    assert_eq!(app.balanced_rpcs.backends[0].total_requests, 1);
    assert_eq!(app.balanced_rpcs.backends[0].active_requests, 0);
    assert_eq!(app.active_requests().len(), 0);
}

#[test]
fn the_same_request_again_gives_the_same_bytes() {
    let mut app = app_at_block_100();
    let pending = dispatched(app.proxy_web3_rpc_request(get_balance(7, "0x64")));
    send(&mut app, pending, text("0x10"));
    let mut replies = Vec::new();
    for _ in 0..3 {
        match app.proxy_web3_rpc_request(get_balance(7, "latest")) {
            Step::Done(Ok(reply)) => replies.push(reply.into_bytes()),
            other => panic!("not from the cache: {:?}", other),
        }
    }
    assert_eq!(replies[0], b"{\"jsonrpc\":\"2.0\",\"id\":7,\"result\":\"0x10\"}".to_vec());
    assert_eq!(replies[0], replies[1]);
    assert_eq!(replies[1], replies[2]);
    assert_eq!(app.balanced_rpcs.backends[0].total_requests, 1);
}

fn eth_call(id: u64) -> JsonRpcRequest {
    request(
        id,
        "eth_call",
        Some(JsonValue::Array(vec![
            JsonValue::Object(vec![
                JsonMember { name: "to".to_string(), value: text("0xdef") },
                JsonMember { name: "data".to_string(), value: text("0x01") },
            ]),
            text("latest"),
        ])),
    )
}

#[test]
fn ten_clients_share_one_request() {
    let mut app = app_at_block_100();
    let leader = dispatched(app.proxy_web3_rpc_request(eth_call(0)));
    assert_eq!(leader.role, Role::Leader(0));
    let mut waiting = Vec::new();
    for id in 1..10 {
        match app.proxy_web3_rpc_request(eth_call(id)) {
            Step::Wait { pending, notifier } => {
                assert_eq!(notifier, 0);
                assert_eq!(pending.role, Role::Follower(0));
                waiting.push(pending);
            }
            other => panic!("not waiting: {:?}", other),
        }
    }
    assert_eq!(app.active_requests().len(), 1);
    let finished = send(&mut app, leader, text("0x2a"));
    assert_eq!(finished.wake, Some(0));
    assert_eq!(app.active_requests().len(), 0);
    let mut bodies = vec![match finished.result {
        Ok(reply) => reply.into_bytes(),
        Err(err) => panic!("failed: {:?}", err),
    }];
    for pending in waiting {
        match app.after_wait(pending) {
            Step::Done(Ok(reply)) => bodies.push(reply.into_bytes()),
            other => panic!("not from the cache: {:?}", other),
        }
    }
    assert_eq!(bodies.len(), 10);
    for (id, body) in bodies.iter().enumerate() {
        assert_eq!(
            body,
            &format!("{{\"jsonrpc\":\"2.0\",\"id\":{},\"result\":\"0x2a\"}}", id).into_bytes()
        );
    }
    assert_eq!(app.balanced_rpcs.backends[0].total_requests, 1);
}

#[test]
fn a_follower_leads_when_the_leader_failed() {
    let mut app = app_at_block_100();
    let leader = dispatched(app.proxy_web3_rpc_request(eth_call(0)));
    let follower = match app.proxy_web3_rpc_request(eth_call(1)) {
        Step::Wait { pending, .. } => pending,
        other => panic!("not waiting: {:?}", other),
    };
    let finished = app.finish(leader, Err(Web3ProxyError::NoHandleReady));
    assert_eq!(finished.result, Err(Web3ProxyError::NoHandleReady));
    assert_eq!(finished.wake, Some(0));
    assert_eq!(app.response_cache.len(), 0);
    let retried = dispatched(app.after_wait(follower));
    assert_eq!(retried.role, Role::Leader(1));
    assert_eq!(app.active_requests().len(), 1);
}

#[test]
fn a_request_that_runs_out_of_time_is_given_up() {
    let mut app = app_at_block_100();
    assert_eq!(app.request_timeout(), 120);
    assert_eq!(DEFAULT_REQUEST_TIMEOUT, 120);
    let leader = dispatched(app.proxy_web3_rpc_request(eth_call(0)));
    let follower = match app.proxy_web3_rpc_request(eth_call(1)) {
        Step::Wait { pending, .. } => pending,
        other => panic!("not waiting: {:?}", other),
    };
    let gone = app.abandon(follower);
    assert_eq!(gone.result, Err(Web3ProxyError::Timeout(None)));
    assert_eq!(gone.wake, None);
    assert_eq!(app.active_requests().len(), 1);
    let gone = app.abandon(leader);
    assert_eq!(gone.result, Err(Web3ProxyError::Timeout(None)));
    assert_eq!(gone.wake, Some(0));
    assert_eq!(app.active_requests().len(), 0);
    app.config.request_timeout = 30;
    assert_eq!(app.request_timeout(), 30);
}

#[test]
fn a_response_too_large_for_the_cache_is_not_cached() {
    let mut balanced = pool(&["a"]);
    let head = HeadSnapshot { hash: hash(1), number: 100, parent_hash: hash(0), timestamp: 0 };
    balanced.on_head(0, head, 1);
    let mut app = Web3ProxyApp::new(config(), balanced, None, 10, 8, 16, 60_000, 4);
    let pending = dispatched(app.proxy_web3_rpc_request(eth_call(0)));
    let finished = send(&mut app, pending, text("0x0123456789"));
    assert_eq!(finished.wake, Some(0));
    assert_eq!(app.response_cache.len(), 0);
    let again = dispatched(app.proxy_web3_rpc_request(eth_call(1)));
    assert_eq!(again.role, Role::Leader(1));
}

#[test]
fn a_blocked_method_is_refused_without_a_backend() {
    let mut app = app_at_block_100();
    let step = app.proxy_web3_rpc_request(request(1, "personal_sign", None));
    assert_eq!(step, Step::Done(Err(Web3ProxyError::MethodBlocked)));
    let (_, response) =
        Web3ProxyError::MethodBlocked.into_response_with_id(Some(number(1)));
    assert_eq!(
        response.to_text(),
        "{\"jsonrpc\":\"2.0\",\"id\":1,\"error\":{\"code\":-32601,\"message\":\"unsupported\"}}"
    );
    assert_eq!(app.balanced_rpcs.backends[0].total_requests, 0);
    assert_eq!(app.active_requests().len(), 0);
}

#[test]
fn filters_and_subscriptions_are_refused() {
    let mut app = app_at_block_100();
    assert_eq!(
        app.proxy_web3_rpc_request(request(1, "eth_newFilter", None)),
        Step::Done(Err(Web3ProxyError::NotImplemented("eth_newFilter".to_string())))
    );
    assert_eq!(
        app.proxy_web3_rpc_request(request(1, "eth_subscribe", None)),
        Step::Done(Err(Web3ProxyError::WebsocketOnly))
    );
}

#[test]
fn raw_transactions_go_to_every_private_relay() {
    let mut app = app_at_block_100();
    app.private_rpcs = Some(pool(&["relay1", "relay2"]));
    let raw = request(1, "eth_sendRawTransaction", Some(JsonValue::Array(vec![text("0x02ff")])));
    let pending = dispatched(app.proxy_web3_rpc_request(raw.duplicate()));
    assert_eq!(pending.plan, DispatchPlan { pool: PoolChoice::Private, all: true, min_block: None });
    assert_eq!(pending.key, None);
    assert_eq!(pending.role, Role::Direct);
    assert_eq!(pending.request, raw);
    assert_eq!(app.private_rpcs().backends.len(), 2);

    let first_success = fan_out_result(vec![
        UpstreamOutcome::Response(JsonRpcForwardedResponse::from_value(text("0xhash"), number(1))),
        UpstreamOutcome::Response(JsonRpcForwardedResponse::from_str("known", -32000, Some(number(1)))),
    ]);
    let finished = app.finish(pending, first_success);
    assert_eq!(finished.wake, None);
    assert_eq!(
        finished.result,
        Ok(Reply::Value(JsonRpcForwardedResponse::from_value(text("0xhash"), number(1))))
    );
    assert_eq!(app.response_cache.len(), 0);

    let both_fail = fan_out_result(vec![
        UpstreamOutcome::Response(JsonRpcForwardedResponse::from_str("first", -32000, Some(number(1)))),
        UpstreamOutcome::Response(JsonRpcForwardedResponse::from_str("last", -32000, Some(number(1)))),
    ]);
    assert_eq!(
        both_fail,
        Ok(JsonRpcForwardedResponse::from_str("last", -32000, Some(number(1))))
    );
}

#[test]
fn raw_transactions_go_to_the_balanced_pool_without_relays() {
    let mut app = app_at_block_100();
    let raw = request(1, "eth_sendRawTransaction", Some(JsonValue::Array(vec![text("0x02ff")])));
    let pending = dispatched(app.proxy_web3_rpc_request(raw));
    assert_eq!(
        pending.plan,
        DispatchPlan { pool: PoolChoice::Balanced, all: true, min_block: None }
    );
    assert_eq!(app.private_rpcs().backends.len(), 1);
}

#[test]
fn lookups_of_transactions_race_and_are_cached() {
    let mut app = app_at_block_100();
    app.private_rpcs = Some(pool(&["relay1"]));
    let lookup = request(1, "eth_getTransactionByHash", Some(JsonValue::Array(vec![text("0xabc")])));
    let pending = dispatched(app.proxy_web3_rpc_request(lookup));
    assert_eq!(pending.plan, DispatchPlan { pool: PoolChoice::Private, all: true, min_block: None });
    assert_eq!(pending.role, Role::Leader(0));
    assert_eq!(
        pending.key,
        Some(CacheKey {
            block_hash: hash(0xab),
            method: "eth_getTransactionByHash".to_string(),
            params: Some("[\"0xabc\"]".to_string()),
        })
    );
    app.config.race_on_private = false;
    let lookup = request(2, "eth_getTransactionReceipt", Some(JsonValue::Array(vec![text("0xabc")])));
    let pending = dispatched(app.proxy_web3_rpc_request(lookup));
    assert_eq!(pending.plan.pool, PoolChoice::Balanced);
    assert!(pending.plan.all);
}

#[test]
fn a_block_that_is_not_indexed_is_fetched_first() {
    let mut app = app_at_block_100();
    let step = app.proxy_web3_rpc_request(get_balance(1, "0x5a"));
    let pending = match step {
        Step::FetchBlockHash { pending, number } => {
            assert_eq!(number, 90);
            pending
        }
        other => panic!("not fetching: {:?}", other),
    };
    assert_eq!(pending.plan.min_block, Some(90));
    let sent = dispatched(app.enter(pending, Some(hash(0x90))));
    assert_eq!(sent.role, Role::Leader(0));
    assert_eq!(sent.key.as_ref().map(|k| k.block_hash), Some(hash(0x90)));
}

#[test]
fn without_a_block_hash_the_request_is_not_cached() {
    let mut app = app_at_block_100();
    let step = app.proxy_web3_rpc_request(get_balance(1, "0x5a"));
    let pending = match step {
        Step::FetchBlockHash { pending, .. } => pending,
        other => panic!("not fetching: {:?}", other),
    };
    let sent = dispatched(app.enter(pending, None));
    assert_eq!(sent.role, Role::Direct);
    assert_eq!(sent.key, None);
    let finished = send(&mut app, sent, text("0x1"));
    assert_eq!(finished.wake, None);
    assert_eq!(app.response_cache.len(), 0);

    let mut empty = Web3ProxyApp::new(config(), pool(&["a"]), None, 10, 100, 16, 60_000, 4);
    let sent = dispatched(empty.proxy_web3_rpc_request(request(1, "eth_gasPrice", None)));
    assert_eq!(sent.role, Role::Direct);
    assert_eq!(sent.key, None);
}

#[test]
fn answers_without_a_backend() {
    let mut app = app_at_block_100();
    let mut ask = |method: &str| value_of(app.proxy_web3_rpc_request(request(5, method, None)));
    assert_eq!(ask("eth_accounts").to_text(), "{\"jsonrpc\":\"2.0\",\"id\":5,\"result\":[]}");
    assert_eq!(ask("eth_blockNumber").result, Some(text("0x64")));
    assert_eq!(
        ask("eth_coinbase").result,
        Some(text("0x0000000000000000000000000000000000000000"))
    );
    assert_eq!(ask("eth_hashrate").result, Some(text("0x0")));
    assert_eq!(ask("eth_mining").result, Some(JsonValue::Bool(false)));
    assert_eq!(ask("eth_syncing").result, Some(JsonValue::Bool(false)));
    assert_eq!(ask("net_listening").result, Some(JsonValue::Bool(true)));
    assert_eq!(ask("net_peerCount").result, Some(number(1)));
    assert_eq!(ask("web3_clientVersion").result, Some(text("satoshiandkin/web3_proxy/0.1.0")));
}

#[test]
fn the_block_number_needs_a_head() {
    let mut app = Web3ProxyApp::new(config(), pool(&["a"]), None, 10, 100, 16, 60_000, 4);
    assert_eq!(
        app.proxy_web3_rpc_request(request(1, "eth_blockNumber", None)),
        Step::Done(Err(Web3ProxyError::NoServersSynced))
    );
    assert_eq!(
        app.local_answer(LocalMethod::BlockNumber, &None),
        Err(Web3ProxyError::NoServersSynced)
    );
    assert_eq!(app.local_answer(LocalMethod::NetPeerCount, &None), Ok(number(0)));
}

#[test]
fn sha3_is_answered_locally() {
    let mut app = app_at_block_100();
    let step = app.proxy_web3_rpc_request(request(
        1,
        "web3_sha3",
        Some(JsonValue::Array(vec![text("0x68656c6c6f")])),
    ));
    assert_eq!(
        value_of(step).result,
        Some(text("0x1c8aff950685c2ed4bc3174f3472287b56d9517b9c948127319a09a7a36deac8"))
    );
    assert_eq!(
        app.proxy_web3_rpc_request(request(1, "web3_sha3", None)),
        Step::Done(Err(Web3ProxyError::BadRequest("invalid request".to_string())))
    );
}

#[test]
fn cache_keys_hold_hash_method_and_params() {
    let with = request(1, "eth_call", Some(JsonValue::Array(vec![number(1)])));
    assert_eq!(
        cache_key(hash(3), &with),
        CacheKey { block_hash: hash(3), method: "eth_call".to_string(), params: Some("[1]".to_string()) }
    );
    let without = request(1, "eth_gasPrice", None);
    assert_eq!(
        cache_key(hash(3), &without),
        CacheKey { block_hash: hash(3), method: "eth_gasPrice".to_string(), params: None }
    );
}

#[test]
fn one_leader_for_a_key_at_a_time() {
    let mut registry = ActiveRequests::new();
    let key = |name: &str| CacheKey { block_hash: hash(1), method: name.to_string(), params: None };
    assert_eq!(registry.claim(&key("a")), Flight::Leader(0));
    assert_eq!(registry.claim(&key("a")), Flight::Follower(0));
    assert_eq!(registry.claim(&key("b")), Flight::Leader(1));
    assert_eq!(registry.claim(&key("a")), Flight::Follower(0));
    assert!(registry.contains(&key("a")));
    assert_eq!(registry.len(), 2);
    assert_eq!(registry.remove(&key("a")), Some(0));
    assert_eq!(registry.remove(&key("a")), None);
    assert!(!registry.contains(&key("a")));
    assert_eq!(registry.claim(&key("a")), Flight::Leader(2));
    assert_eq!(registry.claim(&key("b")), Flight::Follower(1));
    assert_eq!(registry.len(), 2);
}

fn caller() -> RateLimit {
    RateLimit { ip: "1.2.3.4".to_string(), rpc_secret_key_id: None, retry_in_secs: None }
}

#[test]
fn retries_end_when_tries_run_out() {
    let app = app_at_block_100();
    assert_eq!(app.retry(0, Some(500), 100, caller()), Ok(500));
    assert_eq!(app.retry(2, Some(500), 100, caller()), Ok(500));
    assert_eq!(
        app.retry(3, Some(5500), 100, caller()),
        Err(Web3ProxyError::RateLimited(RateLimit {
            ip: "1.2.3.4".to_string(),
            rpc_secret_key_id: None,
            retry_in_secs: Some(5),
        }))
    );
    assert_eq!(
        app.retry(3, Some(50), 100, caller()),
        Err(Web3ProxyError::RateLimited(RateLimit {
            ip: "1.2.3.4".to_string(),
            rpc_secret_key_id: None,
            retry_in_secs: Some(0),
        }))
    );
    assert_eq!(app.retry(0, None, 100, caller()), Err(Web3ProxyError::NoServersSynced));
}

#[test]
fn a_fetched_block_hash_is_filed() {
    let mut app = app_at_block_100();
    let pending = match app.proxy_web3_rpc_request(get_balance(1, "0x5a")) {
        Step::FetchBlockHash { pending, .. } => pending,
        other => panic!("not fetching: {:?}", other),
    };
    let sent = dispatched(app.resume_with_block_hash(pending, 90, Some(hash(0x90))));
    assert_eq!(sent.role, Role::Leader(0));
    assert_eq!(app.balanced_rpcs.block_hash(90), Some(hash(0x90)));
    let follower = app.proxy_web3_rpc_request(get_balance(2, "0x5a"));
    assert!(matches!(follower, Step::Wait { notifier: 0, .. }));
}

#[test]
fn a_reorganisation_orphans_what_was_confirmed() {
    let mut app = Web3ProxyApp::new(config(), pool(&["a"]), None, 10, 100, 16, 60_000, 4);
    let g = hash(0x10);
    let h1 = HeadSnapshot { hash: hash(0x11), number: 100, parent_hash: g, timestamp: 0 };
    let h2 = HeadSnapshot { hash: hash(0x12), number: 100, parent_hash: g, timestamp: 0 };
    assert!(app.on_pending(hash(1), 0));
    assert!(!app.on_pending(hash(1), 0));
    assert_eq!(app.pending_transactions().get(&hash(1)), Some(Waiting::Pending));

    let news = app.on_head(0, h1, vec![hash(1), hash(2)], 1);
    assert_eq!(news.update.published, Some(h1));
    assert_eq!(news.confirmed, vec![hash(1), hash(2)]);
    assert_eq!(news.orphaned, Vec::<H256>::new());
    assert_eq!(app.pending_transactions().get(&hash(1)), None);
    assert_eq!(app.balanced_rpcs().block_hash(100), Some(hash(0x11)));

    let news = app.on_head(0, h2, vec![hash(3)], 2);
    assert_eq!(news.update.fork, Some(100));
    assert_eq!(news.update.published, Some(h2));
    assert_eq!(news.orphaned, vec![hash(1), hash(2)]);
    assert_eq!(news.confirmed, vec![hash(3)]);
    assert_eq!(app.balanced_rpcs().block_hash(100), Some(hash(0x12)));
    assert_eq!(app.balanced_rpcs().index.len(), 1);
    assert_eq!(app.pending_transactions().get(&hash(1)), Some(Waiting::Orphaned));
    assert_eq!(app.pending_transactions().get(&hash(2)), Some(Waiting::Orphaned));
    assert_eq!(app.pending_transactions().get(&hash(3)), None);
    assert!(app.on_pending(hash(1), 2));
    assert_eq!(app.pending_transactions().get(&hash(1)), Some(Waiting::Pending));

    let same = app.on_head(0, h2, vec![hash(3)], 3);
    assert_eq!(same.update.published, None);
    assert_eq!(same.orphaned, Vec::<H256>::new());
    assert_eq!(same.confirmed, Vec::<H256>::new());
}

#[test]
fn stale_transactions_are_put_out() {
    let mut app = app_at_block_100();
    assert!(app.on_pending(hash(1), 1_000));
    assert!(app.on_pending(hash(2), 30_000));
    assert!(!app.on_pending(hash(2), 61_000));
    assert_eq!(app.pending_transactions().get(&hash(1)), Some(Waiting::Pending));
    assert!(app.on_pending(hash(3), 61_001));
    assert_eq!(app.pending_transactions().get(&hash(1)), None);
    assert_eq!(app.pending_transactions().get(&hash(2)), Some(Waiting::Pending));
    assert!(app.on_pending(hash(1), 61_002));
    assert_eq!(app.pending_transactions().len(), 3);
}

#[test]
fn users_are_cached_for_as_many_as_there_is_room() {
    let mut app = app_at_block_100();
    let user = |id: i64| UserCacheValue { expires_at: 1000, user_id: id, user_count_per_period: 60 };
    assert_eq!(app.user_cache().len(), 0);
    for key in 1..=5u128 {
        app.user_cache.insert(key, user(key as i64));
    }
    assert_eq!(app.user_cache().len(), 4);
    assert_eq!(app.user_cache().get(1), None);
    assert_eq!(app.user_cache().get(2), Some(user(2)));
    app.user_cache.insert(2, user(20));
    assert_eq!(app.user_cache().get(2), Some(user(20)));
    app.user_cache.insert(6, user(6));
    assert_eq!(app.user_cache().get(3), None);
    assert_eq!(app.user_cache().get(2), Some(user(20)));
    assert_eq!(app.user_cache().len(), 4);
}

#[test]
fn a_subscription_is_opened_through_the_application() {
    let app = app_at_block_100();
    let mut counter = 1u64;
    let payload = request(4, "eth_subscribe", Some(JsonValue::Array(vec![text("newHeads")])));
    let (subscription, response) = app.eth_subscribe(payload, &mut counter).unwrap();
    assert_eq!(subscription.id, 1);
    assert_eq!(response.to_text(), "{\"jsonrpc\":\"2.0\",\"id\":4,\"result\":\"0x1\"}");
    assert_eq!(counter, 2);
}

#[test]
fn batches_are_answered_in_order() {
    let a = JsonRpcForwardedResponse::from_value(text("a"), number(1));
    let b = JsonRpcForwardedResponse::from_value(text("b"), number(2));
    assert_eq!(
        proxy_web3_rpc_requests(vec![Ok(a.duplicate()), Ok(b.duplicate())]),
        Ok(vec![a.duplicate(), b.duplicate()])
    );
    assert_eq!(proxy_web3_rpc_requests(vec![]), Ok(vec![]));
    assert_eq!(
        proxy_web3_rpc_requests(vec![
            Ok(a),
            Err(Web3ProxyError::NotFound),
            Ok(b),
            Err(Web3ProxyError::BadRouting)
        ]),
        Err(Web3ProxyError::NotFound)
    );
}

#[test]
fn a_call_holds_one_request_or_a_batch() {
    let app = app_at_block_100();
    let one = request(1, "eth_gasPrice", None);
    let two = request(2, "eth_chainId", None);
    assert_eq!(
        app.proxy_web3_rpc(JsonRpcRequestEnum::Single(request(1, "eth_gasPrice", None))),
        (vec![request(1, "eth_gasPrice", None)], 120)
    );
    assert_eq!(
        app.proxy_web3_rpc(JsonRpcRequestEnum::Batch(vec![one, two])),
        (vec![request(1, "eth_gasPrice", None), request(2, "eth_chainId", None)], 120)
    );
}

#[test]
fn the_answers_to_a_batch_stand_in_brackets() {
    assert_eq!(batch_body(&vec![]), b"[]".to_vec());
    assert_eq!(batch_body(&vec![b"{}".to_vec()]), b"[{}]".to_vec());
    assert_eq!(
        batch_body(&vec![b"{\"a\":1}".to_vec(), b"2".to_vec(), b"null".to_vec()]),
        b"[{\"a\":1},2,null]".to_vec()
    );
}

#[test]
fn joined_tasks_are_flattened() {
    assert_eq!(flatten_handle(Ok(Ok(3u8))), Ok(3));
    assert_eq!(flatten_handle::<u8>(Ok(Err(Web3ProxyError::NotFound))), Err(Web3ProxyError::NotFound));
    assert_eq!(
        flatten_handle::<u8>(Err(JoinFailure::Cancelled)),
        Err(Web3ProxyError::JoinError { cancelled: true })
    );
    assert_eq!(
        flatten_handle::<u8>(Err(JoinFailure::Panicked)),
        Err(Web3ProxyError::JoinError { cancelled: false })
    );
    assert_eq!(flatten_handles::<u8>(vec![]), Ok(()));
    assert_eq!(flatten_handles(vec![Ok(Ok(1u8)), Ok(Ok(2))]), Ok(()));
    assert_eq!(
        flatten_handles(vec![
            Ok(Ok(1u8)),
            Err(JoinFailure::Panicked),
            Ok(Err(Web3ProxyError::NotFound))
        ]),
        Err(Web3ProxyError::JoinError { cancelled: false })
    );
    assert_eq!(
        flatten_handles::<u8>(vec![Ok(Err(Web3ProxyError::NotFound)), Err(JoinFailure::Cancelled)]),
        Err(Web3ProxyError::NotFound)
    );
}

#[test]
fn the_application_starts_from_its_configuration() {
    let top = TopConfig {
        db_url: Some("mysql://db".to_string()),
        redis_url: Some("redis://store".to_string()),
        public_rate_limit_per_minute: 100,
        response_cache_max_entries: 50,
        response_cache_max_bytes: 1000,
        pending_transactions_max_entries: 20,
        pending_transactions_max_age: 60_000,
        app: config(),
    };
    let app = Web3ProxyApp::spawn(top, pool(&["a"]), None, 8);
    assert_eq!(app.config, config());
    assert_eq!(app.response_cache.len(), 0);
    assert_eq!(app.pending_transactions().len(), 0);
    assert_eq!(app.balanced_rpcs().backends.len(), 1);
    assert_eq!(
        app.db_conn(),
        Some(&DatabaseOptions {
            url: "mysql://db".to_string(),
            max_connections: 99,
            min_connections: 8,
            connect_timeout: 8,
            idle_timeout: 8,
            max_lifetime: 60,
            sqlx_logging: false,
        })
    );
    assert_eq!(app.db_conn(), Some(&get_migrated_db("mysql://db".to_string(), 8)));
    assert_eq!(
        app.redis_pool(),
        Some(&RedisPoolOptions { url: "redis://store".to_string(), min_idle: 8, max_size: 32 })
    );
    assert_eq!(
        app.rate_limiter(),
        Some(&RateLimiterOptions { max_burst: 33, count_per_period: 100, period: 60 })
    );
    assert_eq!(PENDING_TX_CAPACITY, 256);
    assert_eq!(app.user_cache().len(), 0);

    let bare = TopConfig {
        db_url: None,
        redis_url: None,
        public_rate_limit_per_minute: 100,
        response_cache_max_entries: 50,
        response_cache_max_bytes: 1000,
        pending_transactions_max_entries: 20,
        pending_transactions_max_age: 60_000,
        app: config(),
    };
    let app = Web3ProxyApp::spawn(bare, pool(&["a"]), None, u32::MAX);
    assert_eq!(app.db_conn(), None);
    assert_eq!(app.redis_pool(), None);
    assert_eq!(app.rate_limiter(), None);
}

fn refusal(message: &str, id: u64) -> JsonRpcForwardedResponse {
    JsonRpcForwardedResponse::from_response_data(
        JsonRpcErrorData { message: message.to_string(), code: -32000, data: None },
        number(id),
    )
}

#[test]
fn an_error_of_the_node_is_handed_on_and_not_cached() {
    let mut app = app_at_block_100();
    let pending = dispatched(app.proxy_web3_rpc_request(get_balance(1, "latest")));
    assert_eq!(pending.role, Role::Leader(0));
    let finished = app.finish(pending, Ok(refusal("header not found", 1)));
    assert_eq!(finished.wake, Some(0));
    assert_eq!(finished.result, Ok(Reply::Value(refusal("header not found", 1))));
    assert_eq!(app.response_cache.len(), 0);
    assert_eq!(app.active_requests().len(), 0);

    let again = dispatched(app.proxy_web3_rpc_request(get_balance(2, "latest")));
    assert_eq!(again.role, Role::Leader(1));
    let finished = send(&mut app, again, text("0x10"));
    assert_eq!(finished.wake, Some(1));
    assert_eq!(app.response_cache.len(), 1);
}

#[test]
fn a_lookup_that_every_backend_refused_is_not_cached() {
    let mut app = app_at_block_100();
    let lookup = request(1, "eth_getTransactionByHash", Some(JsonValue::Array(vec![text("0xabc")])));
    let pending = dispatched(app.proxy_web3_rpc_request(lookup));
    assert!(pending.plan.all);
    assert!(pending.key.is_some());
    let outcome = fan_out_result(vec![
        UpstreamOutcome::Response(refusal("first", 1)),
        UpstreamOutcome::Failure(Web3ProxyError::NoServersSynced),
        UpstreamOutcome::Response(refusal("last", 1)),
    ]);
    assert_eq!(outcome, Ok(refusal("last", 1)));
    let finished = app.finish(pending, outcome);
    assert_eq!(finished.result, Ok(Reply::Value(refusal("last", 1))));
    assert_eq!(app.response_cache.len(), 0);
    assert_eq!(app.active_requests().len(), 0);

    let lookup = request(2, "eth_getTransactionByHash", Some(JsonValue::Array(vec![text("0xabc")])));
    let pending = dispatched(app.proxy_web3_rpc_request(lookup));
    assert_eq!(pending.role, Role::Leader(1));
}

#[test]
fn a_private_pool_without_backends_is_no_private_pool() {
    let bare = TopConfig {
        db_url: None,
        redis_url: None,
        public_rate_limit_per_minute: 100,
        response_cache_max_entries: 50,
        response_cache_max_bytes: 1000,
        pending_transactions_max_entries: 20,
        pending_transactions_max_age: 60_000,
        app: config(),
    };
    let mut app = Web3ProxyApp::spawn(bare, pool(&["a", "b"]), Some(pool(&[])), 8);
    assert!(app.private_rpcs.is_none());
    assert!(!app.has_private_relays());
    assert!(std::ptr::eq(app.private_rpcs(), app.balanced_rpcs()));
    assert_eq!(app.private_rpcs().backends.len(), 2);
    assert_eq!(app.response_cache.len(), 0);
    assert_eq!(app.active_requests().len(), 0);
    assert_eq!(app.db_conn(), None);
    assert_eq!(app.redis_pool(), None);
    assert_eq!(app.rate_limiter(), None);

    let raw = request(1, "eth_sendRawTransaction", Some(JsonValue::Array(vec![text("0x02ff")])));
    let pending = dispatched(app.proxy_web3_rpc_request(raw.duplicate()));
    assert_eq!(pending.plan, DispatchPlan { pool: PoolChoice::Balanced, all: true, min_block: None });

    app.private_rpcs = Some(pool(&[]));
    assert!(!app.has_private_relays());
    assert_eq!(app.private_rpcs().backends.len(), 2);
    let pending = dispatched(app.proxy_web3_rpc_request(raw));
    assert_eq!(pending.plan.pool, PoolChoice::Balanced);

    let with_relays =
        Web3ProxyApp::new(config(), pool(&["a"]), Some(pool(&["r1", "r2"])), 10, 1000, 16, 1000, 4);
    assert!(with_relays.has_private_relays());
    assert_eq!(with_relays.private_rpcs().backends.len(), 2);
    let none = Web3ProxyApp::new(config(), pool(&["a"]), None, 10, 1000, 16, 1000, 4);
    assert!(std::ptr::eq(none.private_rpcs(), none.balanced_rpcs()));
}

#[test]
fn a_batch_fails_as_a_whole_with_its_first_error() {
    let value = |n: u64| Reply::Value(JsonRpcForwardedResponse::from_value(text("0x1"), number(n)));
    assert_eq!(
        batch_reply(vec![
            Ok(value(1)),
            Ok(Reply::Cached { id: number(2), payload: b",\"result\":\"0x10\"".to_vec() }),
        ]),
        Ok(b"[{\"jsonrpc\":\"2.0\",\"id\":1,\"result\":\"0x1\"},{\"jsonrpc\":\"2.0\",\"id\":2,\"result\":\"0x10\"}]"
            .to_vec())
    );
    assert_eq!(batch_reply(vec![]), Ok(b"[]".to_vec()));
    assert_eq!(
        batch_reply(vec![Ok(value(1))]),
        Ok(b"[{\"jsonrpc\":\"2.0\",\"id\":1,\"result\":\"0x1\"}]".to_vec())
    );
    assert_eq!(
        batch_reply(vec![
            Ok(value(1)),
            Err(Web3ProxyError::MethodBlocked),
            Err(Web3ProxyError::NoServersSynced),
            Ok(value(4)),
        ]),
        Err(Web3ProxyError::MethodBlocked)
    );
}
