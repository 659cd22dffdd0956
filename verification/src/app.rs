//! The application: what the proxy does with a request, step by step.
//!
//! A request is answered at once where the proxy can answer it by itself
//! or finds the answer in its cache. Otherwise the caller is told what to
//! do next: look up the hash of a block, wait for a request that is
//! already on its way, or send the request to a pool of backends. The
//! caller does that and comes back with what it got.

use vstd::prelude::*;
use crate::active_requests::{
    ActiveRequests, Flight, Flights, in_flight, landed, notifier_of, taken_off,
};
use crate::block_helpers::{
    block_needed, block_needed_spec, block_param_place, lemma_latest_is_head,
    normalized_params,
};
use crate::cache::{
    CacheEntryModel, CacheKey, CacheKeyModel, ResponseCache, cacheable, inserted,
    lemma_get_after_insert, lookup,
};
use crate::errors::{RateLimit, Web3ProxyError};
use crate::json::{JsonModel, JsonValue, json_text};
use crate::json_decoding::{lemma_json_text_is_unique, well_formed};
use crate::jsonrpc::{
    JsonRpcForwardedResponse, JsonRpcRequest, JsonRpcRequestEnum, payload_text, response_head,
    response_text,
};
use crate::methods::{LocalMethod, MethodClass, classify, method_class};
use crate::pending_transactions::{
    ConfirmedBlock, ConfirmedLog, ConfirmedModel, PendingTransactions, TxNews, WaitingTx,
    after_news, after_news_of_all, blocks_below, is_news, lemma_transactions_from_holds,
    transactions_from, unexpired, with_block,
};
use crate::primitives::H256;
use crate::rpcs::blocks::{HeadSnapshot, filed, indexed_hash, reorg_from};
use crate::rpcs::connections::{HeadUpdate, Pool, fork_point_of, head_taken, synced_count};
use crate::sha3::{hex_decoded, keccak256_digest, sha3_input, web3_sha3};
use crate::subscriptions::{Subscription, eth_subscribe, subscribed};
use crate::text::{decimal, hex_data, hex_quantity, u64_to_decimal, u64_to_hex_quantity};
use crate::user_cache::{CachedUser, UserCache};

verus! {

/// The seconds that a request may take unless the configuration says
/// otherwise.
pub const DEFAULT_REQUEST_TIMEOUT: u64 = 120;

/// What the proxy is set up with.
#[derive(Debug, PartialEq, Eq)]
pub struct AppConfig {
    /// What the proxy answers to `web3_clientVersion`.
    pub user_agent: String,
    /// Whether lookups of transactions race over the private relays rather
    /// than over the balanced pool.
    pub race_on_private: bool,
    /// How often a request is tried again when no backend is ready.
    pub max_retries: u32,
    /// The seconds that a request may take.
    pub request_timeout: u64,
}

/// The pool that a request goes to.
#[derive(Debug, Clone, Copy, PartialEq, Eq, Structural)]
pub enum PoolChoice {
    Balanced,
    Private,
}

/// How a request is sent upstream.
#[derive(Debug, Clone, Copy, PartialEq, Eq, Structural)]
pub struct DispatchPlan {
    pub pool: PoolChoice,
    /// Whether the request goes to every eligible backend at once rather
    /// than to the best one.
    pub all: bool,
    /// The least block that a backend must have.
    pub min_block: Option<u64>,
}

/// The part that a request plays among those for the same cache key.
#[derive(Debug, Clone, Copy, PartialEq, Eq, Structural)]
pub enum Role {
    /// The request is not cached and goes out by itself.
    Direct,
    /// The request goes out for all; the others wait on this notifier.
    Leader(u64),
    /// The request waits on this notifier.
    Follower(u64),
}

/// A request that is not answered yet.
#[derive(Debug, PartialEq, Eq)]
pub struct PendingRequest {
    /// The request as it is sent on.
    pub request: JsonRpcRequest,
    pub plan: DispatchPlan,
    pub key: Option<CacheKey>,
    pub role: Role,
}

/// What a client gets.
#[derive(Debug, PartialEq, Eq)]
pub enum Reply {
    /// A response as it stands.
    Value(JsonRpcForwardedResponse),
    /// The id of the request and, from the cache, the members of the
    /// response that say what was answered.
    Cached { id: JsonValue, payload: Vec<u8> },
}

/// What is to be done next for a request.
#[derive(Debug, PartialEq, Eq)]
pub enum Step {
    /// The request is answered.
    Done(Result<Reply, Web3ProxyError>),
    /// Ask a synced backend for the hash of block `number` and come back
    /// with it to `resume_with_block_hash`.
    FetchBlockHash { pending: PendingRequest, number: u64 },
    /// Wait on the notifier and come back to `after_wait`.
    Wait { pending: PendingRequest, notifier: u64 },
    /// Send the request as its plan says and come back with the outcome to
    /// `finish`.
    Dispatch { pending: PendingRequest },
}

/// The answer to a request and the notifier to signal, if any.
#[derive(Debug, PartialEq, Eq)]
pub struct Finished {
    pub result: Result<Reply, Web3ProxyError>,
    pub wake: Option<u64>,
}

/// The application.
pub struct Web3ProxyApp {
    pub config: AppConfig,
    /// Send requests to the best server available
    pub balanced_rpcs: Pool,
    /// Send private requests (like eth_sendRawTransaction) to all these servers
    pub private_rpcs: Option<Pool>,
    /// Track active requests so that we don't send the same query to multiple backends
    pub active_requests: ActiveRequests,
    pub response_cache: ResponseCache,
    pub pending_transactions: PendingTransactions,
    /// The youngest blocks of the consensus chain with their transactions.
    pub confirmed: ConfirmedLog,
    pub user_cache: UserCache,
    /// How the pool of connections to the store is set up, where there is
    /// a store.
    pub redis_pool: Option<RedisPoolOptions>,
    /// How the rate limiter of the entrance is set up, where there is one.
    pub rate_limiter: Option<RateLimiterOptions>,
    /// How the database is connected to, where there is one.
    pub db_conn: Option<DatabaseOptions>,
}

/// What the proxy answers by itself to the zero-argument methods, given
/// the number of the consensus head and the number of synced backends.
pub open spec fn local_value(
    which: LocalMethod,
    user_agent: Seq<char>,
    head_number: nat,
    synced: nat,
) -> JsonModel
    recommends
        which != LocalMethod::Sha3,
{
    match which {
        LocalMethod::Accounts => JsonModel::Array(Seq::empty()),
        LocalMethod::BlockNumber => JsonModel::Text(hex_quantity(head_number)),
        LocalMethod::Coinbase => JsonModel::Text("0x0000000000000000000000000000000000000000"@),
        LocalMethod::Hashrate => JsonModel::Text(hex_quantity(0)),
        LocalMethod::Mining => JsonModel::Bool(false),
        LocalMethod::Syncing => JsonModel::Bool(false),
        LocalMethod::NetListening => JsonModel::Bool(true),
        LocalMethod::NetPeerCount => JsonModel::Number(decimal(synced)),
        LocalMethod::ClientVersion => JsonModel::Text(user_agent),
        LocalMethod::Sha3 => JsonModel::Null,
    }
}

/// The cache key of a request that is answered at the block `hash`.
pub open spec fn request_key(
    hash: Seq<u8>,
    method: Seq<char>,
    params: Option<JsonModel>,
) -> CacheKeyModel {
    CacheKeyModel {
        block_hash: hash,
        method,
        params: match params {
            Some(p) => Some(json_text(p)),
            None => None,
        },
    }
}

/// The cache key of a request that is answered at the block `hash`.
pub fn cache_key(hash: H256, request: &JsonRpcRequest) -> (key: CacheKey)
    ensures
        key@ == request_key(
            hash@,
            request.method@,
            match request.params {
                Some(p) => Some(p@),
                None => None,
            },
        ),
{
    let params = match &request.params {
        Some(p) => Some(p.to_text()),
        None => None,
    };
    CacheKey { block_hash: hash, method: request.method.clone(), params }
}

/// The private pool as the application keeps it: a pool without backends
/// is no private pool, so that what is meant for the private relays goes
/// to the balanced pool.
pub open spec fn kept_relays(private: Option<Pool>) -> Option<Pool> {
    match private {
        Some(pool) => if pool.backends@.len() > 0 {
            Some(pool)
        } else {
            None
        },
        None => None,
    }
}

/// How a method is sent upstream, where it is.
pub open spec fn plan_for(
    class: MethodClass,
    private_relays: bool,
    race_on_private: bool,
    min_block: Option<u64>,
) -> DispatchPlan {
    match class {
        MethodClass::PrivateFanout => DispatchPlan {
            pool: if private_relays {
                PoolChoice::Private
            } else {
                PoolChoice::Balanced
            },
            all: true,
            min_block: None,
        },
        MethodClass::RaceFanout => DispatchPlan {
            pool: if private_relays && race_on_private {
                PoolChoice::Private
            } else {
                PoolChoice::Balanced
            },
            all: true,
            min_block,
        },
        _ => DispatchPlan { pool: PoolChoice::Balanced, all: false, min_block },
    }
}

impl Reply {
    /// The bytes that the client is sent: the compact JSON text of the
    /// response, encoded as UTF-8. For a reply from the cache, the cached
    /// members stand between the id of this request and the closing brace.
    pub open spec fn bytes(&self) -> Seq<u8> {
        match self {
            Reply::Value(response) => vstd::utf8::encode_utf8(response_text(response@)),
            Reply::Cached { id, payload } => vstd::utf8::encode_utf8(response_head(id@)) + payload@
                + vstd::utf8::encode_utf8("}"@),
        }
    }

    /// The bytes that the client is sent.
    pub fn into_bytes(self) -> (bytes: Vec<u8>)
        ensures
            bytes@ == self.bytes(),
    {
        match self {
            Reply::Value(response) => response.to_text().as_str().as_bytes_vec(),
            Reply::Cached { id, payload } => {
                let mut head = String::from_str("{\"jsonrpc\":\"2.0\",\"id\":");
                id.append_text(&mut head);
                let mut bytes = head.as_str().as_bytes_vec();
                let mut payload = payload;
                bytes.append(&mut payload);
                let mut tail = "}".as_bytes_vec();
                bytes.append(&mut tail);
                bytes
            },
        }
    }
}

/// Whether two requests are the same but for their parameters.
pub open spec fn same_call(a: JsonRpcRequest, b: JsonRpcRequest) -> bool {
    a.id@ == b.id@ && a.method@ == b.method@
}

/// The parameters of a request as the contracts speak of them.
pub open spec fn params_of(request: JsonRpcRequest) -> Option<JsonModel> {
    match request.params {
        Some(p) => Some(p@),
        None => None,
    }
}

impl Web3ProxyApp {
    /// Whether two states of the application hold the same.
    pub open spec fn same_state(&self, other: &Web3ProxyApp) -> bool {
        &&& self.same_setup(other)
        &&& self.same_cache(other)
        &&& self.same_flights(other)
    }

    /// Whether two states of the application hold the same configuration
    /// and the same pools.
    pub open spec fn same_setup(&self, other: &Web3ProxyApp) -> bool {
        &&& self.config == other.config
        &&& self.balanced_rpcs == other.balanced_rpcs
        &&& self.private_rpcs == other.private_rpcs
        &&& self.pending_transactions == other.pending_transactions
        &&& self.confirmed == other.confirmed
        &&& self.user_cache == other.user_cache
        &&& self.redis_pool == other.redis_pool
        &&& self.rate_limiter == other.rate_limiter
        &&& self.db_conn == other.db_conn
    }

    /// Whether two states of the application hold the same cache.
    pub open spec fn same_cache(&self, other: &Web3ProxyApp) -> bool {
        &&& self.response_cache@ == other.response_cache@
        &&& self.response_cache.entry_limit() == other.response_cache.entry_limit()
        &&& self.response_cache.byte_limit() == other.response_cache.byte_limit()
    }

    /// Whether two states of the application hold the same requests on
    /// their way.
    pub open spec fn same_flights(&self, other: &Web3ProxyApp) -> bool {
        &&& self.active_requests@ == other.active_requests@
        &&& self.active_requests.next() == other.active_requests.next()
    }

    /// Whether the application has private relays: a private pool with at
    /// least one backend.
    pub open spec fn has_relays(&self) -> bool {
        self.private_rpcs matches Some(private) && private.backends@.len() > 0
    }

    /// Whether the application has private relays.
    pub fn has_private_relays(&self) -> (b: bool)
        ensures
            b == self.has_relays(),
    {
        match &self.private_rpcs {
            Some(private) => private.backends.len() > 0,
            None => false,
        }
    }

    /// An application with an empty cache and no request on its way. A
    /// private pool without backends is no private pool.
    pub fn new(
        config: AppConfig,
        balanced_rpcs: Pool,
        private_rpcs: Option<Pool>,
        max_entries: usize,
        max_bytes: usize,
        max_pending: usize,
        max_pending_age: u64,
        max_users: usize,
    ) -> (app: Web3ProxyApp)
        ensures
            app.pending_transactions.age_limit() == max_pending_age,
            app.user_cache@ == Seq::<CachedUser>::empty(),
            app.user_cache.limit() == max_users,
            app.redis_pool is None,
            app.rate_limiter is None,
            app.db_conn is None,
            app.config == config,
            app.balanced_rpcs == balanced_rpcs,
            app.private_rpcs == kept_relays(private_rpcs),
            app.pending_transactions@ == Seq::<WaitingTx>::empty(),
            app.pending_transactions.limit() == max_pending,
            app.confirmed@ == Seq::<ConfirmedModel>::empty(),
            app.confirmed.limit() == balanced_rpcs.index.limit(),
            app.response_cache@ == Seq::<CacheEntryModel>::empty(),
            app.response_cache.entry_limit() == max_entries,
            app.response_cache.byte_limit() == max_bytes,
            app.active_requests@ == Flights::empty(),
            app.active_requests.next() == 0,
    {
        let confirmed = ConfirmedLog::new(balanced_rpcs.index.capacity());
        let private_rpcs = match private_rpcs {
            Some(private) => if private.backends.len() > 0 {
                Some(private)
            } else {
                None
            },
            None => None,
        };
        Web3ProxyApp {
            config,
            balanced_rpcs,
            private_rpcs,
            active_requests: ActiveRequests::new(),
            response_cache: ResponseCache::new(max_entries, max_bytes),
            pending_transactions: PendingTransactions::new(max_pending, max_pending_age),
            confirmed,
            user_cache: UserCache::new(max_users),
            redis_pool: None,
            rate_limiter: None,
            db_conn: None,
        }
    }

    /// The pool that ordinary requests go to.
    pub fn balanced_rpcs(&self) -> (pool: &Pool)
        ensures
            *pool == self.balanced_rpcs,
    {
        &self.balanced_rpcs
    }

    /// The pool that private requests go to: the private relays where
    /// there are any, and the balanced pool where not.
    pub fn private_rpcs(&self) -> (pool: &Pool)
        ensures
            *pool == (if self.has_relays() {
                self.private_rpcs->0
            } else {
                self.balanced_rpcs
            }),
    {
        match &self.private_rpcs {
            Some(private) => if private.backends.len() > 0 {
                private
            } else {
                &self.balanced_rpcs
            },
            None => &self.balanced_rpcs,
        }
    }

    /// How the database is connected to, where there is one.
    pub fn db_conn(&self) -> (options: Option<&DatabaseOptions>)
        ensures
            options == (match self.db_conn {
                Some(o) => Some(&o),
                None => None,
            }),
    {
        self.db_conn.as_ref()
    }

    /// How the rate limiter of the entrance is set up, where there is one.
    pub fn rate_limiter(&self) -> (options: Option<&RateLimiterOptions>)
        ensures
            options == (match self.rate_limiter {
                Some(o) => Some(&o),
                None => None,
            }),
    {
        self.rate_limiter.as_ref()
    }

    /// How the pool of connections to the store is set up, where there is
    /// a store.
    pub fn redis_pool(&self) -> (options: Option<&RedisPoolOptions>)
        ensures
            options == (match self.redis_pool {
                Some(o) => Some(&o),
                None => None,
            }),
    {
        self.redis_pool.as_ref()
    }

    /// The cache of users.
    pub fn user_cache(&self) -> (cache: &UserCache)
        ensures
            *cache == self.user_cache,
    {
        &self.user_cache
    }

    /// The registry of pending transactions.
    pub fn pending_transactions(&self) -> (registry: &PendingTransactions)
        ensures
            *registry == self.pending_transactions,
    {
        &self.pending_transactions
    }

    /// The registry of requests on their way.
    pub fn active_requests(&self) -> (registry: &ActiveRequests)
        ensures
            *registry == self.active_requests,
    {
        &self.active_requests
    }

    /// The seconds that a request may take: what the configuration says,
    /// and 120 where it says zero.
    pub fn request_timeout(&self) -> (seconds: u64)
        ensures
            seconds == (if self.config.request_timeout == 0 {
                DEFAULT_REQUEST_TIMEOUT
            } else {
                self.config.request_timeout
            }),
    {
        if self.config.request_timeout == 0 {
            DEFAULT_REQUEST_TIMEOUT
        } else {
            self.config.request_timeout
        }
    }

    /// Whether `result` is what the proxy answers by itself to a method:
    /// `eth_blockNumber` fails while the head is at zero, since no servers
    /// are synced then; `web3_sha3` hashes its one parameter; the other
    /// methods have their fixed answers.
    pub open spec fn is_local_answer(
        &self,
        which: LocalMethod,
        params: Option<JsonModel>,
        result: Result<JsonValue, Web3ProxyError>,
    ) -> bool {
        if which == LocalMethod::BlockNumber && self.balanced_rpcs.head_number() == 0 {
            result == Err::<JsonValue, Web3ProxyError>(Web3ProxyError::NoServersSynced)
        } else if which == LocalMethod::Sha3 {
            match sha3_input(params) {
                Some(text) => match hex_decoded(text) {
                    Some(bytes) => result matches Ok(value) && value@ == JsonModel::Text(
                        hex_data(keccak256_digest(bytes)),
                    ),
                    None => result == Err::<JsonValue, Web3ProxyError>(
                        Web3ProxyError::ParseBytesError(None),
                    ),
                },
                None => result matches Err(Web3ProxyError::BadRequest(msg)) && msg@
                    == "invalid request"@,
            }
        } else {
            result matches Ok(value) && value@ == local_value(
                which,
                self.config.user_agent@,
                self.balanced_rpcs.head_number() as nat,
                synced_count(self.balanced_rpcs.backends@),
            )
        }
    }

    /// What the proxy answers by itself to a method.
    pub fn local_answer(&self, which: LocalMethod, params: &Option<JsonValue>) -> (result: Result<
        JsonValue,
        Web3ProxyError,
    >)
        ensures
            self.is_local_answer(
                which,
                match params {
                    Some(p) => Some(p@),
                    None => None,
                },
                result,
            ),
    {
        match which {
            LocalMethod::Accounts => {
                let value = JsonValue::Array(Vec::new());
                assert(value@->Array_0 =~= Seq::<JsonModel>::empty());
                Ok(value)
            },
            LocalMethod::BlockNumber => {
                let head = self.balanced_rpcs.head_block_number();
                if head == 0 {
                    Err(Web3ProxyError::NoServersSynced)
                } else {
                    Ok(JsonValue::Text(u64_to_hex_quantity(head)))
                }
            },
            LocalMethod::Coinbase => Ok(
                JsonValue::Text(String::from_str("0x0000000000000000000000000000000000000000")),
            ),
            LocalMethod::Hashrate => Ok(JsonValue::Text(u64_to_hex_quantity(0))),
            LocalMethod::Mining => Ok(JsonValue::Bool(false)),
            LocalMethod::Syncing => Ok(JsonValue::Bool(false)),
            LocalMethod::NetListening => Ok(JsonValue::Bool(true)),
            LocalMethod::NetPeerCount => {
                let synced = self.balanced_rpcs.num_synced_backends();
                Ok(JsonValue::Number(u64_to_decimal(synced as u64)))
            },
            LocalMethod::ClientVersion => Ok(JsonValue::Text(self.config.user_agent.clone())),
            LocalMethod::Sha3 => web3_sha3(params),
        }
    }

    /// What `enter` does with a request that is to be answered at the
    /// block `hash`.
    ///
    /// Without a hash the request goes out directly and is not cached. With
    /// one, a cached answer is returned at once and nothing changes; else,
    /// where a request for the same key is on its way, this one waits on
    /// its notifier and nothing changes; else this one is entered as the
    /// leader for its key and goes out.
    pub open spec fn entered(
        &self,
        after: &Web3ProxyApp,
        pending: PendingRequest,
        hash: Option<H256>,
        step: Step,
    ) -> bool {
        match hash {
            None => {
                &&& step matches Step::Dispatch { pending: sent }
                &&& sent.request == pending.request
                &&& sent.plan == pending.plan
                &&& sent.key is None
                &&& sent.role == Role::Direct
                &&& after.same_state(self)
            },
            Some(h) => {
                let key = request_key(h@, pending.request.method@, params_of(pending.request));
                match lookup(self.response_cache@, key) {
                    Some(cached) => {
                        &&& step matches Step::Done(Ok(Reply::Cached { id, payload }))
                        &&& id@ == pending.request.id@
                        &&& payload@ == cached
                        &&& after.same_state(self)
                    },
                    None => if in_flight(self.active_requests@, key) {
                        &&& step matches Step::Wait { pending: waiting, notifier }
                        &&& notifier == notifier_of(self.active_requests@, key)
                        &&& waiting.request == pending.request
                        &&& waiting.plan == pending.plan
                        &&& waiting.key matches Some(k) && k@ == key
                        &&& waiting.role == Role::Follower(notifier)
                        &&& after.same_state(self)
                    } else {
                        &&& step matches Step::Dispatch { pending: sent }
                        &&& sent.request == pending.request
                        &&& sent.plan == pending.plan
                        &&& sent.key matches Some(k) && k@ == key
                        &&& sent.role == Role::Leader(self.active_requests.next())
                        &&& after.same_setup(self)
                        &&& after.same_cache(self)
                        &&& after.active_requests@ == taken_off(
                            self.active_requests@,
                            key,
                            self.active_requests.next(),
                        )
                        &&& after.active_requests.next() == self.active_requests.next().wrapping_add(
                            1,
                        )
                    },
                }
            },
        }
    }

    /// Takes up a request that is to be answered at the block `hash`, or at
    /// no known block.
    pub fn enter(&mut self, pending: PendingRequest, hash: Option<H256>) -> (step: Step)
        ensures
            old(self).entered(final(self), pending, hash, step),
    {
        let PendingRequest { request, plan, key: _, role: _ } = pending;
        match hash {
            None => Step::Dispatch {
                pending: PendingRequest { request, plan, key: None, role: Role::Direct },
            },
            Some(h) => {
                let key = cache_key(h, &request);
                match self.response_cache.get(&key) {
                    Some(cached) => {
                        let payload = cached.clone();
                        assert(payload@ =~= cached@);
                        Step::Done(Ok(Reply::Cached { id: request.id, payload }))
                    },
                    None => match self.active_requests.claim(&key) {
                        Flight::Follower(notifier) => Step::Wait {
                            pending: PendingRequest {
                                request,
                                plan,
                                key: Some(key),
                                role: Role::Follower(notifier),
                            },
                            notifier,
                        },
                        Flight::Leader(notifier) => Step::Dispatch {
                            pending: PendingRequest {
                                request,
                                plan,
                                key: Some(key),
                                role: Role::Leader(notifier),
                            },
                        },
                    },
                }
            },
        }
    }

    /// Takes up a request again after the request it waited for has come
    /// back: a cached answer is returned; without one, the request goes for
    /// the lead anew.
    pub fn after_wait(&mut self, pending: PendingRequest) -> (step: Step)
        ensures
            old(self).entered(
                final(self),
                pending,
                match pending.key {
                    Some(key) => Some(key.block_hash),
                    None => None,
                },
                step,
            ),
    {
        let hash = match &pending.key {
            Some(key) => Some(key.block_hash),
            None => None,
        };
        self.enter(pending, hash)
    }

    /// What the first step for a request is.
    ///
    /// A blocked method, one that is not implemented yet and a
    /// subscription outside a WebSocket are refused. A method that the
    /// proxy answers by itself is answered. A raw transaction goes out to
    /// all at once, uncached. Every other request is worked out: the block
    /// it needs, its parameters as they are sent on, and how it is sent;
    /// then it is taken up at the hash of the block it needs, or of the
    /// head where it needs none. Where the block index does not have the
    /// hash, it is to be fetched first.
    pub open spec fn started(
        &self,
        after: &Web3ProxyApp,
        request: JsonRpcRequest,
        step: Step,
    ) -> bool {
        let class = method_class(request.method@);
        match class {
            MethodClass::Blocked => step == Step::Done(Err(Web3ProxyError::MethodBlocked))
                && after.same_state(self),
            MethodClass::NotImplemented => {
                &&& step matches Step::Done(Err(Web3ProxyError::NotImplemented(name)))
                &&& name@ == request.method@
                &&& after.same_state(self)
            },
            MethodClass::Subscription => step == Step::Done(Err(Web3ProxyError::WebsocketOnly))
                && after.same_state(self),
            MethodClass::Local(which) => {
                &&& step matches Step::Done(outcome)
                &&& self.answered_locally(which, request, outcome)
                &&& after.same_state(self)
            },
            MethodClass::PrivateFanout => {
                &&& step matches Step::Dispatch { pending }
                &&& pending.request == request
                &&& pending.plan == plan_for(
                    class,
                    self.has_relays(),
                    self.config.race_on_private,
                    None,
                )
                &&& pending.key is None
                &&& pending.role == Role::Direct
                &&& after.same_state(self)
            },
            MethodClass::RaceFanout | MethodClass::Cached => {
                let head = self.balanced_rpcs.head_number();
                let needed = block_needed_spec(request.method@, params_of(request), head as nat);
                let params = normalized_params(request.method@, params_of(request), head as nat);
                match needed {
                    Some(number) if indexed_hash(self.balanced_rpcs.index@, number) is None => {
                        &&& step matches Step::FetchBlockHash { pending, number: wanted }
                        &&& wanted == number
                        &&& self.prepared(class, request, pending)
                        &&& after.same_state(self)
                    },
                    _ => exists|pending: PendingRequest, hash: Option<H256>|
                        {
                            &&& self.prepared(class, request, pending)
                            &&& (match hash {
                                Some(h) => Some(h@),
                                None => None,
                            }) == (match needed {
                                Some(number) => indexed_hash(self.balanced_rpcs.index@, number),
                                None => self.balanced_rpcs.head_hash(),
                            })
                            &&& #[trigger] self.entered(after, pending, hash, step)
                        },
                }
            },
        }
    }

    /// Whether `pending` is the request as it is sent on.
    pub open spec fn prepared(
        &self,
        class: MethodClass,
        request: JsonRpcRequest,
        pending: PendingRequest,
    ) -> bool {
        let head = self.balanced_rpcs.head_number();
        let needed = block_needed_spec(request.method@, params_of(request), head as nat);
        &&& same_call(pending.request, request)
        &&& params_of(pending.request) == normalized_params(
            request.method@,
            params_of(request),
            head as nat,
        )
        &&& (match pending.plan.min_block {
            Some(b) => Some(b as nat),
            None => None,
        }) == needed
        &&& pending.plan == plan_for(
            class,
            self.has_relays(),
            self.config.race_on_private,
            pending.plan.min_block,
        )
    }

    /// Whether `outcome` is what the proxy answers by itself to the
    /// request.
    pub open spec fn answered_locally(
        &self,
        which: LocalMethod,
        request: JsonRpcRequest,
        outcome: Result<Reply, Web3ProxyError>,
    ) -> bool {
        if which == LocalMethod::BlockNumber && self.balanced_rpcs.head_number() == 0 {
            outcome == Err::<Reply, Web3ProxyError>(Web3ProxyError::NoServersSynced)
        } else if which == LocalMethod::Sha3 {
            match sha3_input(params_of(request)) {
                Some(text) => match hex_decoded(text) {
                    Some(bytes) => {
                        &&& outcome matches Ok(Reply::Value(response))
                        &&& response@.id == request.id@
                        &&& response@.result == Some(
                            JsonModel::Text(hex_data(keccak256_digest(bytes))),
                        )
                        &&& response@.error is None
                    },
                    None => outcome == Err::<Reply, Web3ProxyError>(
                        Web3ProxyError::ParseBytesError(None),
                    ),
                },
                None => outcome matches Err(Web3ProxyError::BadRequest(msg)) && msg@
                    == "invalid request"@,
            }
        } else {
            &&& outcome matches Ok(Reply::Value(response))
            &&& response@.id == request.id@
            &&& response@.result == Some(
                local_value(
                    which,
                    self.config.user_agent@,
                    self.balanced_rpcs.head_number() as nat,
                    synced_count(self.balanced_rpcs.backends@),
                ),
            )
            &&& response@.error is None
        }
    }

    /// Takes up a request from a client.
    pub fn proxy_web3_rpc_request(&mut self, request: JsonRpcRequest) -> (step: Step)
        ensures
            old(self).started(final(self), request, step),
    {
        let class = classify(request.method.as_str());
        match class {
            MethodClass::Blocked => Step::Done(Err(Web3ProxyError::MethodBlocked)),
            MethodClass::NotImplemented => Step::Done(
                Err(Web3ProxyError::NotImplemented(request.method)),
            ),
            MethodClass::Subscription => Step::Done(Err(Web3ProxyError::WebsocketOnly)),
            MethodClass::Local(which) => {
                match self.local_answer(which, &request.params) {
                    Ok(value) => Step::Done(
                        Ok(Reply::Value(JsonRpcForwardedResponse::from_value(value, request.id))),
                    ),
                    Err(err) => Step::Done(Err(err)),
                }
            },
            MethodClass::PrivateFanout => {
                let plan = DispatchPlan {
                    pool: if self.has_private_relays() {
                        PoolChoice::Private
                    } else {
                        PoolChoice::Balanced
                    },
                    all: true,
                    min_block: None,
                };
                Step::Dispatch {
                    pending: PendingRequest { request, plan, key: None, role: Role::Direct },
                }
            },
            MethodClass::RaceFanout | MethodClass::Cached => {
                let head = self.balanced_rpcs.head_block_number();
                let JsonRpcRequest { id, method, params } = request;
                let (min_block, params) = block_needed(method.as_str(), params, head);
                let plan = match class {
                    MethodClass::RaceFanout => DispatchPlan {
                        pool: if self.has_private_relays() && self.config.race_on_private {
                            PoolChoice::Private
                        } else {
                            PoolChoice::Balanced
                        },
                        all: true,
                        min_block,
                    },
                    _ => DispatchPlan { pool: PoolChoice::Balanced, all: false, min_block },
                };
                let pending = PendingRequest {
                    request: JsonRpcRequest { id, method, params },
                    plan,
                    key: None,
                    role: Role::Direct,
                };
                assert(old(self).prepared(class, request, pending));
                let hash = match min_block {
                    Some(number) => {
                        match self.balanced_rpcs.block_hash(number) {
                            Some(h) => Some(h),
                            None => {
                                return Step::FetchBlockHash { pending, number };
                            },
                        }
                    },
                    None => self.balanced_rpcs.head_block_hash(),
                };
                let step = self.enter(pending, hash);
                assert(old(self).entered(self, pending, hash, step));
                step
            },
        }
    }

    /// What `finish` does with the outcome of a request that went out.
    ///
    /// The leader for a key has its response cached under its key, as far
    /// as the cache takes it, where the response carries a result. A
    /// response that carries an error is handed on and not cached, and
    /// neither is a failure of the proxy. The leader is then taken out of
    /// the registry, and its notifier is to be signalled, whatever came. A
    /// request that went out directly changes nothing.
    pub open spec fn settled(
        &self,
        after: &Web3ProxyApp,
        pending: PendingRequest,
        outcome: Result<JsonRpcForwardedResponse, Web3ProxyError>,
        finished: Finished,
    ) -> bool {
        &&& finished.result == (match outcome {
            Ok(response) => Ok(Reply::Value(response)),
            Err(err) => Err(err),
        })
        &&& after.same_setup(self)
        &&& after.response_cache.entry_limit() == self.response_cache.entry_limit()
        &&& after.response_cache.byte_limit() == self.response_cache.byte_limit()
        &&& after.active_requests.next() == self.active_requests.next()
        &&& match (pending.role, pending.key) {
            (Role::Leader(notifier), Some(key)) => {
                &&& finished.wake == Some(notifier)
                &&& after.active_requests@ == landed(self.active_requests@, key@)
                &&& !in_flight(after.active_requests@, key@)
                &&& after.response_cache@ == (match kept_payload(outcome) {
                    Some(payload) => inserted(
                        self.response_cache@,
                        key@,
                        payload,
                        self.response_cache.entry_limit(),
                        self.response_cache.byte_limit(),
                    ),
                    None => self.response_cache@,
                })
            },
            _ => {
                &&& finished.wake is None
                &&& after.active_requests@ == self.active_requests@
                &&& after.response_cache@ == self.response_cache@
            },
        }
    }

    /// Takes note of the outcome of a request that went out.
    pub fn finish(
        &mut self,
        pending: PendingRequest,
        outcome: Result<JsonRpcForwardedResponse, Web3ProxyError>,
    ) -> (finished: Finished)
        ensures
            old(self).settled(final(self), pending, outcome, finished),
    {
        let PendingRequest { request: _, plan: _, key, role } = pending;
        match (role, key) {
            (Role::Leader(notifier), Some(key)) => {
                match &outcome {
                    Ok(response) => {
                        if !response.is_error() {
                            let payload = response.payload().as_str().as_bytes_vec();
                            let copy = key.duplicate();
                            self.response_cache.insert(copy, payload);
                        }
                    },
                    Err(_) => {},
                }
                self.active_requests.remove(&key);
                let result = match outcome {
                    Ok(response) => Ok(Reply::Value(response)),
                    Err(err) => Err(err),
                };
                Finished { result, wake: Some(notifier) }
            },
            _ => {
                let result = match outcome {
                    Ok(response) => Ok(Reply::Value(response)),
                    Err(err) => Err(err),
                };
                Finished { result, wake: None }
            },
        }
    }

    /// Gives a request up whose time has run out: the client is told so,
    /// and a leader is taken out of the registry and its notifier is to be
    /// signalled.
    pub fn abandon(&mut self, pending: PendingRequest) -> (finished: Finished)
        ensures
            finished.result == Err::<Reply, Web3ProxyError>(Web3ProxyError::Timeout(None)),
            final(self).same_setup(old(self)),
            final(self).same_cache(old(self)),
            final(self).active_requests.next() == old(self).active_requests.next(),
            match (pending.role, pending.key) {
                (Role::Leader(notifier), Some(key)) => {
                    &&& finished.wake == Some(notifier)
                    &&& final(self).active_requests@ == landed(old(self).active_requests@, key@)
                    &&& !in_flight(final(self).active_requests@, key@)
                },
                _ => {
                    &&& finished.wake is None
                    &&& final(self).active_requests@ == old(self).active_requests@
                },
            },
    {
        self.finish(pending, Err(Web3ProxyError::Timeout(None)))
    }
}

/// The bytes that the outcome of a request leaves for the cache: the
/// payload of a response that carries a result. Nothing is kept of a
/// response that carries an error, nor of a failure of the proxy.
pub open spec fn kept_payload(outcome: Result<JsonRpcForwardedResponse, Web3ProxyError>) -> Option<
    Seq<u8>,
> {
    match outcome {
        Ok(response) => if response@.error is None {
            Some(vstd::utf8::encode_utf8(payload_text(response@)))
        } else {
            None
        },
        Err(_) => None,
    }
}

/// The answers to a batch, in the order of its requests; the first error
/// in that order where a request failed.
pub open spec fn collected<T>(outcomes: Seq<Result<T, Web3ProxyError>>) -> Result<
    Seq<T>,
    Web3ProxyError,
>
    decreases outcomes.len(),
{
    if outcomes.len() == 0 {
        Ok(Seq::empty())
    } else {
        match collected(outcomes.drop_last()) {
            Err(err) => Err(err),
            Ok(responses) => match outcomes.last() {
                Ok(response) => Ok(responses.push(response)),
                Err(err) => Err(err),
            },
        }
    }
}

/// Puts the answers to a batch together, in the order of its requests.
pub fn proxy_web3_rpc_requests(
    outcomes: Vec<Result<JsonRpcForwardedResponse, Web3ProxyError>>,
) -> (result: Result<Vec<JsonRpcForwardedResponse>, Web3ProxyError>)
    ensures
        match collected(outcomes@) {
            Ok(responses) => result matches Ok(all) && all@ == responses,
            Err(err) => result == Err::<Vec<JsonRpcForwardedResponse>, Web3ProxyError>(err),
        },
{
    let ghost all = outcomes@;
    let mut left = outcomes;
    let n = left.len();
    let mut responses: Vec<JsonRpcForwardedResponse> = Vec::new();
    let mut i: usize = 0;
    assert(all.take(0) =~= Seq::empty());
    while i < n
        invariant
            i <= n,
            n == all.len(),
            all == outcomes@,
            left@ == all.skip(i as int),
            collected(all.take(i as int)) == Ok::<Seq<JsonRpcForwardedResponse>, Web3ProxyError>(
                responses@,
            ),
        decreases n - i,
    {
        assert(all.take(i + 1).drop_last() =~= all.take(i as int));
        assert(all.take(i + 1).last() == all[i as int]);
        let outcome = left.remove(0);
        assert(left@ =~= all.skip(i + 1));
        match outcome {
            Ok(response) => {
                responses.push(response);
            },
            Err(err) => {
                proof {
                    assert(collected(all.take(i + 1)) == Err::<
                        Seq<JsonRpcForwardedResponse>,
                        Web3ProxyError,
                    >(err));
                    lemma_collected_fails(all, i + 1);
                }
                return Err(err);
            },
        }
        i += 1;
    }
    assert(all.take(n as int) =~= all);
    Ok(responses)
}

proof fn lemma_collected_fails<T>(outcomes: Seq<Result<T, Web3ProxyError>>, n: int)
    requires
        0 <= n <= outcomes.len(),
        collected(outcomes.take(n)) is Err,
    ensures
        collected(outcomes) == collected(outcomes.take(n)),
    decreases outcomes.len() - n,
{
    if n < outcomes.len() {
        assert(outcomes.take(n + 1).drop_last() =~= outcomes.take(n));
        lemma_collected_fails(outcomes, n + 1);
    } else {
        assert(outcomes.take(n) =~= outcomes);
    }
}

/// What a new head brought.
#[derive(Debug, PartialEq, Eq)]
pub struct HeadNews {
    /// What the head changed in the pool.
    pub update: HeadUpdate,
    /// The transactions that have fallen out of the consensus chain.
    pub orphaned: Vec<H256>,
    /// The transactions that have joined the consensus chain.
    pub confirmed: Vec<H256>,
}

/// What a head that the balanced backend at `place` reported at time
/// `now`, with the transactions of its block, does to the application.
pub open spec fn head_noted(
    before: Web3ProxyApp,
    after: Web3ProxyApp,
    place: usize,
    head: HeadSnapshot,
    transactions: Vec<H256>,
    now: u64,
    news: HeadNews,
) -> bool {
    &&& head_taken(before.balanced_rpcs, after.balanced_rpcs, place, head, news.update)
    &&& after.config == before.config
    &&& after.private_rpcs == before.private_rpcs
    &&& after.user_cache == before.user_cache
    &&& after.redis_pool == before.redis_pool
    &&& after.rate_limiter == before.rate_limiter
    &&& after.db_conn == before.db_conn
    &&& after.same_cache(&before)
    &&& after.same_flights(&before)
    &&& after.confirmed.limit() == before.confirmed.limit()
    &&& after.pending_transactions.limit() == before.pending_transactions.limit()
    &&& after.pending_transactions.age_limit() == before.pending_transactions.age_limit()
    &&& match news.update.published {
        None => {
            &&& news.orphaned@ == Seq::<H256>::empty()
            &&& news.confirmed@ == Seq::<H256>::empty()
            &&& after.confirmed@ == before.confirmed@
            &&& after.pending_transactions@ == unexpired(
                before.pending_transactions@,
                now,
                before.pending_transactions.age_limit(),
            )
        },
        Some(new_head) => {
            let fork = fork_point_of(before.balanced_rpcs.head, new_head);
            &&& news.orphaned@ == (match fork {
                Some(f) => transactions_from(before.confirmed@, f as u64),
                None => Seq::empty(),
            })
            &&& news.confirmed@ == (if new_head@ == head@ {
                transactions@
            } else {
                Seq::empty()
            })
            &&& after.confirmed@ == with_block(
                match fork {
                    Some(f) => blocks_below(before.confirmed@, f as u64),
                    None => before.confirmed@,
                },
                ConfirmedModel {
                    number: new_head.number,
                    hash: new_head.hash,
                    transactions: news.confirmed@,
                },
                before.confirmed.limit(),
            )
            &&& after.pending_transactions@ == after_news_of_all(
                after_news_of_all(
                    unexpired(
                        before.pending_transactions@,
                        now,
                        before.pending_transactions.age_limit(),
                    ),
                    news.orphaned@,
                    TxNews::Orphaned,
                    now,
                    before.pending_transactions.limit(),
                ),
                news.confirmed@,
                TxNews::Confirmed,
                now,
                before.pending_transactions.limit(),
            )
        },
    }
}

/// The first `n` answers to a batch, one after the other with commas
/// between.
pub open spec fn joined(bodies: Seq<Vec<u8>>, n: nat) -> Seq<u8>
    decreases n,
{
    if n == 0 || n > bodies.len() {
        Seq::empty()
    } else if n == 1 {
        bodies[0]@
    } else {
        joined(bodies, (n - 1) as nat) + seq![0x2cu8] + bodies[n - 1]@
    }
}

/// The body of the answer to a batch: the answers in the order of the
/// requests, with commas between, in square brackets.
pub fn batch_body(bodies: &Vec<Vec<u8>>) -> (body: Vec<u8>)
    ensures
        body@ == seq![0x5bu8] + joined(bodies@, bodies.len() as nat) + seq![0x5du8],
{
    let mut body: Vec<u8> = Vec::new();
    body.push(0x5b);
    let mut i: usize = 0;
    while i < bodies.len()
        invariant
            i <= bodies.len(),
            body@ == seq![0x5bu8] + joined(bodies@, i as nat),
        decreases bodies.len() - i,
    {
        if i > 0 {
            body.push(0x2c);
        }
        let mut one = bodies[i].clone();
        assert(one@ =~= bodies[i as int]@);
        body.append(&mut one);
        assert(body@ =~= seq![0x5bu8] + joined(bodies@, (i + 1) as nat));
        i += 1;
    }
    body.push(0x5d);
    body
}

/// The bytes of the first `n` replies, one after the other with commas
/// between.
pub open spec fn joined_replies(replies: Seq<Reply>, n: nat) -> Seq<u8>
    decreases n,
{
    if n == 0 || n > replies.len() {
        Seq::empty()
    } else if n == 1 {
        replies[0].bytes()
    } else {
        joined_replies(replies, (n - 1) as nat) + seq![0x2cu8] + replies[n - 1].bytes()
    }
}

/// The body of the answer to a batch, given what came of each of its
/// requests, in their order: the replies with commas between, in square
/// brackets. Where a request failed, the batch fails as a whole, with
/// the first error in the order of the requests.
pub fn batch_reply(answers: Vec<Result<Reply, Web3ProxyError>>) -> (result: Result<
    Vec<u8>,
    Web3ProxyError,
>)
    ensures
        match collected(answers@) {
            Ok(replies) => result matches Ok(body) && body@ == seq![0x5bu8] + joined_replies(
                replies,
                replies.len(),
            ) + seq![0x5du8],
            Err(err) => result == Err::<Vec<u8>, Web3ProxyError>(err),
        },
{
    let ghost all = answers@;
    let mut left = answers;
    let n = left.len();
    let ghost mut replies: Seq<Reply> = Seq::empty();
    let mut body: Vec<u8> = Vec::new();
    body.push(0x5b);
    let mut i: usize = 0;
    assert(all.take(0) =~= Seq::empty());
    while i < n
        invariant
            i <= n,
            n == all.len(),
            all == answers@,
            left@ == all.skip(i as int),
            replies.len() == i,
            collected(all.take(i as int)) == Ok::<Seq<Reply>, Web3ProxyError>(replies),
            body@ == seq![0x5bu8] + joined_replies(replies, i as nat),
        decreases n - i,
    {
        assert(all.take(i + 1).drop_last() =~= all.take(i as int));
        assert(all.take(i + 1).last() == all[i as int]);
        let answer = left.remove(0);
        assert(left@ =~= all.skip(i + 1));
        match answer {
            Ok(reply) => {
                let ghost before = replies;
                if i > 0 {
                    body.push(0x2c);
                }
                let mut bytes = reply.into_bytes();
                body.append(&mut bytes);
                proof {
                    replies = replies.push(reply);
                    lemma_joined_replies_keep(before, reply, i as nat);
                    assert(body@ =~= seq![0x5bu8] + joined_replies(replies, (i + 1) as nat));
                }
            },
            Err(err) => {
                proof {
                    assert(collected(all.take(i + 1)) == Err::<Seq<Reply>, Web3ProxyError>(err));
                    lemma_collected_fails(all, i + 1);
                }
                return Err(err);
            },
        }
        i += 1;
    }
    assert(all.take(n as int) =~= all);
    body.push(0x5d);
    Ok(body)
}

proof fn lemma_joined_replies_keep(replies: Seq<Reply>, next: Reply, n: nat)
    requires
        n <= replies.len(),
    ensures
        joined_replies(replies.push(next), n) == joined_replies(replies, n),
    decreases n,
{
    if n > 1 {
        lemma_joined_replies_keep(replies, next, (n - 1) as nat);
    }
}

/// Block-hash normalization: two requests for the same method that are
/// answered at the same block, and whose parameters differ only in the
/// block parameter, the one holding the tag `latest` and the other the
/// number of the head, have the same cache key, and so share one entry of
/// the cache and one request on its way.
pub proof fn lemma_latest_shares_cache_key(
    hash: Seq<u8>,
    method: Seq<char>,
    items: Seq<JsonModel>,
    head: nat,
)
    requires
        head <= u64::MAX,
        block_param_place(method) matches Some(place) && place < items.len(),
    ensures
        ({
            let place = block_param_place(method)->0 as int;
            let tagged = Some(JsonModel::Array(items.update(place, JsonModel::Text("latest"@))));
            let numbered = Some(
                JsonModel::Array(items.update(place, JsonModel::Text(hex_quantity(head)))),
            );
            request_key(hash, method, normalized_params(method, tagged, head)) == request_key(
                hash,
                method,
                normalized_params(method, numbered, head),
            )
        }),
{
    lemma_latest_is_head(method, items, head);
}

/// Requests share a cache key only where they are the same call answered
/// at the same block: equal keys come from equal block hashes, equal
/// methods and equal parameters.
pub proof fn lemma_cache_key_is_sound(
    hash: Seq<u8>,
    method: Seq<char>,
    params: Option<JsonModel>,
    other_hash: Seq<u8>,
    other_method: Seq<char>,
    other_params: Option<JsonModel>,
)
    requires
        params matches Some(p) ==> well_formed(p),
        other_params matches Some(p) ==> well_formed(p),
        request_key(hash, method, params) == request_key(other_hash, other_method, other_params),
    ensures
        hash == other_hash,
        method == other_method,
        params == other_params,
{
    match (params, other_params) {
        (Some(p), Some(q)) => {
            lemma_json_text_is_unique(p, q);
        },
        _ => {},
    }
}

/// A cached request is answered with the same bytes every time, and is
/// never sent again: as long as the cache holds an answer under the key
/// of a request, taking the request up returns that answer and changes
/// nothing.
pub proof fn lemma_cached_request_is_stable(
    app: Web3ProxyApp,
    first: Web3ProxyApp,
    second: Web3ProxyApp,
    pending: PendingRequest,
    hash: H256,
    first_step: Step,
    second_step: Step,
)
    requires
        lookup(
            app.response_cache@,
            request_key(hash@, pending.request.method@, params_of(pending.request)),
        ) is Some,
        app.entered(&first, pending, Some(hash), first_step),
        first.entered(&second, pending, Some(hash), second_step),
    ensures
        first_step matches Step::Done(Ok(Reply::Cached { payload: once, .. })) && second_step matches Step::Done(
            Ok(Reply::Cached { payload: again, .. }),
        ) && once@ == again@,
        second.same_state(&app),
{
}

/// Cache hit: once the response of the leader for a key is cached, a later
/// request with that key is answered with the bytes of that response, and
/// no backend hears of it: the pools, and with them the counters of every
/// backend, are as they were when the leader had its response.
pub proof fn lemma_cache_hit_needs_no_backend(
    before: Web3ProxyApp,
    app: Web3ProxyApp,
    after: Web3ProxyApp,
    leader: PendingRequest,
    response: JsonRpcForwardedResponse,
    finished: Finished,
    later: PendingRequest,
    hash: H256,
    step: Step,
)
    requires
        leader.role is Leader,
        leader.key matches Some(key) && key@ == request_key(
            hash@,
            later.request.method@,
            params_of(later.request),
        ),
        response@.error is None,
        cacheable(
            vstd::utf8::encode_utf8(payload_text(response@)).len(),
            before.response_cache.entry_limit(),
            before.response_cache.byte_limit(),
        ),
        before.settled(&app, leader, Ok(response), finished),
        app.entered(&after, later, Some(hash), step),
    ensures
        step matches Step::Done(Ok(Reply::Cached { id, payload })) && id@ == later.request.id@
            && payload@ == vstd::utf8::encode_utf8(payload_text(response@)),
        after.same_state(&app),
        after.balanced_rpcs == before.balanced_rpcs,
        after.private_rpcs == before.private_rpcs,
{
    lemma_get_after_insert(
        before.response_cache@,
        leader.key->0@,
        vstd::utf8::encode_utf8(payload_text(response@)),
        before.response_cache.entry_limit(),
        before.response_cache.byte_limit(),
    );
}

/// Single-flight coalescing: while the leader for a key is on its way, a
/// request with the same key waits on the leader's notifier, and no
/// backend hears of it. As it leaves the application as it found it, the
/// same holds of the next such request, and of any number of them.
pub proof fn lemma_follower_needs_no_backend(
    app: Web3ProxyApp,
    led: Web3ProxyApp,
    after: Web3ProxyApp,
    first: PendingRequest,
    second: PendingRequest,
    hash: H256,
    first_step: Step,
    second_step: Step,
)
    requires
        request_key(hash@, first.request.method@, params_of(first.request)) == request_key(
            hash@,
            second.request.method@,
            params_of(second.request),
        ),
        app.entered(&led, first, Some(hash), first_step),
        first_step is Dispatch,
        led.entered(&after, second, Some(hash), second_step),
    ensures
        first_step matches Step::Dispatch { pending: leader } && second_step matches Step::Wait {
            notifier,
            ..
        } && leader.role == Role::Leader(notifier),
        after.same_state(&led),
        after.balanced_rpcs == app.balanced_rpcs,
        after.private_rpcs == app.private_rpcs,
{
}

/// Reorganisation: where the pool publishes another block at the height
/// of its consensus head, the block index gives the hash of the new block
/// for that height, so that a cache key for the height is made of it, and
/// every transaction of a block that was confirmed at that height or above
/// is orphaned.
pub proof fn lemma_reorg_orphans_confirmed(
    before: Web3ProxyApp,
    after: Web3ProxyApp,
    place: usize,
    head: HeadSnapshot,
    transactions: Vec<H256>,
    now: u64,
    news: HeadNews,
    block: int,
    transaction: H256,
)
    requires
        head_noted(before, after, place, head, transactions, now, news),
        before.balanced_rpcs.head matches Some(old_head) && news.update.published matches Some(
            new_head,
        ) && new_head.number == old_head.number && new_head.hash@ != old_head.hash@,
        before.balanced_rpcs.index.limit() > 0,
        0 <= block < before.confirmed@.len(),
        before.confirmed@[block].number >= news.update.published->0.number,
        before.confirmed@[block].transactions.contains(transaction),
    ensures
        news.orphaned@.contains(transaction),
        indexed_hash(
            after.balanced_rpcs.index@,
            news.update.published->0.number as nat,
        ) == Some(news.update.published->0.hash@),
        indexed_hash(after.balanced_rpcs.index@, news.update.published->0.number as nat) != Some(
            before.balanced_rpcs.head->0.hash@,
        ),
{
    let new_head = news.update.published->0;
    lemma_transactions_from_holds(before.confirmed@, new_head.number, block, transaction);
}

/// A request that needs a block is keyed by the hash that the block index
/// gives for the block's number: it finds what is cached under that hash,
/// and waits for or leads a request under that hash, and under no other. So
/// once a reorganisation has put another block at a height, what was
/// cached for the block that left is not returned at that height.
pub proof fn lemma_request_is_keyed_by_indexed_hash(
    app: Web3ProxyApp,
    after: Web3ProxyApp,
    request: JsonRpcRequest,
    step: Step,
    number: u64,
    hash: Seq<u8>,
)
    requires
        method_class(request.method@) is Cached || method_class(request.method@) is RaceFanout,
        block_needed_spec(
            request.method@,
            params_of(request),
            app.balanced_rpcs.head_number() as nat,
        ) == Some(number as nat),
        indexed_hash(app.balanced_rpcs.index@, number as nat) == Some(hash),
        app.started(&after, request, step),
    ensures
        ({
            let key = request_key(
                hash,
                request.method@,
                normalized_params(
                    request.method@,
                    params_of(request),
                    app.balanced_rpcs.head_number() as nat,
                ),
            );
            match step {
                Step::Done(outcome) => outcome matches Ok(Reply::Cached { payload, .. })
                    && lookup(app.response_cache@, key) == Some(payload@),
                Step::Wait { pending, .. } => pending.key matches Some(k) && k@ == key,
                Step::Dispatch { pending } => pending.key matches Some(k) && k@ == key,
                Step::FetchBlockHash { .. } => false,
            }
        }),
{
}

/// Raw-transaction fan-out: a raw transaction goes out as it came, to
/// every backend of the private pool where the application has private
/// relays and of the balanced pool where it has none, and changes
/// nothing on its way out. What comes of it is handed on, and nothing of
/// it is cached.
pub proof fn lemma_raw_transaction_goes_to_the_relays(
    app: Web3ProxyApp,
    sent: Web3ProxyApp,
    done: Web3ProxyApp,
    request: JsonRpcRequest,
    step: Step,
    outcome: Result<JsonRpcForwardedResponse, Web3ProxyError>,
    finished: Finished,
)
    requires
        method_class(request.method@) is PrivateFanout,
        app.started(&sent, request, step),
        step matches Step::Dispatch { pending } ==> sent.settled(&done, pending, outcome, finished),
    ensures
        step matches Step::Dispatch { pending } && pending.request == request && pending.plan == (
        DispatchPlan {
            pool: if app.has_relays() {
                PoolChoice::Private
            } else {
                PoolChoice::Balanced
            },
            all: true,
            min_block: None,
        }) && pending.key is None,
        sent.same_state(&app),
        done.same_state(&app),
        finished.wake is None,
        finished.result == (match outcome {
            Ok(response) => Ok(Reply::Value(response)),
            Err(err) => Err(err),
        }),
{
}

/// How a task ended that was to return a result.
#[derive(Debug, Clone, Copy, PartialEq, Eq, Structural)]
pub enum JoinFailure {
    /// The task was stopped on purpose.
    Cancelled,
    /// The task broke off.
    Panicked,
}

/// What a joined task is worth: its result where it ran to its end, and
/// the failure to join where not.
pub open spec fn flattened<T>(joined: Result<Result<T, Web3ProxyError>, JoinFailure>) -> Result<
    T,
    Web3ProxyError,
> {
    match joined {
        Ok(Ok(value)) => Ok(value),
        Ok(Err(err)) => Err(err),
        Err(failure) => Err(
            Web3ProxyError::JoinError { cancelled: failure == JoinFailure::Cancelled },
        ),
    }
}

/// flatten a JoinError into an error of the proxy
/// Useful when joining multiple futures.
pub fn flatten_handle<T>(joined: Result<Result<T, Web3ProxyError>, JoinFailure>) -> (result: Result<
    T,
    Web3ProxyError,
>)
    ensures
        result == flattened(joined),
{
    match joined {
        Ok(Ok(value)) => Ok(value),
        Ok(Err(err)) => Err(err),
        Err(failure) => Err(
            Web3ProxyError::JoinError {
                cancelled: match failure {
                    JoinFailure::Cancelled => true,
                    JoinFailure::Panicked => false,
                },
            },
        ),
    }
}

/// The first failure among the joined tasks, in the order in which they
/// ended.
pub open spec fn first_failure<T>(
    joined: Seq<Result<Result<T, Web3ProxyError>, JoinFailure>>,
) -> Option<Web3ProxyError>
    decreases joined.len(),
{
    if joined.len() == 0 {
        None
    } else {
        match first_failure(joined.drop_last()) {
            Some(err) => Some(err),
            None => match flattened(joined.last()) {
                Ok(_) => None,
                Err(err) => Some(err),
            },
        }
    }
}

/// return the first error or okay if everything worked
pub fn flatten_handles<T>(handles: Vec<Result<Result<T, Web3ProxyError>, JoinFailure>>) -> (result:
    Result<(), Web3ProxyError>)
    ensures
        result == (match first_failure(handles@) {
            Some(err) => Err(err),
            None => Ok(()),
        }),
{
    let ghost all = handles@;
    let mut left = handles;
    let n = left.len();
    let mut i: usize = 0;
    assert(all.take(0) =~= Seq::empty());
    while i < n
        invariant
            i <= n,
            n == all.len(),
            all == handles@,
            left@ == all.skip(i as int),
            first_failure(all.take(i as int)) is None,
        decreases n - i,
    {
        assert(all.take(i + 1).drop_last() =~= all.take(i as int));
        assert(all.take(i + 1).last() == all[i as int]);
        let joined = left.remove(0);
        assert(left@ =~= all.skip(i + 1));
        match flatten_handle(joined) {
            Ok(_) => {},
            Err(err) => {
                proof {
                    assert(first_failure(all.take(i + 1)) == Some(err));
                    lemma_first_failure_stays(all, i + 1);
                }
                return Err(err);
            },
        }
        i += 1;
    }
    assert(all.take(n as int) =~= all);
    Ok(())
}

proof fn lemma_first_failure_stays<T>(
    joined: Seq<Result<Result<T, Web3ProxyError>, JoinFailure>>,
    n: int,
)
    requires
        0 <= n <= joined.len(),
        first_failure(joined.take(n)) is Some,
    ensures
        first_failure(joined) == first_failure(joined.take(n)),
    decreases joined.len() - n,
{
    if n < joined.len() {
        assert(joined.take(n + 1).drop_last() =~= joined.take(n));
        lemma_first_failure_stays(joined, n + 1);
    } else {
        assert(joined.take(n) =~= joined);
    }
}

/// How the database is connected to.
#[derive(Debug, PartialEq, Eq)]
pub struct DatabaseOptions {
    pub url: String,
    pub max_connections: u32,
    pub min_connections: u32,
    /// Seconds.
    pub connect_timeout: u64,
    /// Seconds.
    pub idle_timeout: u64,
    /// Seconds.
    pub max_lifetime: u64,
    pub sqlx_logging: bool,
}

/// The options for a database at `db_url` that is to hold at least
/// `min_connections` connections: at most 99 connections, eight seconds to
/// connect, eight seconds of idling, a minute of life, and no logging of
/// statements.
pub fn get_migrated_db(db_url: String, min_connections: u32) -> (options: DatabaseOptions)
    ensures
        options == (DatabaseOptions {
            url: db_url,
            max_connections: 99,
            min_connections,
            connect_timeout: 8,
            idle_timeout: 8,
            max_lifetime: 60,
            sqlx_logging: false,
        }),
{
    DatabaseOptions {
        url: db_url,
        max_connections: 99,
        min_connections,
        connect_timeout: 8,
        idle_timeout: 8,
        max_lifetime: 60,
        sqlx_logging: false,
    }
}

/// How the pool of connections to the store is set up.
#[derive(Debug, PartialEq, Eq)]
pub struct RedisPoolOptions {
    pub url: String,
    pub min_idle: u32,
    pub max_size: u32,
}

/// How the rate limiter of the entrance is set up.
#[derive(Debug, Clone, Copy, PartialEq, Eq, Structural)]
pub struct RateLimiterOptions {
    pub max_burst: u64,
    pub count_per_period: u64,
    /// Seconds.
    pub period: u64,
}

/// What the proxy is started from.
#[derive(Debug, PartialEq, Eq)]
pub struct TopConfig {
    pub db_url: Option<String>,
    pub redis_url: Option<String>,
    pub public_rate_limit_per_minute: u64,
    pub response_cache_max_entries: usize,
    pub response_cache_max_bytes: usize,
    /// How many transactions the registry of pending transactions holds.
    pub pending_transactions_max_entries: usize,
    /// The milliseconds that a transaction stays in the registry without
    /// news of it.
    pub pending_transactions_max_age: u64,
    pub app: AppConfig,
}

/// How many events the bus of pending transactions holds.
pub const PENDING_TX_CAPACITY: usize = 256;

/// How many users the cache of users holds.
pub const USER_CACHE_ENTRIES: usize = 1000;

impl Web3ProxyApp {
    /// Sets the application up for `num_workers` workers.
    ///
    /// A database is to hold at least as many connections as there are
    /// workers. The pool of the store keeps as many connections idle and
    /// holds up to four times as many. The entrance, where there is a
    /// store, lets a third of its limit per minute through at once. The
    /// cache of users holds a thousand users. A private pool without
    /// backends is no private pool: what is meant for the private relays
    /// then goes to the balanced pool.
    pub fn spawn(
        config: TopConfig,
        balanced_rpcs: Pool,
        private_rpcs: Option<Pool>,
        num_workers: u32,
    ) -> (app: Web3ProxyApp)
        requires
            config.redis_url is Some ==> num_workers * 4 <= u32::MAX,
        ensures
            app.config == config.app,
            app.balanced_rpcs == balanced_rpcs,
            app.private_rpcs == kept_relays(private_rpcs),
            app.response_cache@ == Seq::<CacheEntryModel>::empty(),
            app.response_cache.entry_limit() == config.response_cache_max_entries,
            app.response_cache.byte_limit() == config.response_cache_max_bytes,
            app.active_requests@ == Flights::empty(),
            app.active_requests.next() == 0,
            app.pending_transactions@ == Seq::<WaitingTx>::empty(),
            app.pending_transactions.limit() == config.pending_transactions_max_entries,
            app.pending_transactions.age_limit() == config.pending_transactions_max_age,
            app.confirmed@ == Seq::<ConfirmedModel>::empty(),
            app.confirmed.limit() == balanced_rpcs.index.limit(),
            app.user_cache@ == Seq::<CachedUser>::empty(),
            app.user_cache.limit() == USER_CACHE_ENTRIES,
            app.db_conn == (match config.db_url {
                Some(url) => Some(
                    DatabaseOptions {
                        url,
                        max_connections: 99,
                        min_connections: num_workers,
                        connect_timeout: 8,
                        idle_timeout: 8,
                        max_lifetime: 60,
                        sqlx_logging: false,
                    },
                ),
                None => None,
            }),
            app.redis_pool == (match config.redis_url {
                Some(url) => Some(
                    RedisPoolOptions {
                        url,
                        min_idle: num_workers,
                        max_size: (num_workers * 4) as u32,
                    },
                ),
                None => None,
            }),
            app.rate_limiter == (if config.redis_url is Some {
                Some(
                    RateLimiterOptions {
                        max_burst: config.public_rate_limit_per_minute / 3,
                        count_per_period: config.public_rate_limit_per_minute,
                        period: 60,
                    },
                )
            } else {
                None
            }),
    {
        let TopConfig {
            db_url,
            redis_url,
            public_rate_limit_per_minute,
            response_cache_max_entries,
            response_cache_max_bytes,
            pending_transactions_max_entries,
            pending_transactions_max_age,
            app,
        } = config;
        let db_conn = match db_url {
            Some(url) => Some(get_migrated_db(url, num_workers)),
            None => None,
        };
        let rate_limiter = if redis_url.is_some() {
            Some(
                RateLimiterOptions {
                    max_burst: public_rate_limit_per_minute / 3,
                    count_per_period: public_rate_limit_per_minute,
                    period: 60,
                },
            )
        } else {
            None
        };
        let redis_pool = match redis_url {
            Some(url) => Some(
                RedisPoolOptions { url, min_idle: num_workers, max_size: num_workers * 4 },
            ),
            None => None,
        };
        let mut started = Web3ProxyApp::new(
            app,
            balanced_rpcs,
            private_rpcs,
            response_cache_max_entries,
            response_cache_max_bytes,
            pending_transactions_max_entries,
            pending_transactions_max_age,
            USER_CACHE_ENTRIES,
        );
        started.db_conn = db_conn;
        started.redis_pool = redis_pool;
        started.rate_limiter = rate_limiter;
        started
    }

    /// Takes note of a head that the balanced backend at `place` reported
    /// at time `now`, with the transactions of its block.
    ///
    /// The pool takes the head. Where it publishes a new consensus head,
    /// the transactions of the blocks that a fork has thrown out of the
    /// consensus chain are orphaned, and the transactions of the new head
    /// are confirmed, as far as the new head is the block that was
    /// reported. The registry of pending transactions puts out what has
    /// grown stale and hears of both.
    pub fn on_head(
        &mut self,
        place: usize,
        head: HeadSnapshot,
        transactions: Vec<H256>,
        now: u64,
    ) -> (news: HeadNews)
        requires
            place < old(self).balanced_rpcs.backends.len(),
        ensures
            head_noted(*old(self), *final(self), place, head, transactions, now, news),
    {
        let previous = self.balanced_rpcs.head;
        let update = self.balanced_rpcs.on_head(place, head, now);
        self.pending_transactions.expire(now);
        match &update.published {
            Some(new_head) => {
                let fork = match &previous {
                    Some(old_head) => reorg_from(old_head, new_head),
                    None => None,
                };
                let orphaned = match fork {
                    Some(f) => self.confirmed.orphan_from(f),
                    None => Vec::new(),
                };
                let confirmed = if new_head.same(&head) {
                    transactions
                } else {
                    Vec::new()
                };
                let mut copy: Vec<H256> = Vec::new();
                let mut i: usize = 0;
                while i < confirmed.len()
                    invariant
                        i <= confirmed.len(),
                        copy@ == confirmed@.take(i as int),
                    decreases confirmed.len() - i,
                {
                    copy.push(confirmed[i]);
                    assert(confirmed@.take(i + 1) =~= confirmed@.take(i as int).push(
                        confirmed[i as int],
                    ));
                    i += 1;
                }
                assert(confirmed@.take(confirmed.len() as int) =~= confirmed@);
                self.confirmed.confirm(
                    ConfirmedBlock {
                        number: new_head.number,
                        hash: new_head.hash,
                        transactions: copy,
                    },
                );
                self.pending_transactions.apply_all(&orphaned, TxNews::Orphaned, now);
                self.pending_transactions.apply_all(&confirmed, TxNews::Confirmed, now);
                HeadNews { update, orphaned, confirmed }
            },
            None => HeadNews { update, orphaned: Vec::new(), confirmed: Vec::new() },
        }
    }

    /// Takes note of a transaction that a backend has seen waiting at time
    /// `now`, and says whether the subscribers are to hear of it. The
    /// registry of pending transactions first puts out what has grown
    /// stale.
    pub fn on_pending(&mut self, hash: H256, now: u64) -> (fresh: bool)
        ensures
            ({
                let kept = unexpired(
                    old(self).pending_transactions@,
                    now,
                    old(self).pending_transactions.age_limit(),
                );
                &&& fresh == is_news(kept, hash@, TxNews::Pending)
                &&& final(self).pending_transactions@ == after_news(
                    kept,
                    hash@,
                    TxNews::Pending,
                    now,
                    old(self).pending_transactions.limit(),
                )
            }),
            final(self).pending_transactions.limit() == old(self).pending_transactions.limit(),
            final(self).pending_transactions.age_limit() == old(
                self,
            ).pending_transactions.age_limit(),
            final(self).config == old(self).config,
            final(self).balanced_rpcs == old(self).balanced_rpcs,
            final(self).private_rpcs == old(self).private_rpcs,
            final(self).confirmed == old(self).confirmed,
            final(self).user_cache == old(self).user_cache,
            final(self).redis_pool == old(self).redis_pool,
            final(self).rate_limiter == old(self).rate_limiter,
            final(self).db_conn == old(self).db_conn,
            final(self).same_cache(old(self)),
            final(self).same_flights(old(self)),
    {
        self.pending_transactions.expire(now);
        self.pending_transactions.apply(hash, TxNews::Pending, now)
    }

    /// The requests that a call of the proxy holds, in their order, and the
    /// seconds within which all of them are to be answered.
    pub fn proxy_web3_rpc(&self, request: JsonRpcRequestEnum) -> (plan: (Vec<JsonRpcRequest>, u64))
        ensures
            plan.0@ == (match request {
                JsonRpcRequestEnum::Single(one) => seq![one],
                JsonRpcRequestEnum::Batch(all) => all@,
            }),
            plan.1 == (if self.config.request_timeout == 0 {
                DEFAULT_REQUEST_TIMEOUT
            } else {
                self.config.request_timeout
            }),
    {
        let requests = match request {
            JsonRpcRequestEnum::Single(one) => {
                let mut requests: Vec<JsonRpcRequest> = Vec::new();
                requests.push(one);
                assert(requests@ =~= seq![one]);
                requests
            },
            JsonRpcRequestEnum::Batch(all) => all,
        };
        (requests, self.request_timeout())
    }

    /// Opens a subscription for a client on a connection whose counter of
    /// subscriptions is `subscription_count`.
    pub fn eth_subscribe(&self, payload: JsonRpcRequest, subscription_count: &mut u64) -> (opened:
        Result<(Subscription, JsonRpcForwardedResponse), Web3ProxyError>)
        ensures
            subscribed(payload, *old(subscription_count), *final(subscription_count), opened),
    {
        eth_subscribe(payload, subscription_count)
    }

    /// Takes up a request for which the hash of block `number` was asked
    /// from a backend: a hash that was found is filed in the block index,
    /// and the request is taken up at it; without one the request goes out
    /// uncached.
    pub fn resume_with_block_hash(
        &mut self,
        pending: PendingRequest,
        number: u64,
        hash: Option<H256>,
    ) -> (step: Step)
        ensures
            ({
                let filed_app = Web3ProxyApp {
                    balanced_rpcs: Pool {
                        index: final(self).balanced_rpcs.index,
                        ..old(self).balanced_rpcs
                    },
                    ..*old(self)
                };
                &&& final(self).balanced_rpcs.index.limit() == old(self).balanced_rpcs.index.limit()
                &&& final(self).balanced_rpcs.index@ == (match hash {
                    Some(h) => filed(
                        old(self).balanced_rpcs.index@,
                        number as nat,
                        h@,
                        old(self).balanced_rpcs.index.limit(),
                    ),
                    None => old(self).balanced_rpcs.index@,
                })
                &&& filed_app.entered(final(self), pending, hash, step)
            }),
    {
        match &hash {
            Some(h) => {
                self.balanced_rpcs.index.insert(number, *h);
            },
            None => {},
        }
        self.enter(pending, hash)
    }

    /// What is done when no backend gave out a handle, after `tries`
    /// tries, at time `now`: where a backend said when it is ready again and
    /// tries are left, the request sleeps until then and is tried again;
    /// where tries have run out, the caller is rate limited and told how
    /// many whole seconds to wait; and where no backend can serve the
    /// request, no servers are synced.
    pub fn retry(&self, tries: u32, ready_at: Option<u64>, now: u64, caller: RateLimit) -> (decision:
        Result<u64, Web3ProxyError>)
        ensures
            decision == (match ready_at {
                Some(at) => if tries < self.config.max_retries {
                    Ok(at)
                } else {
                    Err(
                        Web3ProxyError::RateLimited(
                            RateLimit {
                                ip: caller.ip,
                                rpc_secret_key_id: caller.rpc_secret_key_id,
                                retry_in_secs: Some(
                                    if at >= now {
                                        ((at - now) / 1000) as u64
                                    } else {
                                        0
                                    },
                                ),
                            },
                        ),
                    )
                },
                None => Err(Web3ProxyError::NoServersSynced),
            }),
    {
        match ready_at {
            Some(at) => if tries < self.config.max_retries {
                Ok(at)
            } else {
                let wait = if at >= now {
                    (at - now) / 1000
                } else {
                    0
                };
                Err(
                    Web3ProxyError::RateLimited(
                        RateLimit {
                            ip: caller.ip,
                            rpc_secret_key_id: caller.rpc_secret_key_id,
                            retry_in_secs: Some(wait),
                        },
                    ),
                )
            },
            None => Err(Web3ProxyError::NoServersSynced),
        }
    }
}

} // verus!
