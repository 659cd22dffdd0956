//! Handles for single requests to a backend.
//!
//! A handle stands for one request that is under way on one backend. The
//! backend counts a request from the moment the handle is made until it is
//! released, and a handle serves one request and no more.

use vstd::prelude::*;
use crate::block_helpers::{member, member_of};
use crate::errors::ProviderFailure;
use crate::json::{JsonModel, JsonValue};
use crate::jsonrpc::JsonRpcRequest;
use crate::rpcs::connection::{Backend, Health};
use crate::rpcs::selection::random_draw;
use crate::sha3::{decode_hex, hex_decoded};
use crate::text::{starts_with, str_eq};

verus! {

/// On whose behalf a request is made.
#[derive(Debug, PartialEq, Eq)]
pub enum AuthorizedRequest {
    /// The proxy itself.
    Internal { has_db: bool },
    /// A caller known by its address alone.
    Ip { has_db: bool, ip: String },
    /// A caller known by its key.
    User { has_db: bool, user_key_id: u64 },
}

impl AuthorizedRequest {
    /// Whether reverts of this caller's calls can be recorded.
    pub open spec fn can_record(&self) -> bool {
        match self {
            AuthorizedRequest::Internal { has_db } => *has_db,
            AuthorizedRequest::Ip { has_db, .. } => *has_db,
            AuthorizedRequest::User { has_db, .. } => *has_db,
        }
    }

    /// Whether reverts of this caller's calls can be recorded.
    pub fn has_db(&self) -> (b: bool)
        ensures
            b == self.can_record(),
    {
        match self {
            AuthorizedRequest::Internal { has_db } => *has_db,
            AuthorizedRequest::Ip { has_db, .. } => *has_db,
            AuthorizedRequest::User { has_db, .. } => *has_db,
        }
    }
}

/// What came of asking a backend for a handle.
#[derive(Debug, PartialEq, Eq)]
pub enum OpenRequestResult {
    Handle(OpenRequestHandle),
    /// Unable to start a request. Retry at the given time, in milliseconds.
    RetryAt(u64),
    /// Unable to start a request. Retrying will not succeed.
    RetryNever,
}

/// Make one request through this handle and release it when you are done.
#[derive(Debug, PartialEq, Eq)]
pub struct OpenRequestHandle {
    authorization: AuthorizedRequest,
    conn: String,
    used: bool,
}

/// The chance with which a revert is recorded.
#[derive(Debug, Clone, Copy, PartialEq, Eq, Structural)]
pub enum RevertChance {
    /// The chance is zero.
    Never,
    /// The chance is one.
    Always,
    /// The chance lies between: a revert is recorded where a number drawn
    /// evenly from all that a `u64` holds is no greater than this one.
    Below(u64),
}

/// Depending on the context, RPC errors can require different handling.
#[derive(Debug, Clone, Copy, PartialEq, Eq, Structural)]
pub enum RequestErrorHandler {
    /// Record reverts, as far as chance allows.
    SaveReverts(RevertChance),
    /// Log at the debug level. Use when errors are expected.
    DebugLevel,
    /// Log at the error level. Use when errors are bad.
    ErrorLevel,
    /// Log at the warn level. Use when errors do not cause problems.
    WarnLevel,
}

/// The levels of the log.
#[derive(Debug, Clone, Copy, PartialEq, Eq, Structural)]
pub enum Level {
    Trace,
    Debug,
    Info,
    Warn,
    Error,
}

/// What to do about a failed request.
#[derive(Debug, Clone, Copy, PartialEq, Eq, Structural)]
pub enum ErrorAction {
    LogDebug,
    LogWarn,
    LogError,
    /// Hand the call and its revert message to the record sink.
    SaveRevert,
    /// Neither log nor record.
    Nothing,
}

impl RequestErrorHandler {
    /// The handler that logs at `level`. There is one for the levels debug,
    /// warn and error.
    pub fn from(level: Level) -> (handler: RequestErrorHandler)
        requires
            level == Level::Debug || level == Level::Warn || level == Level::Error,
        ensures
            handler == (match level {
                Level::Debug => RequestErrorHandler::DebugLevel,
                Level::Error => RequestErrorHandler::ErrorLevel,
                _ => RequestErrorHandler::WarnLevel,
            }),
    {
        match level {
            Level::Debug => RequestErrorHandler::DebugLevel,
            Level::Error => RequestErrorHandler::ErrorLevel,
            _ => RequestErrorHandler::WarnLevel,
        }
    }
}

/// Whether reverts of `method` are recorded at all.
pub open spec fn records_reverts(method: Seq<char>) -> bool {
    method == "eth_call"@ || method == "eth_estimateGas"@
}

/// Whether chance lets a revert be recorded, given the number drawn for
/// it.
pub open spec fn chance_allows(chance: RevertChance, draw: u64) -> bool {
    match chance {
        RevertChance::Never => false,
        RevertChance::Always => true,
        RevertChance::Below(limit) => draw <= limit,
    }
}

/// What to do about a failed request.
///
/// A handler that records reverts does so only for `eth_call` and
/// `eth_estimateGas`, for a caller whose reverts can be recorded, and as far
/// as chance allows; otherwise it logs at the debug level. Where it does
/// record, it records a JSON-RPC error whose message begins with
/// `execution reverted`, logs another JSON-RPC error at the debug level,
/// and passes over a failure of the transport.
pub open spec fn error_action(
    handler: RequestErrorHandler,
    method: Seq<char>,
    can_record: bool,
    failure: ProviderFailure,
    draw: u64,
) -> ErrorAction {
    match handler {
        RequestErrorHandler::DebugLevel => ErrorAction::LogDebug,
        RequestErrorHandler::ErrorLevel => ErrorAction::LogError,
        RequestErrorHandler::WarnLevel => ErrorAction::LogWarn,
        RequestErrorHandler::SaveReverts(chance) => if records_reverts(method) && can_record
            && chance_allows(chance, draw) {
            match failure {
                ProviderFailure::JsonRpc(data) => if "execution reverted"@.is_prefix_of(
                    data.message@,
                ) {
                    ErrorAction::SaveRevert
                } else {
                    ErrorAction::LogDebug
                },
                ProviderFailure::Other(_) => ErrorAction::Nothing,
            }
        } else {
            ErrorAction::LogDebug
        },
    }
}

/// A revert as the record sink takes it.
#[derive(Debug, PartialEq, Eq)]
pub struct RevertLog {
    pub user_key_id: u64,
    pub method: String,
    pub to: Vec<u8>,
    pub call_data: String,
    pub timestamp: u64,
}

/// The call that reverted.
#[derive(Debug, PartialEq, Eq)]
pub struct EthCallParams {
    pub method: String,
    pub to: Vec<u8>,
    pub data: String,
}

/// The mathematical value of an [`EthCallParams`].
pub struct EthCallModel {
    pub method: Seq<char>,
    pub to: Seq<u8>,
    pub data: Seq<char>,
}

impl View for EthCallParams {
    type V = EthCallModel;

    open spec fn view(&self) -> EthCallModel {
        EthCallModel { method: self.method@, to: self.to@, data: self.data@ }
    }
}

/// The text that an object holds under `name`; none where it has no such
/// member or the member is no text.
pub open spec fn text_under(value: JsonModel, name: Seq<char>) -> Option<Seq<char>> {
    match member_of(value, name) {
        Some(JsonModel::Text(text)) => Some(text),
        _ => None,
    }
}

/// The call that a request made, read from its parameters. The first
/// parameter is to be an object that holds the address called, as
/// hexadecimal text, under `to`; the data of the call is the text under
/// `data`, and empty where there is none.
pub open spec fn call_of(method: Seq<char>, params: Option<JsonModel>) -> Option<EthCallModel> {
    match params {
        Some(JsonModel::Array(items)) => if items.len() == 0 {
            None
        } else {
            match text_under(items[0], "to"@) {
                Some(to) => match hex_decoded(to) {
                    Some(address) => Some(
                        EthCallModel {
                            method,
                            to: address,
                            data: match text_under(items[0], "data"@) {
                                Some(data) => data,
                                None => Seq::empty(),
                            },
                        },
                    ),
                    None => None,
                },
                None => None,
            }
        },
        _ => None,
    }
}

fn text_of<'a>(value: &'a JsonValue, name: &str) -> (text: Option<&'a String>)
    ensures
        text_under(value@, name@) == (match text {
            Some(t) => Some(t@),
            None => None,
        }),
{
    match member(value, name) {
        Some(JsonValue::Text(text)) => Some(text),
        _ => None,
    }
}

/// The call that a request made, read from its parameters.
pub fn eth_call_params(request: &JsonRpcRequest) -> (call: Option<EthCallParams>)
    ensures
        call_of(
            request.method@,
            match request.params {
                Some(p) => Some(p@),
                None => None,
            },
        ) == (match call {
            Some(c) => Some(c@),
            None => None,
        }),
{
    let first = match &request.params {
        Some(JsonValue::Array(items)) => {
            if items.len() == 0 {
                return None;
            }
            &items[0]
        },
        _ => {
            return None;
        },
    };
    let to = match text_of(first, "to") {
        Some(text) => match decode_hex(text.as_str()) {
            Some(address) => address,
            None => {
                return None;
            },
        },
        None => {
            return None;
        },
    };
    let data = match text_of(first, "data") {
        Some(text) => text.clone(),
        None => String::from_str(""),
    };
    proof {
        reveal_strlit("");
        assert(data@ =~= (match text_under(first@, "data"@) {
            Some(d) => d,
            None => Seq::empty(),
        }));
    }
    Some(EthCallParams { method: request.method.clone(), to, data })
}

impl AuthorizedRequest {
    /// The record of a revert for the sink: there is one for a caller that
    /// is known by its key and whose reverts can be recorded.
    pub fn save_revert(&self, params: EthCallParams, timestamp: u64) -> (log: Option<RevertLog>)
        ensures
            match *self {
                AuthorizedRequest::User { has_db: true, user_key_id } => log == Some(
                    RevertLog {
                        user_key_id,
                        method: params.method,
                        to: params.to,
                        call_data: params.data,
                        timestamp,
                    },
                ),
                _ => log is None,
            },
    {
        match self {
            AuthorizedRequest::User { has_db: true, user_key_id } => Some(
                RevertLog {
                    user_key_id: *user_key_id,
                    method: params.method,
                    to: params.to,
                    call_data: params.data,
                    timestamp,
                },
            ),
            _ => None,
        }
    }
}

/// A backend after a handle for it was made: it counts one request more
/// under way and one more in all.
pub open spec fn handed_out(backend: Backend) -> Backend {
    Backend {
        active_requests: backend.active_requests.wrapping_add(1),
        total_requests: backend.total_requests.wrapping_add(1),
        ..backend
    }
}

/// A backend after a handle for it was released: it counts one request
/// less under way.
pub open spec fn handed_back(backend: Backend) -> Backend {
    Backend { active_requests: backend.active_requests.wrapping_sub(1), ..backend }
}

impl OpenRequestHandle {
    /// The name of the backend that this handle is for.
    pub closed spec fn backend_id(&self) -> Seq<char> {
        self.conn@
    }

    /// Whether the handle has served its request.
    pub closed spec fn is_used(&self) -> bool {
        self.used
    }

    /// On whose behalf the request is made.
    pub closed spec fn authorized(&self) -> AuthorizedRequest {
        self.authorization
    }

    /// Starts a request on `conn`: the backend counts one request more
    /// under way and one more in all. Without an authorization the request
    /// is the proxy's own.
    pub fn new(conn: &mut Backend, authorization: Option<AuthorizedRequest>) -> (handle: Self)
        ensures
            final(conn).active_requests == old(conn).active_requests.wrapping_add(1),
            final(conn).total_requests == old(conn).total_requests.wrapping_add(1),
            final(conn).id == old(conn).id,
            final(conn).soft_limit == old(conn).soft_limit,
            final(conn).hard_limit == old(conn).hard_limit,
            final(conn).weight == old(conn).weight,
            final(conn).capabilities == old(conn).capabilities,
            final(conn).has_db == old(conn).has_db,
            final(conn).head == old(conn).head,
            final(conn).head_seen_at == old(conn).head_seen_at,
            final(conn).failures == old(conn).failures,
            final(conn).health == old(conn).health,
            *final(conn) == handed_out(*old(conn)),
            handle.backend_id() == old(conn).id@,
            !handle.is_used(),
            handle.authorized() == (match authorization {
                Some(a) => a,
                None => AuthorizedRequest::Internal { has_db: old(conn).has_db },
            }),
    {
        conn.active_requests = conn.active_requests.wrapping_add(1);
        conn.total_requests = conn.total_requests.wrapping_add(1);
        let authorization = match authorization {
            Some(a) => a,
            None => AuthorizedRequest::Internal { has_db: conn.has_db },
        };
        OpenRequestHandle { authorization, conn: conn.id.clone(), used: false }
    }

    /// The name of the backend that this handle is for.
    pub fn clone_connection(&self) -> (id: String)
        ensures
            id@ == self.backend_id(),
    {
        self.conn.clone()
    }

    /// Whether the handle has served its request.
    pub fn used(&self) -> (b: bool)
        ensures
            b == self.is_used(),
    {
        self.used
    }

    /// Marks the start of the one request that the handle serves.
    pub fn request(&mut self)
        requires
            !old(self).is_used(),
        ensures
            final(self).is_used(),
            final(self).backend_id() == old(self).backend_id(),
            final(self).authorized() == old(self).authorized(),
    {
        self.used = true;
    }

    /// On whose behalf the request is made.
    pub fn authorization(&self) -> (authorization: &AuthorizedRequest)
        ensures
            *authorization == self.authorized(),
    {
        &self.authorization
    }

    /// What to do about the failure of the request. A number is drawn
    /// for each failure, and it decides where chance has a say.
    pub fn on_error(
        &self,
        method: &str,
        error_handler: RequestErrorHandler,
        failure: &ProviderFailure,
    ) -> (action: ErrorAction)
        ensures
            exists|draw: u64|
                action == #[trigger] error_action(
                    error_handler,
                    method@,
                    self.authorized().can_record(),
                    *failure,
                    draw,
                ),
    {
        let draw = random_draw();
        self.on_error_with(method, error_handler, failure, draw)
    }

    /// What to do about the failure of the request, given the number
    /// that was drawn for it.
    pub fn on_error_with(
        &self,
        method: &str,
        error_handler: RequestErrorHandler,
        failure: &ProviderFailure,
        draw: u64,
    ) -> (action: ErrorAction)
        ensures
            action == error_action(
                error_handler,
                method@,
                self.authorized().can_record(),
                *failure,
                draw,
            ),
    {
        match error_handler {
            RequestErrorHandler::DebugLevel => ErrorAction::LogDebug,
            RequestErrorHandler::ErrorLevel => ErrorAction::LogError,
            RequestErrorHandler::WarnLevel => ErrorAction::LogWarn,
            RequestErrorHandler::SaveReverts(chance) => {
                let allowed = match chance {
                    RevertChance::Always => true,
                    RevertChance::Below(limit) => draw <= limit,
                    RevertChance::Never => false,
                };
                if (str_eq(method, "eth_call") || str_eq(method, "eth_estimateGas"))
                    && self.authorization.has_db() && allowed {
                    match failure {
                        ProviderFailure::JsonRpc(data) => {
                            if starts_with(data.message.as_str(), "execution reverted") {
                                ErrorAction::SaveRevert
                            } else {
                                ErrorAction::LogDebug
                            }
                        },
                        ProviderFailure::Other(_) => ErrorAction::Nothing,
                    }
                } else {
                    ErrorAction::LogDebug
                }
            },
        }
    }

    /// The record of a reverted request for the sink: there is one where
    /// the caller is known by its key, its reverts can be recorded, and
    /// the call can be read from the parameters of the request.
    pub fn revert_log(&self, request: &JsonRpcRequest, timestamp: u64) -> (log: Option<RevertLog>)
        ensures
            match (
                self.authorized(),
                call_of(
                    request.method@,
                    match request.params {
                        Some(p) => Some(p@),
                        None => None,
                    },
                ),
            ) {
                (AuthorizedRequest::User { has_db: true, user_key_id }, Some(call)) => {
                    &&& log matches Some(record)
                    &&& record.user_key_id == user_key_id
                    &&& record.method@ == call.method
                    &&& record.to@ == call.to
                    &&& record.call_data@ == call.data
                    &&& record.timestamp == timestamp
                },
                _ => log is None,
            },
    {
        match eth_call_params(request) {
            Some(call) => self.authorization.save_revert(call, timestamp),
            None => None,
        }
    }

    /// Ends the request: the backend that the handle was made for counts
    /// one request less under way.
    pub fn release(self, conn: &mut Backend)
        requires
            self.backend_id() == old(conn).id@,
        ensures
            final(conn).active_requests == old(conn).active_requests.wrapping_sub(1),
            final(conn).total_requests == old(conn).total_requests,
            final(conn).id == old(conn).id,
            final(conn).soft_limit == old(conn).soft_limit,
            final(conn).hard_limit == old(conn).hard_limit,
            final(conn).weight == old(conn).weight,
            final(conn).capabilities == old(conn).capabilities,
            final(conn).has_db == old(conn).has_db,
            final(conn).head == old(conn).head,
            final(conn).head_seen_at == old(conn).head_seen_at,
            final(conn).failures == old(conn).failures,
            final(conn).health == old(conn).health,
            *final(conn) == handed_back(*old(conn)),
    {
        conn.active_requests = conn.active_requests.wrapping_sub(1);
    }
}

/// What the quota oracle said.
#[derive(Debug, Clone, Copy, PartialEq, Eq, Structural)]
pub enum QuotaAnswer {
    Allowed,
    /// Come back after so many milliseconds.
    RetryAfter(u64),
}

/// Whether a backend in this state can serve a request that needs block
/// `min_block`.
pub open spec fn can_serve(backend: Backend, min_block: Option<u64>) -> bool {
    &&& backend.health != Health::Unhealthy
    &&& match min_block {
        Some(needed) => backend.head matches Some(head) && head.number >= needed,
        None => true,
    }
}

/// The time to try again after a wait: the time now and the wait, and the
/// end of time where that is beyond it.
pub open spec fn after_wait(now: u64, wait: u64) -> u64 {
    if now + wait <= u64::MAX {
        (now + wait) as u64
    } else {
        u64::MAX
    }
}

/// What asking a backend for a handle gives and does.
///
/// An unhealthy backend, or one whose head is below the block needed,
/// never serves the request. A backend at its ceiling of requests under
/// way is to be tried again at once. Otherwise the quota oracle decides:
/// the request is to be tried again when the quota has recovered, or the
/// handle is given out and the backend counts one request more. Only a
/// handle changes the backend.
pub open spec fn opened(
    before: Backend,
    after: Backend,
    authorization: Option<AuthorizedRequest>,
    min_block: Option<u64>,
    quota: QuotaAnswer,
    now: u64,
    result: OpenRequestResult,
) -> bool {
    if !can_serve(before, min_block) {
        result is RetryNever && after == before
    } else if before.active_requests >= before.hard_limit {
        result == OpenRequestResult::RetryAt(now) && after == before
    } else {
        match quota {
            QuotaAnswer::RetryAfter(wait) => result == OpenRequestResult::RetryAt(
                after_wait(now, wait),
            ) && after == before,
            QuotaAnswer::Allowed => {
                &&& result matches OpenRequestResult::Handle(handle)
                &&& handle.backend_id() == before.id@
                &&& !handle.is_used()
                &&& handle.authorized() == (match authorization {
                    Some(a) => a,
                    None => AuthorizedRequest::Internal { has_db: before.has_db },
                })
                &&& after.active_requests == before.active_requests + 1
                &&& after.total_requests == before.total_requests.wrapping_add(1)
                &&& after.id == before.id
                &&& after.soft_limit == before.soft_limit
                &&& after.hard_limit == before.hard_limit
                &&& after.weight == before.weight
                &&& after.capabilities == before.capabilities
                &&& after.has_db == before.has_db
                &&& after.head == before.head
                &&& after.head_seen_at == before.head_seen_at
                &&& after.failures == before.failures
                &&& after.health == before.health
            },
        }
    }
}

impl Backend {
    /// Whether the quota oracle has to be asked before a handle for a
    /// request that needs block `min_block` can be given out: it has where
    /// the backend can serve the request and is below its ceiling.
    pub fn wants_quota(&self, min_block: Option<u64>) -> (b: bool)
        ensures
            b == (can_serve(*self, min_block) && self.active_requests < self.hard_limit),
    {
        if self.health == Health::Unhealthy {
            return false;
        }
        let serves = match min_block {
            Some(needed) => match &self.head {
                Some(head) => head.number >= needed,
                None => false,
            },
            None => true,
        };
        serves && self.active_requests < self.hard_limit
    }

    /// Asks for a handle for a request that needs block `min_block`, at
    /// time `now`, with the answer of the quota oracle.
    pub fn open_handle(
        &mut self,
        authorization: Option<AuthorizedRequest>,
        min_block: Option<u64>,
        quota: QuotaAnswer,
        now: u64,
    ) -> (result: OpenRequestResult)
        ensures
            opened(*old(self), *final(self), authorization, min_block, quota, now, result),
    {
        if self.health == Health::Unhealthy {
            return OpenRequestResult::RetryNever;
        }
        let serves = match min_block {
            Some(needed) => match &self.head {
                Some(head) => head.number >= needed,
                None => false,
            },
            None => true,
        };
        if !serves {
            return OpenRequestResult::RetryNever;
        }
        if self.active_requests >= self.hard_limit {
            return OpenRequestResult::RetryAt(now);
        }
        match quota {
            QuotaAnswer::RetryAfter(wait) => OpenRequestResult::RetryAt(now.saturating_add(wait)),
            QuotaAnswer::Allowed => OpenRequestResult::Handle(
                OpenRequestHandle::new(self, authorization),
            ),
        }
    }
}

/// A handle is made or released.
pub enum HandleEvent {
    Opened,
    Released,
}

/// The handles that are out after the events: those made and not released.
pub open spec fn handles_out(events: Seq<HandleEvent>) -> int
    decreases events.len(),
{
    if events.len() == 0 {
        0
    } else {
        handles_out(events.drop_last()) + (match events.last() {
            HandleEvent::Opened => 1int,
            HandleEvent::Released => -1int,
        })
    }
}

/// The handles that were made in the course of the events.
pub open spec fn handles_made(events: Seq<HandleEvent>) -> nat
    decreases events.len(),
{
    if events.len() == 0 {
        0
    } else {
        handles_made(events.drop_last()) + (match events.last() {
            HandleEvent::Opened => 1nat,
            HandleEvent::Released => 0nat,
        })
    }
}

/// The backend after the events: what making and releasing the handles,
/// one after the other, leave of it.
pub open spec fn backend_after(start: Backend, events: Seq<HandleEvent>) -> Backend
    decreases events.len(),
{
    if events.len() == 0 {
        start
    } else {
        match events.last() {
            HandleEvent::Opened => handed_out(backend_after(start, events.drop_last())),
            HandleEvent::Released => handed_back(backend_after(start, events.drop_last())),
        }
    }
}

/// Whether the events can happen: a handle is released only after it was
/// made, and no more handles are out at once than the counter can hold.
pub open spec fn orderly(events: Seq<HandleEvent>) -> bool {
    forall|n: int| 0 <= n <= events.len() ==> 0 <= #[trigger] handles_out(events.take(n)) <= u32::MAX
}

proof fn lemma_made_so_far(events: Seq<HandleEvent>, n: int)
    requires
        0 <= n <= events.len(),
    ensures
        handles_made(events.take(n)) <= handles_made(events),
    decreases events.len(),
{
    if n == events.len() {
        assert(events.take(n) =~= events);
    } else {
        lemma_made_so_far(events.drop_last(), n);
        assert(events.drop_last().take(n) =~= events.take(n));
    }
}

proof fn lemma_counts_after(start: Backend, events: Seq<HandleEvent>)
    requires
        orderly(events),
        start.active_requests == 0,
        start.total_requests + handles_made(events) <= u64::MAX,
    ensures
        backend_after(start, events).active_requests == handles_out(events),
        backend_after(start, events).total_requests == start.total_requests + handles_made(events),
        backend_after(start, events) == (Backend {
            active_requests: backend_after(start, events).active_requests,
            total_requests: backend_after(start, events).total_requests,
            ..start
        }),
    decreases events.len(),
{
    assert(events.take(events.len() as int) =~= events);
    if events.len() > 0 {
        let before = events.drop_last();
        assert forall|n: int| 0 <= n <= before.len() implies 0 <= #[trigger] handles_out(
            before.take(n),
        ) <= u32::MAX by {
            assert(before.take(n) =~= events.take(n));
        }
        lemma_counts_after(start, before);
        assert(before.take(before.len() as int) =~= before);
        assert(events.take(before.len() as int) =~= before);
    }
}

/// Handle conservation: a backend that starts with no request under way
/// counts, at every moment, as many requests under way as handles are out,
/// in whatever order they are made and released, and so never fewer than
/// none. It has counted one request in all for each handle made, as long
/// as that count has room, and nothing else of it changes. When every
/// handle has been released, it counts no request under way.
pub proof fn lemma_handle_conservation(start: Backend, events: Seq<HandleEvent>)
    requires
        orderly(events),
        start.active_requests == 0,
        start.total_requests + handles_made(events) <= u64::MAX,
    ensures
        forall|n: int|
            0 <= n <= events.len() ==> (#[trigger] backend_after(
                start,
                events.take(n),
            )).active_requests == handles_out(events.take(n)),
        backend_after(start, events).active_requests == handles_out(events),
        backend_after(start, events).total_requests == start.total_requests + handles_made(events),
        backend_after(start, events) == (Backend {
            active_requests: backend_after(start, events).active_requests,
            total_requests: backend_after(start, events).total_requests,
            ..start
        }),
        handles_out(events) == 0 ==> backend_after(start, events) == (Backend {
            total_requests: (start.total_requests + handles_made(events)) as u64,
            ..start
        }),
{
    lemma_counts_after(start, events);
    assert forall|n: int| 0 <= n <= events.len() implies (#[trigger] backend_after(
        start,
        events.take(n),
    )).active_requests == handles_out(events.take(n)) by {
        let so_far = events.take(n);
        assert forall|m: int| 0 <= m <= so_far.len() implies 0 <= #[trigger] handles_out(
            so_far.take(m),
        ) <= u32::MAX by {
            assert(so_far.take(m) =~= events.take(m));
        }
        lemma_made_so_far(events, n);
        lemma_counts_after(start, so_far);
    }
}

/// A request that got its handle and gave it back leaves the backend
/// with as many requests under way as before and with one request more in
/// all, and changes nothing else of it.
pub proof fn lemma_one_request_counts_once(
    before: Backend,
    held: Backend,
    after: Backend,
    authorization: Option<AuthorizedRequest>,
    min_block: Option<u64>,
    quota: QuotaAnswer,
    now: u64,
    result: OpenRequestResult,
)
    requires
        opened(before, held, authorization, min_block, quota, now, result),
        result is Handle,
        after == handed_back(held),
    ensures
        after.active_requests == before.active_requests,
        after.total_requests == before.total_requests.wrapping_add(1),
        after == (Backend { total_requests: after.total_requests, ..before }),
{
}

} // verus!
