//! The errors of the proxy, and what a client is told about each: an HTTP
//! status and the `error` member of a JSON-RPC response.
//!
//! Failures of the libraries around the proxy arrive here as text: the proxy
//! reports them and never looks inside.

use std::sync::Arc;
use vstd::prelude::*;
use crate::json::{JsonModel, JsonValue};
use crate::jsonrpc::{
    JsonRpcErrorData, JsonRpcErrorModel, JsonRpcForwardedResponse, JsonRpcResponseModel,
    response_text,
};
use crate::primitives::{short_hash, H256};
use crate::text::{append_decimal, append_str, decimal, u64_to_decimal};

verus! {

/// A result whose error is an error of the proxy.
pub type Web3ProxyResult<T> = Result<T, Web3ProxyError>;

/// What the client of an upstream node reported.
#[derive(Debug, PartialEq, Eq)]
pub enum ProviderFailure {
    /// The node answered with a JSON-RPC error of its own.
    JsonRpc(JsonRpcErrorData),
    /// The call did not get through; holds the text of the failure.
    Other(String),
}

/// Who is rate limited, and for how long.
#[derive(Debug, PartialEq, Eq)]
pub struct RateLimit {
    /// The caller's address as text.
    pub ip: String,
    /// The id of the caller's key, where the call came with one.
    pub rpc_secret_key_id: Option<u64>,
    /// Whole seconds until the caller may try again, where that is known.
    pub retry_in_secs: Option<u64>,
}

/// What can go wrong in the proxy.
#[derive(Debug, PartialEq, Eq)]
pub enum Web3ProxyError {
    /// An error that several tasks share.
    Arc(Arc<Web3ProxyError>),
    /// The HTTP client of a backend failed.
    EthersHttpClient(ProviderFailure),
    /// A backend failed.
    EthersProvider(ProviderFailure),
    /// The WebSocket client of a backend failed.
    EthersWsClient(ProviderFailure),
    /// A task ended without its result; `cancelled` where it was stopped on purpose.
    JoinError { cancelled: bool },
    /// An error that is handed to the client as it is.
    JsonRpcErrorData(JsonRpcErrorData),
    /// The caller sent more than its quota allows.
    RateLimited(RateLimit),
    /// A status, a message for the client and, where there is one, a text for the log.
    StatusCode(u16, String, Option<String>),
    /// The request ran out of time; holds the text of the timer's error where there is one.
    Timeout(Option<String>),
    /// A block hash that no backend knows.
    UnknownBlockHash(H256),
    /// Another error, where there is one, and what was being done when it came.
    WithContext(Option<Box<Web3ProxyError>>, String),
    /// An ABI could not be encoded or decoded; holds the text of the failure.
    Abi(String),
    /// The caller may not do this.
    AccessDenied(String),
    /// A failure without a kind of its own; its text is kept from the client.
    Anyhow(String),
    /// The request is malformed.
    BadRequest(String),
    /// A backend answered with something that is no JSON-RPC response.
    BadResponse(String),
    /// A request reached a place that does not serve it.
    BadRouting,
    /// A contract call failed.
    Contract(String),
    /// The database failed; its text is kept from the client.
    Database(String),
    /// A decimal number could not be read.
    Decimal(String),
    /// A channel was closed while it was read.
    FlumeRecv,
    /// A backend estimated gas with something that is no number.
    GasEstimateNotU256,
    /// A latency could not be recorded.
    HdrRecord(String),
    /// A header could not be read.
    Headers(String),
    /// A header holds bytes that are no text.
    HeaderToString(String),
    /// An address is no URI.
    HttpUri(String),
    /// The HTTP layer failed.
    Hyper(String),
    /// The statistics store failed; its text is kept from the client.
    InfluxDb2Request(String),
    /// A range of blocks starts after it ends.
    InvalidBlockBounds { min: u64, max: u64 },
    /// A header value is not allowed.
    InvalidHeaderValue(String),
    /// A signed message names an unknown EIP.
    InvalidEip,
    /// The invite code is wrong.
    InvalidInviteCode,
    /// Reading or writing failed.
    Io(String),
    /// The referral code is unknown.
    UnknownReferralCode,
    /// The referer header is malformed.
    InvalidReferer,
    /// A signature has the wrong length.
    InvalidSignatureLength,
    /// A user is in a tier that does not exist.
    InvalidUserTier,
    /// The user agent header is malformed.
    InvalidUserAgent,
    /// The key in the path is neither a ULID nor a UUID.
    InvalidUserKey,
    /// An IP address could not be read.
    IpAddrParse(String),
    /// The key may not be used from this address; holds the address as text.
    IpNotAllowed(String),
    /// A value could not be packed.
    MsgPackEncode(String),
    /// The method is one the proxy never forwards.
    MethodBlocked,
    /// A backend reported a block without number or hash.
    NoBlockNumberOrHash,
    /// No backend has reported a block yet.
    NoBlocksKnown,
    /// The backends do not agree on a head.
    NoConsensusHeadBlock,
    /// The call needs a database and none is configured.
    NoDatabase,
    /// No backend gave out a request handle within the retries.
    NoHandleReady,
    /// No backend is synced.
    NoServersSynced,
    /// Fewer backends are connected than a head needs.
    NotEnoughRpcs { num_known: usize, min_head_rpcs: usize },
    /// The connected backends tolerate less load than a head needs.
    NotEnoughSoftLimit { available: u32, needed: u32 },
    /// There is nothing at this path.
    NotFound,
    /// The method is known and not served yet; holds its name.
    NotImplemented(String),
    /// The call needs the volatile store and none is configured.
    NoVolatileRedisDatabase,
    /// The key asks for an origin header.
    OriginRequired,
    /// The key may not be used from this origin.
    OriginNotAllowed(String),
    /// Hexadecimal data could not be read.
    ParseBytesError(Option<String>),
    /// A signed message could not be read.
    ParseMsgError(String),
    /// An account address could not be read.
    ParseAddressError,
    /// The tier asked for has to be paid first.
    PaymentRequired,
    /// The store failed; its text is kept from the client.
    Redis(String),
    /// No connection to the store could be had.
    RedisDeadpool(String),
    /// The key asks for a referer header.
    RefererRequired,
    /// The key may not be used from this referer.
    RefererNotAllowed(String),
    /// A semaphore was closed while it was waited for.
    SemaphoreAcquireError,
    /// A statistic could not be handed on.
    SendAppStatError,
    /// JSON could not be read or written.
    SerdeJson(String),
    /// A signed message does not verify.
    SiweVerification(String),
    /// A ULID could not be read.
    UlidDecode(String),
    /// A block number beyond what the backends know.
    UnknownBlockNumber { known: u64, unknown: u64 },
    /// The key is not known.
    UnknownKey,
    /// The key asks for a user agent header.
    UserAgentRequired,
    /// The key may not be used by this user agent.
    UserAgentNotAllowed(String),
    /// A user has the id zero.
    UserIdZero,
    /// A watched value lost its sender.
    WatchRecvError,
    /// A watched value lost its receivers.
    WatchSendError,
    /// The path serves WebSockets only.
    WebsocketOnly,
}

/// The error code for a failure of the proxy itself or of its backends.
pub const INTERNAL_ERROR: i64 = -32603;

/// The error code for a block that is not known.
pub const UNKNOWN_BLOCK: i64 = -32000;

/// The error code for a method that the proxy does not forward.
pub const METHOD_NOT_FOUND: i64 = -32601;

/// The error code for a request that is malformed.
pub const INVALID_PARAMS: i64 = -32602;

/// The error code for a caller that is over its quota.
pub const RATE_LIMITED: i64 = -32005;

/// How a timer's error reads inside the time-out message: the way an
/// optional value is shown for debugging.
pub open spec fn elapsed_text(elapsed: Option<String>) -> Seq<char> {
    match elapsed {
        Some(e) => "Some("@ + e@ + ")"@,
        None => "None"@,
    }
}

/// What a rate-limited caller is told: who it is, by key where it has one
/// and by address where not, and when to come back where that is known.
pub open spec fn rate_limit_text(limit: RateLimit) -> Seq<char> {
    (match limit.rpc_secret_key_id {
        Some(key) => "too many requests from rpc key #"@ + decimal(key as nat),
        None => "too many requests from "@ + limit.ip@,
    }) + "."@ + (match limit.retry_in_secs {
        Some(secs) => " Retry in "@ + decimal(secs as nat) + " seconds"@,
        None => Seq::empty(),
    })
}

impl Web3ProxyError {
    /// The HTTP status that goes with this error.
    pub open spec fn http_status(&self) -> u16
        decreases self,
    {
        match self {
            Web3ProxyError::Arc(err) => err.http_status(),
            Web3ProxyError::WithContext(Some(err), _) => err.http_status(),
            Web3ProxyError::WithContext(None, _) => 500,
            Web3ProxyError::EthersHttpClient(failure)
            | Web3ProxyError::EthersProvider(failure)
            | Web3ProxyError::EthersWsClient(failure) => match failure {
                ProviderFailure::JsonRpc(_) => 200,
                ProviderFailure::Other(_) => 500,
            },
            Web3ProxyError::JoinError { cancelled } => if *cancelled {
                502
            } else {
                500
            },
            Web3ProxyError::JsonRpcErrorData(_) => 200,
            Web3ProxyError::RateLimited(_) => 429,
            Web3ProxyError::StatusCode(status, _, _) => *status,
            Web3ProxyError::Timeout(_) => 408,
            Web3ProxyError::UnknownBlockHash(_) => 200,
            Web3ProxyError::MethodBlocked
            | Web3ProxyError::UnknownBlockNumber { .. } => 200,
            Web3ProxyError::BadRequest(_)
            | Web3ProxyError::Decimal(_)
            | Web3ProxyError::Headers(_)
            | Web3ProxyError::HeaderToString(_)
            | Web3ProxyError::HttpUri(_)
            | Web3ProxyError::InvalidBlockBounds { .. }
            | Web3ProxyError::InvalidHeaderValue(_)
            | Web3ProxyError::InvalidEip
            | Web3ProxyError::InvalidReferer
            | Web3ProxyError::InvalidSignatureLength
            | Web3ProxyError::InvalidUserKey
            | Web3ProxyError::IpAddrParse(_)
            | Web3ProxyError::OriginRequired
            | Web3ProxyError::ParseBytesError(_)
            | Web3ProxyError::ParseMsgError(_)
            | Web3ProxyError::ParseAddressError
            | Web3ProxyError::RefererRequired
            | Web3ProxyError::SerdeJson(_)
            | Web3ProxyError::UlidDecode(_)
            | Web3ProxyError::UserIdZero
            | Web3ProxyError::WebsocketOnly => 400,
            Web3ProxyError::InvalidInviteCode
            | Web3ProxyError::UnknownReferralCode
            | Web3ProxyError::SiweVerification(_)
            | Web3ProxyError::UnknownKey
            | Web3ProxyError::UserAgentRequired => 401,
            Web3ProxyError::PaymentRequired => 402,
            Web3ProxyError::AccessDenied(_)
            | Web3ProxyError::InvalidUserAgent
            | Web3ProxyError::IpNotAllowed(_)
            | Web3ProxyError::OriginNotAllowed(_)
            | Web3ProxyError::RefererNotAllowed(_)
            | Web3ProxyError::UserAgentNotAllowed(_) => 403,
            Web3ProxyError::NotFound => 404,
            Web3ProxyError::Abi(_)
            | Web3ProxyError::Anyhow(_)
            | Web3ProxyError::BadResponse(_)
            | Web3ProxyError::BadRouting
            | Web3ProxyError::Contract(_)
            | Web3ProxyError::Database(_)
            | Web3ProxyError::FlumeRecv
            | Web3ProxyError::GasEstimateNotU256
            | Web3ProxyError::HdrRecord(_)
            | Web3ProxyError::Hyper(_)
            | Web3ProxyError::InfluxDb2Request(_)
            | Web3ProxyError::Io(_)
            | Web3ProxyError::InvalidUserTier
            | Web3ProxyError::MsgPackEncode(_)
            | Web3ProxyError::NoBlockNumberOrHash
            | Web3ProxyError::NoDatabase
            | Web3ProxyError::NoVolatileRedisDatabase
            | Web3ProxyError::Redis(_)
            | Web3ProxyError::RedisDeadpool(_)
            | Web3ProxyError::SemaphoreAcquireError
            | Web3ProxyError::SendAppStatError
            | Web3ProxyError::WatchRecvError
            | Web3ProxyError::WatchSendError => 500,
            Web3ProxyError::NotImplemented(_) => 501,
            Web3ProxyError::NoBlocksKnown
            | Web3ProxyError::NoConsensusHeadBlock
            | Web3ProxyError::NoHandleReady
            | Web3ProxyError::NoServersSynced
            | Web3ProxyError::NotEnoughRpcs { .. }
            | Web3ProxyError::NotEnoughSoftLimit { .. } => 502,
        }
    }

    /// The JSON-RPC error code that goes with this error.
    ///
    /// An error of a backend keeps the code the backend gave it. An unknown
    /// block, a blocked method, a malformed request and a caller over its
    /// quota have codes of their own. A failure of the proxy or of its
    /// backends (status 500 or 502) is an internal error. Every other error
    /// has its HTTP status as its code.
    pub open spec fn rpc_code(&self) -> int
        decreases self,
    {
        match self {
            Web3ProxyError::Arc(err) => err.rpc_code(),
            Web3ProxyError::WithContext(Some(err), _) => err.rpc_code(),
            Web3ProxyError::EthersHttpClient(ProviderFailure::JsonRpc(data))
            | Web3ProxyError::EthersProvider(ProviderFailure::JsonRpc(data))
            | Web3ProxyError::EthersWsClient(ProviderFailure::JsonRpc(data))
            | Web3ProxyError::JsonRpcErrorData(data) => data.code as int,
            Web3ProxyError::UnknownBlockHash(_) | Web3ProxyError::UnknownBlockNumber { .. } => UNKNOWN_BLOCK as int,
            Web3ProxyError::MethodBlocked => METHOD_NOT_FOUND as int,
            Web3ProxyError::BadRequest(_) => INVALID_PARAMS as int,
            Web3ProxyError::RateLimited(_) => RATE_LIMITED as int,
            Web3ProxyError::StatusCode(status, _, _) => *status as int,
            _ => if self.http_status() == 500 || self.http_status() == 502 {
                INTERNAL_ERROR as int
            } else {
                self.http_status() as int
            },
        }
    }

    /// The message that goes with this error.
    pub open spec fn rpc_message(&self) -> Seq<char>
        decreases self,
    {
        match self {
            Web3ProxyError::Arc(err) => err.rpc_message(),
            Web3ProxyError::WithContext(Some(err), _) => err.rpc_message(),
            Web3ProxyError::WithContext(None, msg) => msg@,
            Web3ProxyError::EthersHttpClient(ProviderFailure::JsonRpc(data))
            | Web3ProxyError::EthersProvider(ProviderFailure::JsonRpc(data))
            | Web3ProxyError::EthersWsClient(ProviderFailure::JsonRpc(data))
            | Web3ProxyError::JsonRpcErrorData(data) => data.message@,
            Web3ProxyError::EthersHttpClient(ProviderFailure::Other(_)) => "ethers http client error"@,
            Web3ProxyError::EthersProvider(ProviderFailure::Other(_)) => "ethers provider error"@,
            Web3ProxyError::EthersWsClient(ProviderFailure::Other(_)) => "ethers ws client error"@,
            Web3ProxyError::JoinError { .. } => "Unable to complete request"@,
            Web3ProxyError::RateLimited(limit) => rate_limit_text(*limit),
            Web3ProxyError::StatusCode(_, msg, _) => msg@,
            Web3ProxyError::Timeout(elapsed) => "request timed out: "@ + elapsed_text(*elapsed),
            Web3ProxyError::UnknownBlockHash(hash) => "block "@ + short_hash(hash@) + " not found"@,
            Web3ProxyError::Abi(err) => err@,
            Web3ProxyError::AccessDenied(msg) => "FORBIDDEN: "@ + msg@,
            Web3ProxyError::Anyhow(_) => "INTERNAL SERVER ERROR"@,
            Web3ProxyError::BadRequest(err) => "bad request: "@ + err@,
            Web3ProxyError::BadResponse(err) => "bad response: "@ + err@,
            Web3ProxyError::BadRouting => "bad routing"@,
            Web3ProxyError::Contract(err) => "contract error: "@ + err@,
            Web3ProxyError::Database(_) => "database error!"@,
            Web3ProxyError::Decimal(err) => "decimal error: "@ + err@,
            Web3ProxyError::FlumeRecv => "flume recv error!"@,
            Web3ProxyError::GasEstimateNotU256 => "gas estimate result is not an U256"@,
            Web3ProxyError::HdrRecord(err) => err@,
            Web3ProxyError::Headers(err) => err@,
            Web3ProxyError::HeaderToString(err) => err@,
            Web3ProxyError::HttpUri(err) => err@,
            Web3ProxyError::Hyper(err) => err@,
            Web3ProxyError::InfluxDb2Request(_) => "influxdb2 error!"@,
            Web3ProxyError::InvalidBlockBounds { min, max } => "Invalid blocks bounds requested. min ("@
                + decimal(*min as nat)
                + ") > max ("@
                + decimal(*max as nat)
                + ")"@,
            Web3ProxyError::InvalidHeaderValue(err) => err@,
            Web3ProxyError::InvalidEip => "invalid message eip given"@,
            Web3ProxyError::InvalidInviteCode => "invalid invite code"@,
            Web3ProxyError::Io(err) => err@,
            Web3ProxyError::UnknownReferralCode => "invalid referral code"@,
            Web3ProxyError::InvalidReferer => "invalid referer!"@,
            Web3ProxyError::InvalidSignatureLength => "invalid signature length"@,
            Web3ProxyError::InvalidUserTier => "UserTier is not valid!"@,
            Web3ProxyError::InvalidUserAgent => "invalid user agent!"@,
            Web3ProxyError::InvalidUserKey => "UserKey was not a ULID or UUID"@,
            Web3ProxyError::IpAddrParse(err) => err@,
            Web3ProxyError::IpNotAllowed(ip) => "IP ("@ + ip@ + ") is not allowed!"@,
            Web3ProxyError::MsgPackEncode(err) => "msgpack encode error: "@ + err@,
            Web3ProxyError::MethodBlocked => "unsupported"@,
            Web3ProxyError::NoBlockNumberOrHash => "Blocks here must have a number or hash"@,
            Web3ProxyError::NoBlocksKnown => "no blocks known"@,
            Web3ProxyError::NoConsensusHeadBlock => "no consensus head block"@,
            Web3ProxyError::NoDatabase => "no database configured!"@,
            Web3ProxyError::NoHandleReady => "unable to retry for request handle"@,
            Web3ProxyError::NoServersSynced => "no servers synced"@,
            Web3ProxyError::NotEnoughRpcs { num_known, min_head_rpcs } => "not enough rpcs connected "@
                + decimal(*num_known as nat)
                + "/"@
                + decimal(*min_head_rpcs as nat),
            Web3ProxyError::NotEnoughSoftLimit { available, needed } => "not enough soft limit available "@
                + decimal(*available as nat)
                + "/"@
                + decimal(*needed as nat),
            Web3ProxyError::NotFound => "not found!"@,
            Web3ProxyError::NotImplemented(msg) => msg@
                + " is not yet implemented. contact us if you need this"@,
            Web3ProxyError::NoVolatileRedisDatabase => "no volatile redis database configured!"@,
            Web3ProxyError::OriginRequired => "Origin required"@,
            Web3ProxyError::OriginNotAllowed(origin) => "Origin ("@
                + origin@
                + ") is not allowed!"@,
            Web3ProxyError::ParseBytesError(_) => "parse bytes error!"@,
            Web3ProxyError::ParseMsgError(_) => "parse message error!"@,
            Web3ProxyError::ParseAddressError => "unable to parse address"@,
            Web3ProxyError::PaymentRequired => "Payment is required to activate premium"@,
            Web3ProxyError::Redis(_) => "redis error!"@,
            Web3ProxyError::RedisDeadpool(err) => err@,
            Web3ProxyError::RefererRequired => "Referer required"@,
            Web3ProxyError::RefererNotAllowed(referer) => "Referer ("@
                + referer@
                + ") is not allowed"@,
            Web3ProxyError::SemaphoreAcquireError => "semaphore acquire error"@,
            Web3ProxyError::SendAppStatError => "error stat_sender sending response_stat"@,
            Web3ProxyError::SerdeJson(err) => "de/serialization error! "@ + err@,
            Web3ProxyError::SiweVerification(err) => "siwe verification error: "@ + err@,
            Web3ProxyError::UlidDecode(err) => err@,
            Web3ProxyError::UnknownBlockNumber { known, unknown } => "block #"@
                + decimal(*unknown as nat)
                + " not found. best known is #"@
                + decimal(*known as nat),
            Web3ProxyError::UnknownKey => "unknown api key!"@,
            Web3ProxyError::UserAgentRequired => "User agent required"@,
            Web3ProxyError::UserAgentNotAllowed(ua) => "User agent ("@
                + ua@
                + ") is not allowed!"@,
            Web3ProxyError::UserIdZero => "user ids should always be non-zero"@,
            Web3ProxyError::WatchRecvError => "watch recv error!"@,
            Web3ProxyError::WatchSendError => "watch send error!"@,
            Web3ProxyError::WebsocketOnly => "only websockets work here"@,
        }
    }

    /// The data that goes with this error: what a backend attached to its
    /// own error, and for a rate-limited caller the seconds to wait, where
    /// they are known.
    pub open spec fn rpc_data(&self) -> Option<JsonModel>
        decreases self,
    {
        match self {
            Web3ProxyError::Arc(err) => err.rpc_data(),
            Web3ProxyError::WithContext(Some(err), _) => err.rpc_data(),
            Web3ProxyError::EthersHttpClient(ProviderFailure::JsonRpc(data))
            | Web3ProxyError::EthersProvider(ProviderFailure::JsonRpc(data))
            | Web3ProxyError::EthersWsClient(ProviderFailure::JsonRpc(data))
            | Web3ProxyError::JsonRpcErrorData(data) => data@.data,
            Web3ProxyError::RateLimited(limit) => match limit.retry_in_secs {
                Some(secs) => Some(JsonModel::Number(decimal(secs as nat))),
                None => None,
            },
            _ => None,
        }
    }

    /// The `error` member that goes with this error.
    pub open spec fn rpc_error(&self) -> JsonRpcErrorModel {
        JsonRpcErrorModel { message: self.rpc_message(), code: self.rpc_code(), data: self.rpc_data() }
    }

    /// The HTTP status that goes with this error.
    pub fn status_code(&self) -> (status: u16)
        ensures
            status == self.http_status(),
        decreases self,
    {
        match self {
            Web3ProxyError::Arc(err) => err.status_code(),
            Web3ProxyError::WithContext(Some(err), _) => err.status_code(),
            Web3ProxyError::WithContext(None, _) => 500,
            Web3ProxyError::EthersHttpClient(failure)
            | Web3ProxyError::EthersProvider(failure)
            | Web3ProxyError::EthersWsClient(failure) => match failure {
                ProviderFailure::JsonRpc(_) => 200,
                ProviderFailure::Other(_) => 500,
            },
            Web3ProxyError::JoinError { cancelled } => if *cancelled {
                502
            } else {
                500
            },
            Web3ProxyError::JsonRpcErrorData(_) => 200,
            Web3ProxyError::RateLimited(_) => 429,
            Web3ProxyError::StatusCode(status, _, _) => *status,
            Web3ProxyError::Timeout(_) => 408,
            Web3ProxyError::UnknownBlockHash(_) => 200,
            Web3ProxyError::MethodBlocked
            | Web3ProxyError::UnknownBlockNumber { .. } => 200,
            Web3ProxyError::BadRequest(_)
            | Web3ProxyError::Decimal(_)
            | Web3ProxyError::Headers(_)
            | Web3ProxyError::HeaderToString(_)
            | Web3ProxyError::HttpUri(_)
            | Web3ProxyError::InvalidBlockBounds { .. }
            | Web3ProxyError::InvalidHeaderValue(_)
            | Web3ProxyError::InvalidEip
            | Web3ProxyError::InvalidReferer
            | Web3ProxyError::InvalidSignatureLength
            | Web3ProxyError::InvalidUserKey
            | Web3ProxyError::IpAddrParse(_)
            | Web3ProxyError::OriginRequired
            | Web3ProxyError::ParseBytesError(_)
            | Web3ProxyError::ParseMsgError(_)
            | Web3ProxyError::ParseAddressError
            | Web3ProxyError::RefererRequired
            | Web3ProxyError::SerdeJson(_)
            | Web3ProxyError::UlidDecode(_)
            | Web3ProxyError::UserIdZero
            | Web3ProxyError::WebsocketOnly => 400,
            Web3ProxyError::InvalidInviteCode
            | Web3ProxyError::UnknownReferralCode
            | Web3ProxyError::SiweVerification(_)
            | Web3ProxyError::UnknownKey
            | Web3ProxyError::UserAgentRequired => 401,
            Web3ProxyError::PaymentRequired => 402,
            Web3ProxyError::AccessDenied(_)
            | Web3ProxyError::InvalidUserAgent
            | Web3ProxyError::IpNotAllowed(_)
            | Web3ProxyError::OriginNotAllowed(_)
            | Web3ProxyError::RefererNotAllowed(_)
            | Web3ProxyError::UserAgentNotAllowed(_) => 403,
            Web3ProxyError::NotFound => 404,
            Web3ProxyError::Abi(_)
            | Web3ProxyError::Anyhow(_)
            | Web3ProxyError::BadResponse(_)
            | Web3ProxyError::BadRouting
            | Web3ProxyError::Contract(_)
            | Web3ProxyError::Database(_)
            | Web3ProxyError::FlumeRecv
            | Web3ProxyError::GasEstimateNotU256
            | Web3ProxyError::HdrRecord(_)
            | Web3ProxyError::Hyper(_)
            | Web3ProxyError::InfluxDb2Request(_)
            | Web3ProxyError::Io(_)
            | Web3ProxyError::InvalidUserTier
            | Web3ProxyError::MsgPackEncode(_)
            | Web3ProxyError::NoBlockNumberOrHash
            | Web3ProxyError::NoDatabase
            | Web3ProxyError::NoVolatileRedisDatabase
            | Web3ProxyError::Redis(_)
            | Web3ProxyError::RedisDeadpool(_)
            | Web3ProxyError::SemaphoreAcquireError
            | Web3ProxyError::SendAppStatError
            | Web3ProxyError::WatchRecvError
            | Web3ProxyError::WatchSendError => 500,
            Web3ProxyError::NotImplemented(_) => 501,
            Web3ProxyError::NoBlocksKnown
            | Web3ProxyError::NoConsensusHeadBlock
            | Web3ProxyError::NoHandleReady
            | Web3ProxyError::NoServersSynced
            | Web3ProxyError::NotEnoughRpcs { .. }
            | Web3ProxyError::NotEnoughSoftLimit { .. } => 502,
        }
    }

    /// The JSON-RPC error code that goes with this error.
    pub fn code(&self) -> (code: i64)
        ensures
            code == self.rpc_code(),
        decreases self,
    {
        match self {
            Web3ProxyError::Arc(err) => err.code(),
            Web3ProxyError::WithContext(Some(err), _) => err.code(),
            Web3ProxyError::EthersHttpClient(ProviderFailure::JsonRpc(data))
            | Web3ProxyError::EthersProvider(ProviderFailure::JsonRpc(data))
            | Web3ProxyError::EthersWsClient(ProviderFailure::JsonRpc(data))
            | Web3ProxyError::JsonRpcErrorData(data) => data.code,
            Web3ProxyError::UnknownBlockHash(_) | Web3ProxyError::UnknownBlockNumber { .. } => UNKNOWN_BLOCK,
            Web3ProxyError::MethodBlocked => METHOD_NOT_FOUND,
            Web3ProxyError::BadRequest(_) => INVALID_PARAMS,
            Web3ProxyError::RateLimited(_) => RATE_LIMITED,
            Web3ProxyError::StatusCode(status, _, _) => *status as i64,
            _ => {
                let status = self.status_code();
                if status == 500 || status == 502 {
                    INTERNAL_ERROR
                } else {
                    status as i64
                }
            },
        }
    }

    /// The message that goes with this error.
    pub fn message(&self) -> (message: String)
        ensures
            message@ == self.rpc_message(),
        decreases self,
    {
        match self {
            Web3ProxyError::Arc(err) => err.message(),
            Web3ProxyError::WithContext(Some(err), _) => err.message(),
            Web3ProxyError::WithContext(None, msg) => msg.clone(),
            Web3ProxyError::EthersHttpClient(ProviderFailure::JsonRpc(data))
            | Web3ProxyError::EthersProvider(ProviderFailure::JsonRpc(data))
            | Web3ProxyError::EthersWsClient(ProviderFailure::JsonRpc(data))
            | Web3ProxyError::JsonRpcErrorData(data) => data.message.clone(),
            Web3ProxyError::EthersHttpClient(ProviderFailure::Other(_)) => String::from_str("ethers http client error"),
            Web3ProxyError::EthersProvider(ProviderFailure::Other(_)) => String::from_str("ethers provider error"),
            Web3ProxyError::EthersWsClient(ProviderFailure::Other(_)) => String::from_str("ethers ws client error"),
            Web3ProxyError::JoinError { .. } => String::from_str("Unable to complete request"),
            Web3ProxyError::RateLimited(limit) => {
                let mut m = match limit.rpc_secret_key_id {
                    Some(key) => {
                        let mut who = String::from_str("too many requests from rpc key #");
                        append_decimal(&mut who, key as u128);
                        who
                    },
                    None => {
                        let mut who = String::from_str("too many requests from ");
                        append_str(&mut who, limit.ip.as_str());
                        who
                    },
                };
                append_str(&mut m, ".");
                match limit.retry_in_secs {
                    Some(secs) => {
                        let ghost before = m@;
                        append_str(&mut m, " Retry in ");
                        append_decimal(&mut m, secs as u128);
                        append_str(&mut m, " seconds");
                        assert(m@ =~= before + (" Retry in "@ + decimal(secs as nat) + " seconds"@));
                    },
                    None => {
                        assert(m@ =~= m@ + Seq::<char>::empty());
                    },
                }
                m
            },
            Web3ProxyError::StatusCode(_, msg, _) => msg.clone(),
            Web3ProxyError::Timeout(elapsed) => {
                let mut m = String::from_str("request timed out: ");
                let ghost before = m@;
                match elapsed {
                    Some(e) => {
                        append_str(&mut m, "Some(");
                        append_str(&mut m, e.as_str());
                        append_str(&mut m, ")");
                        assert(m@ =~= before + ("Some("@ + e@ + ")"@));
                    },
                    None => {
                        append_str(&mut m, "None");
                    },
                }
                m
            },
            Web3ProxyError::UnknownBlockHash(hash) => {
                let mut m = String::from_str("block ");
                let short = hash.to_short_text();
                append_str(&mut m, short.as_str());
                append_str(&mut m, " not found");
                m
            },
            Web3ProxyError::Abi(err) => err.clone(),
            Web3ProxyError::AccessDenied(msg) => {
                let mut m = String::from_str("FORBIDDEN: ");
                append_str(&mut m, msg.as_str());
                m
            },
            Web3ProxyError::Anyhow(_) => String::from_str("INTERNAL SERVER ERROR"),
            Web3ProxyError::BadRequest(err) => {
                let mut m = String::from_str("bad request: ");
                append_str(&mut m, err.as_str());
                m
            },
            Web3ProxyError::BadResponse(err) => {
                let mut m = String::from_str("bad response: ");
                append_str(&mut m, err.as_str());
                m
            },
            Web3ProxyError::BadRouting => String::from_str("bad routing"),
            Web3ProxyError::Contract(err) => {
                let mut m = String::from_str("contract error: ");
                append_str(&mut m, err.as_str());
                m
            },
            Web3ProxyError::Database(_) => String::from_str("database error!"),
            Web3ProxyError::Decimal(err) => {
                let mut m = String::from_str("decimal error: ");
                append_str(&mut m, err.as_str());
                m
            },
            Web3ProxyError::FlumeRecv => String::from_str("flume recv error!"),
            Web3ProxyError::GasEstimateNotU256 => {
                String::from_str("gas estimate result is not an U256")
            },
            Web3ProxyError::HdrRecord(err) => err.clone(),
            Web3ProxyError::Headers(err) => err.clone(),
            Web3ProxyError::HeaderToString(err) => err.clone(),
            Web3ProxyError::HttpUri(err) => err.clone(),
            Web3ProxyError::Hyper(err) => err.clone(),
            Web3ProxyError::InfluxDb2Request(_) => String::from_str("influxdb2 error!"),
            Web3ProxyError::InvalidBlockBounds { min, max } => {
                let mut m = String::from_str("Invalid blocks bounds requested. min (");
                append_decimal(&mut m, *min as u128);
                append_str(&mut m, ") > max (");
                append_decimal(&mut m, *max as u128);
                append_str(&mut m, ")");
                m
            },
            Web3ProxyError::InvalidHeaderValue(err) => err.clone(),
            Web3ProxyError::InvalidEip => String::from_str("invalid message eip given"),
            Web3ProxyError::InvalidInviteCode => String::from_str("invalid invite code"),
            Web3ProxyError::Io(err) => err.clone(),
            Web3ProxyError::UnknownReferralCode => String::from_str("invalid referral code"),
            Web3ProxyError::InvalidReferer => String::from_str("invalid referer!"),
            Web3ProxyError::InvalidSignatureLength => String::from_str("invalid signature length"),
            Web3ProxyError::InvalidUserTier => String::from_str("UserTier is not valid!"),
            Web3ProxyError::InvalidUserAgent => String::from_str("invalid user agent!"),
            Web3ProxyError::InvalidUserKey => String::from_str("UserKey was not a ULID or UUID"),
            Web3ProxyError::IpAddrParse(err) => err.clone(),
            Web3ProxyError::IpNotAllowed(ip) => {
                let mut m = String::from_str("IP (");
                append_str(&mut m, ip.as_str());
                append_str(&mut m, ") is not allowed!");
                m
            },
            Web3ProxyError::MsgPackEncode(err) => {
                let mut m = String::from_str("msgpack encode error: ");
                append_str(&mut m, err.as_str());
                m
            },
            Web3ProxyError::MethodBlocked => String::from_str("unsupported"),
            Web3ProxyError::NoBlockNumberOrHash => {
                String::from_str("Blocks here must have a number or hash")
            },
            Web3ProxyError::NoBlocksKnown => String::from_str("no blocks known"),
            Web3ProxyError::NoConsensusHeadBlock => String::from_str("no consensus head block"),
            Web3ProxyError::NoDatabase => String::from_str("no database configured!"),
            Web3ProxyError::NoHandleReady => {
                String::from_str("unable to retry for request handle")
            },
            Web3ProxyError::NoServersSynced => String::from_str("no servers synced"),
            Web3ProxyError::NotEnoughRpcs { num_known, min_head_rpcs } => {
                let mut m = String::from_str("not enough rpcs connected ");
                append_decimal(&mut m, *num_known as u128);
                append_str(&mut m, "/");
                append_decimal(&mut m, *min_head_rpcs as u128);
                m
            },
            Web3ProxyError::NotEnoughSoftLimit { available, needed } => {
                let mut m = String::from_str("not enough soft limit available ");
                append_decimal(&mut m, *available as u128);
                append_str(&mut m, "/");
                append_decimal(&mut m, *needed as u128);
                m
            },
            Web3ProxyError::NotFound => String::from_str("not found!"),
            Web3ProxyError::NotImplemented(msg) => {
                let mut m = msg.clone();
                append_str(&mut m, " is not yet implemented. contact us if you need this");
                m
            },
            Web3ProxyError::NoVolatileRedisDatabase => {
                String::from_str("no volatile redis database configured!")
            },
            Web3ProxyError::OriginRequired => String::from_str("Origin required"),
            Web3ProxyError::OriginNotAllowed(origin) => {
                let mut m = String::from_str("Origin (");
                append_str(&mut m, origin.as_str());
                append_str(&mut m, ") is not allowed!");
                m
            },
            Web3ProxyError::ParseBytesError(_) => String::from_str("parse bytes error!"),
            Web3ProxyError::ParseMsgError(_) => String::from_str("parse message error!"),
            Web3ProxyError::ParseAddressError => String::from_str("unable to parse address"),
            Web3ProxyError::PaymentRequired => {
                String::from_str("Payment is required to activate premium")
            },
            Web3ProxyError::Redis(_) => String::from_str("redis error!"),
            Web3ProxyError::RedisDeadpool(err) => err.clone(),
            Web3ProxyError::RefererRequired => String::from_str("Referer required"),
            Web3ProxyError::RefererNotAllowed(referer) => {
                let mut m = String::from_str("Referer (");
                append_str(&mut m, referer.as_str());
                append_str(&mut m, ") is not allowed");
                m
            },
            Web3ProxyError::SemaphoreAcquireError => String::from_str("semaphore acquire error"),
            Web3ProxyError::SendAppStatError => {
                String::from_str("error stat_sender sending response_stat")
            },
            Web3ProxyError::SerdeJson(err) => {
                let mut m = String::from_str("de/serialization error! ");
                append_str(&mut m, err.as_str());
                m
            },
            Web3ProxyError::SiweVerification(err) => {
                let mut m = String::from_str("siwe verification error: ");
                append_str(&mut m, err.as_str());
                m
            },
            Web3ProxyError::UlidDecode(err) => err.clone(),
            Web3ProxyError::UnknownBlockNumber { known, unknown } => {
                let mut m = String::from_str("block #");
                append_decimal(&mut m, *unknown as u128);
                append_str(&mut m, " not found. best known is #");
                append_decimal(&mut m, *known as u128);
                m
            },
            Web3ProxyError::UnknownKey => String::from_str("unknown api key!"),
            Web3ProxyError::UserAgentRequired => String::from_str("User agent required"),
            Web3ProxyError::UserAgentNotAllowed(ua) => {
                let mut m = String::from_str("User agent (");
                append_str(&mut m, ua.as_str());
                append_str(&mut m, ") is not allowed!");
                m
            },
            Web3ProxyError::UserIdZero => String::from_str("user ids should always be non-zero"),
            Web3ProxyError::WatchRecvError => String::from_str("watch recv error!"),
            Web3ProxyError::WatchSendError => String::from_str("watch send error!"),
            Web3ProxyError::WebsocketOnly => String::from_str("only websockets work here"),
        }
    }

    /// The data that goes with this error.
    pub fn data(&self) -> (data: Option<JsonValue>)
        ensures
            self.rpc_data() == (match data {
                Some(d) => Some(d@),
                None => None,
            }),
        decreases self,
    {
        match self {
            Web3ProxyError::Arc(err) => err.data(),
            Web3ProxyError::WithContext(Some(err), _) => err.data(),
            Web3ProxyError::EthersHttpClient(ProviderFailure::JsonRpc(data))
            | Web3ProxyError::EthersProvider(ProviderFailure::JsonRpc(data))
            | Web3ProxyError::EthersWsClient(ProviderFailure::JsonRpc(data))
            | Web3ProxyError::JsonRpcErrorData(data) => match &data.data {
                Some(d) => Some(d.duplicate()),
                None => None,
            },
            Web3ProxyError::RateLimited(limit) => match limit.retry_in_secs {
                Some(secs) => Some(JsonValue::Number(u64_to_decimal(secs))),
                None => None,
            },
            _ => None,
        }
    }

    /// The HTTP status and the `error` member that a client gets for this
    /// error.
    pub fn as_response_parts(&self) -> (parts: (u16, JsonRpcErrorData))
        ensures
            parts.0 == self.http_status(),
            parts.1@ == self.rpc_error(),
    {
        (
            self.status_code(),
            JsonRpcErrorData { message: self.message(), code: self.code(), data: self.data() },
        )
    }

    /// The HTTP status and the JSON-RPC response that a client gets for this
    /// error. A call without an id is answered with the id `null`.
    pub fn into_response_with_id(self, id: Option<JsonValue>) -> (response: (
        u16,
        JsonRpcForwardedResponse,
    ))
        ensures
            response.0 == self.http_status(),
            response.1@ == (JsonRpcResponseModel {
                id: match id {
                    Some(i) => i@,
                    None => JsonModel::Null,
                },
                result: None,
                error: Some(self.rpc_error()),
            }),
    {
        let (status, error) = self.as_response_parts();
        let id = match id {
            Some(i) => i,
            None => JsonValue::Null,
        };
        (status, JsonRpcForwardedResponse::from_response_data(error, id))
    }

    /// The HTTP status and the JSON-RPC response that a client gets for this
    /// error when the call it answers is not known.
    pub fn into_response(self) -> (response: (u16, JsonRpcForwardedResponse))
        ensures
            response.0 == self.http_status(),
            response.1@ == (JsonRpcResponseModel {
                id: JsonModel::Null,
                result: None,
                error: Some(self.rpc_error()),
            }),
    {
        self.into_response_with_id(None)
    }

    /// The text of the WebSocket message that a client gets for this error:
    /// the JSON-RPC response as compact JSON.
    pub fn into_message(self, id: Option<JsonValue>) -> (text: String)
        ensures
            text@ == response_text(
                JsonRpcResponseModel {
                    id: match id {
                        Some(i) => i@,
                        None => JsonModel::Null,
                    },
                    result: None,
                    error: Some(self.rpc_error()),
                },
            ),
    {
        let (_, response) = self.into_response_with_id(id);
        response.to_text()
    }
}

/// Says what was being done when a value was missing or an error came.
pub trait Web3ProxyErrorContext<T> {
    /// Whether `outcome` is what `web3_context` makes of `self` and `msg`.
    spec fn context_added(self, msg: Seq<char>, outcome: Web3ProxyResult<T>) -> bool;

    fn web3_context(self, msg: &str) -> (outcome: Web3ProxyResult<T>)
        ensures
            self.context_added(msg@, outcome),
    ;
}

impl<T> Web3ProxyErrorContext<T> for Option<T> {
    /// A value stays as it is; a missing value becomes an error that holds
    /// the message alone.
    open spec fn context_added(self, msg: Seq<char>, outcome: Web3ProxyResult<T>) -> bool {
        match self {
            Some(value) => outcome == Ok::<T, Web3ProxyError>(value),
            None => outcome matches Err(Web3ProxyError::WithContext(None, m)) && m@ == msg,
        }
    }

    fn web3_context(self, msg: &str) -> (outcome: Web3ProxyResult<T>) {
        match self {
            Some(value) => Ok(value),
            None => Err(Web3ProxyError::WithContext(None, String::from_str(msg))),
        }
    }
}

impl<T> Web3ProxyErrorContext<T> for Result<T, Web3ProxyError> {
    /// A value stays as it is; an error is wrapped together with the
    /// message.
    open spec fn context_added(self, msg: Seq<char>, outcome: Web3ProxyResult<T>) -> bool {
        match self {
            Ok(value) => outcome == Ok::<T, Web3ProxyError>(value),
            Err(err) => outcome matches Err(Web3ProxyError::WithContext(Some(inner), m)) && *inner
                == err && m@ == msg,
        }
    }

    fn web3_context(self, msg: &str) -> (outcome: Web3ProxyResult<T>) {
        match self {
            Ok(value) => Ok(value),
            Err(err) => Err(Web3ProxyError::WithContext(Some(Box::new(err)), String::from_str(msg))),
        }
    }
}

/// An error wrapped with a message is reported as the error itself: the
/// client sees the same status, code, message and data.
pub proof fn lemma_context_keeps_response(err: Web3ProxyError, msg: String)
    ensures
        Web3ProxyError::WithContext(Some(Box::new(err)), msg).http_status() == err.http_status(),
        Web3ProxyError::WithContext(Some(Box::new(err)), msg).rpc_error() == err.rpc_error(),
{
}

} // verus!
