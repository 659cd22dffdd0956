//! Utlities for logging errors for admins and displaying errors to users.

use vstd::prelude::*;
use crate::errors::{INTERNAL_ERROR, RATE_LIMITED};
use crate::json::{JsonModel, JsonValue};
use crate::jsonrpc::{
    JsonRpcErrorData, JsonRpcErrorModel, JsonRpcForwardedResponse, JsonRpcResponseModel,
};
use crate::text::{append_str, decimal, u64_to_decimal};

verus! {

/// A response that is handed to the client as it is.
#[derive(Debug, PartialEq, Eq)]
pub struct RawResponse {
    pub status: u16,
    pub body: Vec<u8>,
}

/// What can go wrong at the entrance.
#[derive(Debug, PartialEq, Eq)]
pub enum FrontendErrorResponse {
    /// A failure without a kind of its own; holds its text.
    Anyhow(String),
    /// Some other failure; holds its text for the log.
    Box(String),
    /// The database failed; holds its text for the log.
    Database(String),
    /// A header could not be read.
    HeadersError(String),
    /// A header holds bytes that are no text.
    HeaderToString(String),
    /// A header value is not allowed.
    InvalidHeaderValue(String),
    /// An IP address could not be read.
    IpAddrParse(String),
    NotFound,
    /// A key is over its quota; holds the key's data as text and the
    /// seconds until it may try again, where they are known.
    RateLimitedUser(String, Option<u64>),
    /// An address is over its quota; holds the address as text and the
    /// seconds until it may try again, where they are known.
    RateLimitedIp(String, Option<u64>),
    /// The store failed; holds its text for the log.
    Redis(String),
    /// A response that is ready.
    Response(RawResponse),
    /// simple way to return an error message to the user and an anyhow to our logs
    StatusCode(u16, String, String),
    /// A ULID could not be read.
    UlidDecodeError(String),
    UnknownKey,
}

/// What the client gets for an error.
#[derive(Debug, PartialEq, Eq)]
pub enum FrontendReply {
    /// A status and a JSON-RPC response.
    Json(u16, JsonRpcForwardedResponse),
    /// A response that was ready.
    Raw(RawResponse),
}

/// The JSON-RPC error code that goes with an HTTP status: an internal
/// error for a failure of the proxy or of its backends, the code for rate
/// limiting for too many requests, and the status itself otherwise.
pub open spec fn code_for_status(status: u16) -> int {
    if status == 500 || status == 502 {
        INTERNAL_ERROR as int
    } else if status == 429 {
        RATE_LIMITED as int
    } else {
        status as int
    }
}

/// The JSON-RPC error code that goes with an HTTP status.
pub fn status_to_code(status: u16) -> (code: i64)
    ensures
        code == code_for_status(status),
{
    if status == 500 || status == 502 {
        INTERNAL_ERROR
    } else if status == 429 {
        RATE_LIMITED
    } else {
        status as i64
    }
}

impl FrontendErrorResponse {
    /// The HTTP status that goes with this error.
    pub open spec fn http_status(&self) -> u16 {
        match self {
            FrontendErrorResponse::Anyhow(_)
            | FrontendErrorResponse::Box(_)
            | FrontendErrorResponse::Database(_)
            | FrontendErrorResponse::Redis(_) => 500,
            FrontendErrorResponse::HeadersError(_)
            | FrontendErrorResponse::HeaderToString(_)
            | FrontendErrorResponse::InvalidHeaderValue(_)
            | FrontendErrorResponse::IpAddrParse(_)
            | FrontendErrorResponse::UlidDecodeError(_) => 400,
            FrontendErrorResponse::NotFound => 404,
            FrontendErrorResponse::RateLimitedUser(_, _)
            | FrontendErrorResponse::RateLimitedIp(_, _) => 429,
            FrontendErrorResponse::Response(response) => response.status,
            FrontendErrorResponse::StatusCode(status, _, _) => *status,
            FrontendErrorResponse::UnknownKey => 401,
        }
    }

    /// The message that goes with this error.
    pub open spec fn rpc_message(&self) -> Seq<char> {
        match self {
            FrontendErrorResponse::Anyhow(err) => err@,
            FrontendErrorResponse::Box(_) => "boxed error!"@,
            FrontendErrorResponse::Database(_) => "database error!"@,
            FrontendErrorResponse::HeadersError(err)
            | FrontendErrorResponse::HeaderToString(err)
            | FrontendErrorResponse::InvalidHeaderValue(err)
            | FrontendErrorResponse::IpAddrParse(err)
            | FrontendErrorResponse::UlidDecodeError(err) => err@,
            FrontendErrorResponse::NotFound => "not found!"@,
            FrontendErrorResponse::RateLimitedIp(ip, _) => "too many requests from ip "@ + ip@ + "!"@,
            FrontendErrorResponse::RateLimitedUser(user, _) => "too many requests from "@ + user@
                + "!"@,
            FrontendErrorResponse::Redis(_) => "redis error!"@,
            FrontendErrorResponse::Response(_) => Seq::empty(),
            FrontendErrorResponse::StatusCode(_, msg, _) => msg@,
            FrontendErrorResponse::UnknownKey => "unknown api key!"@,
        }
    }

    /// The data that goes with this error: for a caller over its quota,
    /// the seconds to wait, where they are known.
    pub open spec fn rpc_data(&self) -> Option<JsonModel> {
        match self {
            FrontendErrorResponse::RateLimitedIp(_, Some(secs))
            | FrontendErrorResponse::RateLimitedUser(_, Some(secs)) => Some(
                JsonModel::Number(decimal(*secs as nat)),
            ),
            _ => None,
        }
    }

    /// The message that goes with this error.
    pub fn message(&self) -> (message: String)
        ensures
            message@ == self.rpc_message(),
    {
        match self {
            FrontendErrorResponse::Anyhow(err) => err.clone(),
            FrontendErrorResponse::Box(_) => String::from_str("boxed error!"),
            FrontendErrorResponse::Database(_) => String::from_str("database error!"),
            FrontendErrorResponse::HeadersError(err)
            | FrontendErrorResponse::HeaderToString(err)
            | FrontendErrorResponse::InvalidHeaderValue(err)
            | FrontendErrorResponse::IpAddrParse(err)
            | FrontendErrorResponse::UlidDecodeError(err) => err.clone(),
            FrontendErrorResponse::NotFound => String::from_str("not found!"),
            FrontendErrorResponse::RateLimitedIp(ip, _) => {
                let mut m = String::from_str("too many requests from ip ");
                append_str(&mut m, ip.as_str());
                append_str(&mut m, "!");
                m
            },
            FrontendErrorResponse::RateLimitedUser(user, _) => {
                let mut m = String::from_str("too many requests from ");
                append_str(&mut m, user.as_str());
                append_str(&mut m, "!");
                m
            },
            FrontendErrorResponse::Redis(_) => String::from_str("redis error!"),
            FrontendErrorResponse::Response(_) => String::new(),
            FrontendErrorResponse::StatusCode(_, msg, _) => msg.clone(),
            FrontendErrorResponse::UnknownKey => String::from_str("unknown api key!"),
        }
    }

    /// The HTTP status that goes with this error.
    pub fn status_code(&self) -> (status: u16)
        ensures
            status == self.http_status(),
    {
        match self {
            FrontendErrorResponse::Anyhow(_)
            | FrontendErrorResponse::Box(_)
            | FrontendErrorResponse::Database(_)
            | FrontendErrorResponse::Redis(_) => 500,
            FrontendErrorResponse::HeadersError(_)
            | FrontendErrorResponse::HeaderToString(_)
            | FrontendErrorResponse::InvalidHeaderValue(_)
            | FrontendErrorResponse::IpAddrParse(_)
            | FrontendErrorResponse::UlidDecodeError(_) => 400,
            FrontendErrorResponse::NotFound => 404,
            FrontendErrorResponse::RateLimitedUser(_, _)
            | FrontendErrorResponse::RateLimitedIp(_, _) => 429,
            FrontendErrorResponse::Response(response) => response.status,
            FrontendErrorResponse::StatusCode(status, _, _) => *status,
            FrontendErrorResponse::UnknownKey => 401,
        }
    }

    /// What the client gets for this error: a response that was ready as
    /// it is, and otherwise the status of the error and a JSON-RPC response
    /// with the id `null` that holds the message of the error, the code
    /// that goes with the status and, where there are any, the data.
    pub fn into_response(self) -> (reply: FrontendReply)
        ensures
            match self {
                FrontendErrorResponse::Response(response) => reply == FrontendReply::Raw(response),
                _ => {
                    &&& reply matches FrontendReply::Json(status, response)
                    &&& status == self.http_status()
                    &&& response@ == (JsonRpcResponseModel {
                        id: JsonModel::Null,
                        result: None,
                        error: Some(
                            JsonRpcErrorModel {
                                message: self.rpc_message(),
                                code: code_for_status(self.http_status()),
                                data: self.rpc_data(),
                            },
                        ),
                    })
                },
            },
    {
        let status = self.status_code();
        let message = self.message();
        let data = match &self {
            FrontendErrorResponse::RateLimitedIp(_, Some(secs))
            | FrontendErrorResponse::RateLimitedUser(_, Some(secs)) => Some(
                JsonValue::Number(u64_to_decimal(*secs)),
            ),
            _ => None,
        };
        match self {
            FrontendErrorResponse::Response(response) => FrontendReply::Raw(response),
            _ => FrontendReply::Json(
                status,
                JsonRpcForwardedResponse::from_response_data(
                    JsonRpcErrorData { message, code: status_to_code(status), data },
                    JsonValue::Null,
                ),
            ),
        }
    }
}

/// What the client gets where there is nothing at the path it asked for.
pub fn handler_404() -> (reply: FrontendReply)
    ensures
        reply matches FrontendReply::Json(status, response) && status == 404 && response@
            == (JsonRpcResponseModel {
            id: JsonModel::Null,
            result: None,
            error: Some(JsonRpcErrorModel { message: "not found!"@, code: 404, data: None }),
        }),
{
    FrontendErrorResponse::NotFound.into_response()
}

} // verus!
