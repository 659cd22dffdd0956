//! The HTTP entrances of the proxy: who is let in, and what is counted.

use vstd::prelude::*;
use crate::frontend::errors::FrontendErrorResponse;
use crate::jsonrpc::{JsonRpcRequest, JsonRpcRequestEnum};

verus! {

/// What the rate limiter said of a caller.
#[derive(Debug, PartialEq, Eq)]
pub enum RateLimitResult {
    /// The address may call.
    AllowedIp(String),
    /// The key may call; holds the id of its user.
    AllowedUser(u64),
    /// The address is over its quota; holds the seconds to wait, where
    /// they are known.
    RateLimitedIp(String, Option<u64>),
    /// The key is over its quota; holds the key's data as text.
    RateLimitedUser(String, Option<u64>),
    /// The key is not known.
    UnknownKey,
}

impl RateLimitResult {
    /// The result where the caller may call, and the error that the caller
    /// is answered with where not.
    pub fn try_into_response(self) -> (outcome: Result<RateLimitResult, FrontendErrorResponse>)
        ensures
            outcome == (match self {
                RateLimitResult::AllowedIp(_) | RateLimitResult::AllowedUser(_) => Ok(self),
                RateLimitResult::RateLimitedIp(ip, retry) => Err(
                    FrontendErrorResponse::RateLimitedIp(ip, retry),
                ),
                RateLimitResult::RateLimitedUser(user, retry) => Err(
                    FrontendErrorResponse::RateLimitedUser(user, retry),
                ),
                RateLimitResult::UnknownKey => Err(FrontendErrorResponse::UnknownKey),
            }),
    {
        match self {
            RateLimitResult::AllowedIp(ip) => Ok(RateLimitResult::AllowedIp(ip)),
            RateLimitResult::AllowedUser(user) => Ok(RateLimitResult::AllowedUser(user)),
            RateLimitResult::RateLimitedIp(ip, retry) => Err(
                FrontendErrorResponse::RateLimitedIp(ip, retry),
            ),
            RateLimitResult::RateLimitedUser(user, retry) => Err(
                FrontendErrorResponse::RateLimitedUser(user, retry),
            ),
            RateLimitResult::UnknownKey => Err(FrontendErrorResponse::UnknownKey),
        }
    }
}

/// The address that the public entrance lets in, or the error that the
/// caller is answered with. The limiter must have been asked about an
/// address.
pub fn public_proxy_web3_rpc(limit: RateLimitResult) -> (outcome: Result<
    String,
    FrontendErrorResponse,
>)
    requires
        !(limit is AllowedUser),
    ensures
        outcome == (match limit {
            RateLimitResult::AllowedIp(ip) => Ok(ip),
            RateLimitResult::RateLimitedIp(ip, retry) => Err(
                FrontendErrorResponse::RateLimitedIp(ip, retry),
            ),
            RateLimitResult::RateLimitedUser(user, retry) => Err(
                FrontendErrorResponse::RateLimitedUser(user, retry),
            ),
            _ => Err(FrontendErrorResponse::UnknownKey),
        }),
{
    match limit.try_into_response() {
        Ok(RateLimitResult::AllowedIp(ip)) => Ok(ip),
        Ok(_) => vstd::pervasive::unreached(),
        Err(err) => Err(err),
    }
}

/// The user that the entrance for keys lets in, or the error that the
/// caller is answered with. The limiter must have been asked about a key.
pub fn user_proxy_web3_rpc(limit: RateLimitResult) -> (outcome: Result<u64, FrontendErrorResponse>)
    requires
        !(limit is AllowedIp),
    ensures
        outcome == (match limit {
            RateLimitResult::AllowedUser(user) => Ok(user),
            RateLimitResult::RateLimitedIp(ip, retry) => Err(
                FrontendErrorResponse::RateLimitedIp(ip, retry),
            ),
            RateLimitResult::RateLimitedUser(user, retry) => Err(
                FrontendErrorResponse::RateLimitedUser(user, retry),
            ),
            _ => Err(FrontendErrorResponse::UnknownKey),
        }),
{
    match limit.try_into_response() {
        Ok(RateLimitResult::AllowedUser(user)) => Ok(user),
        Ok(_) => vstd::pervasive::unreached(),
        Err(err) => Err(err),
    }
}

/// The methods of the requests, in their order.
pub open spec fn methods_of(requests: Seq<JsonRpcRequest>) -> Seq<Seq<char>> {
    Seq::new(requests.len(), |i: int| requests[i].method@)
}

/// The methods that a call counts for, one for each request it holds, in
/// their order.
pub fn counted_methods(payload: &JsonRpcRequestEnum) -> (methods: Vec<String>)
    ensures
        Seq::new(methods.len() as nat, |i: int| methods[i]@) == (match payload {
            JsonRpcRequestEnum::Single(single) => seq![single.method@],
            JsonRpcRequestEnum::Batch(batch) => methods_of(batch@),
        }),
{
    let mut methods: Vec<String> = Vec::new();
    match payload {
        JsonRpcRequestEnum::Single(single) => {
            methods.push(single.method.clone());
            assert(Seq::new(methods.len() as nat, |i: int| methods[i]@) =~= seq![single.method@]);
        },
        JsonRpcRequestEnum::Batch(batch) => {
            let mut i: usize = 0;
            while i < batch.len()
                invariant
                    i <= batch.len(),
                    methods.len() == i,
                    forall|k: int| 0 <= k < i ==> methods[k]@ == batch[k].method@,
                decreases batch.len() - i,
            {
                methods.push(batch[i].method.clone());
                i += 1;
            }
            assert(Seq::new(methods.len() as nat, |i: int| methods[i]@) =~= methods_of(batch@));
        },
    }
    methods
}

} // verus!
