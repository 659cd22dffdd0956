use std::sync::Arc;
use web3_proxy::errors::{
    ProviderFailure, RateLimit, Web3ProxyError, Web3ProxyErrorContext, INTERNAL_ERROR,
    INVALID_PARAMS, METHOD_NOT_FOUND, RATE_LIMITED, UNKNOWN_BLOCK,
};
use web3_proxy::json::JsonValue;
use web3_proxy::jsonrpc::JsonRpcErrorData;
use web3_proxy::primitives::H256;

fn parts(err: &Web3ProxyError) -> (u16, i64, String, Option<JsonValue>) {
    let (status, data) = err.as_response_parts();
    (status, data.code, data.message, data.data)
}

#[test]
fn error_codes_are_those_of_the_protocol() {
    assert_eq!(INTERNAL_ERROR, -32603);
    assert_eq!(UNKNOWN_BLOCK, -32000);
    assert_eq!(METHOD_NOT_FOUND, -32601);
    assert_eq!(INVALID_PARAMS, -32602);
    assert_eq!(RATE_LIMITED, -32005);
}

#[test]
fn blocked_method_is_method_not_found() {
    assert_eq!(
        parts(&Web3ProxyError::MethodBlocked),
        (200, -32601, "unsupported".to_string(), None)
    );
}

#[test]
fn bad_request_is_invalid_params() {
    assert_eq!(
        parts(&Web3ProxyError::BadRequest("no params".to_string())),
        (400, -32602, "bad request: no params".to_string(), None)
    );
}

#[test]
fn unknown_blocks_have_their_code() {
    let mut bytes = [0u8; 32];
    bytes[0] = 0xab;
    bytes[31] = 0x01;
    assert_eq!(
        parts(&Web3ProxyError::UnknownBlockHash(H256 { bytes })),
        (200, -32000, "block 0xab00\u{2026}0001 not found".to_string(), None)
    );
    assert_eq!(
        parts(&Web3ProxyError::UnknownBlockNumber { known: 100, unknown: 105 }),
        (200, -32000, "block #105 not found. best known is #100".to_string(), None)
    );
}

#[test]
fn failures_of_the_proxy_and_its_backends_are_internal() {
    assert_eq!(
        parts(&Web3ProxyError::Anyhow("secret".to_string())),
        (500, -32603, "INTERNAL SERVER ERROR".to_string(), None)
    );
    assert_eq!(
        parts(&Web3ProxyError::NoServersSynced),
        (502, -32603, "no servers synced".to_string(), None)
    );
    assert_eq!(
        parts(&Web3ProxyError::NotEnoughRpcs { num_known: 1, min_head_rpcs: 3 }),
        (502, -32603, "not enough rpcs connected 1/3".to_string(), None)
    );
    assert_eq!(
        parts(&Web3ProxyError::NotEnoughSoftLimit { available: 10, needed: 20 }),
        (502, -32603, "not enough soft limit available 10/20".to_string(), None)
    );
    assert_eq!(
        parts(&Web3ProxyError::InvalidUserTier),
        (500, -32603, "UserTier is not valid!".to_string(), None)
    );
    assert_eq!(
        parts(&Web3ProxyError::JoinError { cancelled: true }),
        (502, -32603, "Unable to complete request".to_string(), None)
    );
    assert_eq!(
        parts(&Web3ProxyError::JoinError { cancelled: false }),
        (500, -32603, "Unable to complete request".to_string(), None)
    );
}

#[test]
fn other_errors_have_their_status_for_code() {
    assert_eq!(
        parts(&Web3ProxyError::AccessDenied("no".to_string())),
        (403, 403, "FORBIDDEN: no".to_string(), None)
    );
    assert_eq!(parts(&Web3ProxyError::NotFound), (404, 404, "not found!".to_string(), None));
    assert_eq!(
        parts(&Web3ProxyError::UnknownKey),
        (401, 401, "unknown api key!".to_string(), None)
    );
    assert_eq!(
        parts(&Web3ProxyError::PaymentRequired),
        (402, 402, "Payment is required to activate premium".to_string(), None)
    );
    assert_eq!(
        parts(&Web3ProxyError::NotImplemented("eth_newFilter".to_string())),
        (
            501,
            501,
            "eth_newFilter is not yet implemented. contact us if you need this".to_string(),
            None
        )
    );
    assert_eq!(
        parts(&Web3ProxyError::InvalidBlockBounds { min: 5, max: 3 }),
        (400, 400, "Invalid blocks bounds requested. min (5) > max (3)".to_string(), None)
    );
    assert_eq!(
        parts(&Web3ProxyError::IpNotAllowed("10.0.0.1".to_string())),
        (403, 403, "IP (10.0.0.1) is not allowed!".to_string(), None)
    );
    assert_eq!(
        parts(&Web3ProxyError::StatusCode(418, "teapot".to_string(), None)),
        (418, 418, "teapot".to_string(), None)
    );
    assert_eq!(
        parts(&Web3ProxyError::SerdeJson("eof".to_string())),
        (400, 400, "de/serialization error! eof".to_string(), None)
    );
}

#[test]
fn time_outs_show_the_timer() {
    assert_eq!(
        parts(&Web3ProxyError::Timeout(None)),
        (408, 408, "request timed out: None".to_string(), None)
    );
    assert_eq!(
        parts(&Web3ProxyError::Timeout(Some("Elapsed(())".to_string()))),
        (408, 408, "request timed out: Some(Elapsed(()))".to_string(), None)
    );
}

#[test]
fn rate_limited_callers_are_told_when_to_retry() {
    let by_ip = Web3ProxyError::RateLimited(RateLimit {
        ip: "1.2.3.4".to_string(),
        rpc_secret_key_id: None,
        retry_in_secs: Some(30),
    });
    assert_eq!(
        parts(&by_ip),
        (
            429,
            -32005,
            "too many requests from 1.2.3.4. Retry in 30 seconds".to_string(),
            Some(JsonValue::Number("30".to_string()))
        )
    );
    let by_key = Web3ProxyError::RateLimited(RateLimit {
        ip: "1.2.3.4".to_string(),
        rpc_secret_key_id: Some(17),
        retry_in_secs: None,
    });
    assert_eq!(
        parts(&by_key),
        (429, -32005, "too many requests from rpc key #17.".to_string(), None)
    );
}

#[test]
fn errors_of_backends_are_forwarded() {
    let data = JsonRpcErrorData {
        message: "execution reverted".to_string(),
        code: 3,
        data: Some(JsonValue::Text("0x08c379a0".to_string())),
    };
    let expected = (
        200,
        3,
        "execution reverted".to_string(),
        Some(JsonValue::Text("0x08c379a0".to_string())),
    );
    assert_eq!(parts(&Web3ProxyError::JsonRpcErrorData(data.duplicate())), expected);
    assert_eq!(
        parts(&Web3ProxyError::EthersProvider(ProviderFailure::JsonRpc(data.duplicate()))),
        expected
    );
    assert_eq!(
        parts(&Web3ProxyError::EthersHttpClient(ProviderFailure::JsonRpc(data.duplicate()))),
        expected
    );
    assert_eq!(
        parts(&Web3ProxyError::EthersWsClient(ProviderFailure::JsonRpc(data))),
        expected
    );
    assert_eq!(
        parts(&Web3ProxyError::EthersProvider(ProviderFailure::Other("closed".to_string()))),
        (500, -32603, "ethers provider error".to_string(), None)
    );
    assert_eq!(
        parts(&Web3ProxyError::EthersHttpClient(ProviderFailure::Other("closed".to_string()))),
        (500, -32603, "ethers http client error".to_string(), None)
    );
    assert_eq!(
        parts(&Web3ProxyError::EthersWsClient(ProviderFailure::Other("closed".to_string()))),
        (500, -32603, "ethers ws client error".to_string(), None)
    );
}

#[test]
fn shared_and_wrapped_errors_report_the_error_inside() {
    let inner = Web3ProxyError::BadRequest("x".to_string());
    let expected = parts(&inner);
    assert_eq!(parts(&Web3ProxyError::Arc(Arc::new(inner))), expected);
    let wrapped = Web3ProxyError::WithContext(
        Some(Box::new(Web3ProxyError::BadRequest("x".to_string()))),
        "while parsing".to_string(),
    );
    assert_eq!(parts(&wrapped), expected);
    assert_eq!(
        parts(&Web3ProxyError::WithContext(None, "nothing there".to_string())),
        (500, -32603, "nothing there".to_string(), None)
    );
}

#[test]
fn context_is_added_to_what_is_missing_or_failed() {
    let missing: Option<u8> = None;
    assert_eq!(
        missing.web3_context("no head"),
        Err(Web3ProxyError::WithContext(None, "no head".to_string()))
    );
    assert_eq!(Some(3u8).web3_context("no head"), Ok(3));
    let failed: Result<u8, Web3ProxyError> = Err(Web3ProxyError::NotFound);
    assert_eq!(
        failed.web3_context("looking up"),
        Err(Web3ProxyError::WithContext(
            Some(Box::new(Web3ProxyError::NotFound)),
            "looking up".to_string()
        ))
    );
    let fine: Result<u8, Web3ProxyError> = Ok(4);
    assert_eq!(fine.web3_context("looking up"), Ok(4));
}

#[test]
fn responses_and_messages_for_errors() {
    let (status, response) =
        Web3ProxyError::MethodBlocked.into_response_with_id(Some(JsonValue::Number("9".to_string())));
    assert_eq!(status, 200);
    assert_eq!(
        response.to_text(),
        "{\"jsonrpc\":\"2.0\",\"id\":9,\"error\":{\"code\":-32601,\"message\":\"unsupported\"}}"
    );
    let (status, response) = Web3ProxyError::NotFound.into_response();
    assert_eq!(status, 404);
    assert_eq!(response.id, JsonValue::Null);
    assert_eq!(
        Web3ProxyError::WebsocketOnly.into_message(None),
        "{\"jsonrpc\":\"2.0\",\"id\":null,\"error\":{\"code\":400,\"message\":\"only websockets work here\"}}"
    );
    assert_eq!(Web3ProxyError::NoHandleReady.status_code(), 502);
    assert_eq!(Web3ProxyError::NoHandleReady.code(), -32603);
    assert_eq!(Web3ProxyError::NoHandleReady.message(), "unable to retry for request handle");
    assert_eq!(Web3ProxyError::NoHandleReady.data(), None);
}
