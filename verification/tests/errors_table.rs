use web3_proxy::errors::Web3ProxyError;

#[test]
fn every_error_has_its_status_code_and_message() {
    let table: Vec<(Web3ProxyError, u16, i64, &str)> = vec![
        (Web3ProxyError::Abi("err text".to_string()), 500, -32603, "err text"),
        (Web3ProxyError::AccessDenied("msg text".to_string()), 403, 403, "FORBIDDEN: msg text"),
        (Web3ProxyError::Anyhow("err text".to_string()), 500, -32603, "INTERNAL SERVER ERROR"),
        (Web3ProxyError::BadRequest("err text".to_string()), 400, -32602, "bad request: err text"),
        (Web3ProxyError::BadResponse("err text".to_string()), 500, -32603, "bad response: err text"),
        (Web3ProxyError::BadRouting, 500, -32603, "bad routing"),
        (Web3ProxyError::Contract("err text".to_string()), 500, -32603, "contract error: err text"),
        (Web3ProxyError::Database("err text".to_string()), 500, -32603, "database error!"),
        (Web3ProxyError::Decimal("err text".to_string()), 400, 400, "decimal error: err text"),
        (Web3ProxyError::FlumeRecv, 500, -32603, "flume recv error!"),
        (Web3ProxyError::GasEstimateNotU256, 500, -32603, "gas estimate result is not an U256"),
        (Web3ProxyError::HdrRecord("err text".to_string()), 500, -32603, "err text"),
        (Web3ProxyError::Headers("err text".to_string()), 400, 400, "err text"),
        (Web3ProxyError::HeaderToString("err text".to_string()), 400, 400, "err text"),
        (Web3ProxyError::HttpUri("err text".to_string()), 400, 400, "err text"),
        (Web3ProxyError::Hyper("err text".to_string()), 500, -32603, "err text"),
        (Web3ProxyError::InfluxDb2Request("err text".to_string()), 500, -32603, "influxdb2 error!"),
        (Web3ProxyError::InvalidBlockBounds { min: 7, max: 3 }, 400, 400, "Invalid blocks bounds requested. min (7) > max (3)"),
        (Web3ProxyError::InvalidHeaderValue("err text".to_string()), 400, 400, "err text"),
        (Web3ProxyError::InvalidEip, 400, 400, "invalid message eip given"),
        (Web3ProxyError::InvalidInviteCode, 401, 401, "invalid invite code"),
        (Web3ProxyError::Io("err text".to_string()), 500, -32603, "err text"),
        (Web3ProxyError::UnknownReferralCode, 401, 401, "invalid referral code"),
        (Web3ProxyError::InvalidReferer, 400, 400, "invalid referer!"),
        (Web3ProxyError::InvalidSignatureLength, 400, 400, "invalid signature length"),
        (Web3ProxyError::InvalidUserTier, 500, -32603, "UserTier is not valid!"),
        (Web3ProxyError::InvalidUserAgent, 403, 403, "invalid user agent!"),
        (Web3ProxyError::InvalidUserKey, 400, 400, "UserKey was not a ULID or UUID"),
        (Web3ProxyError::IpAddrParse("err text".to_string()), 400, 400, "err text"),
        (Web3ProxyError::IpNotAllowed("ip text".to_string()), 403, 403, "IP (ip text) is not allowed!"),
        (Web3ProxyError::MsgPackEncode("err text".to_string()), 500, -32603, "msgpack encode error: err text"),
        (Web3ProxyError::MethodBlocked, 200, -32601, "unsupported"),
        (Web3ProxyError::NoBlockNumberOrHash, 500, -32603, "Blocks here must have a number or hash"),
        (Web3ProxyError::NoBlocksKnown, 502, -32603, "no blocks known"),
        (Web3ProxyError::NoConsensusHeadBlock, 502, -32603, "no consensus head block"),
        (Web3ProxyError::NoDatabase, 500, -32603, "no database configured!"),
        (Web3ProxyError::NoHandleReady, 502, -32603, "unable to retry for request handle"),
        (Web3ProxyError::NoServersSynced, 502, -32603, "no servers synced"),
        (Web3ProxyError::NotEnoughRpcs { num_known: 1, min_head_rpcs: 2 }, 502, -32603, "not enough rpcs connected 1/2"),
        (Web3ProxyError::NotEnoughSoftLimit { available: 10, needed: 20 }, 502, -32603, "not enough soft limit available 10/20"),
        (Web3ProxyError::NotFound, 404, 404, "not found!"),
        (Web3ProxyError::NotImplemented("msg text".to_string()), 501, 501, "msg text is not yet implemented. contact us if you need this"),
        (Web3ProxyError::NoVolatileRedisDatabase, 500, -32603, "no volatile redis database configured!"),
        (Web3ProxyError::OriginRequired, 400, 400, "Origin required"),
        (Web3ProxyError::OriginNotAllowed("origin text".to_string()), 403, 403, "Origin (origin text) is not allowed!"),
        (Web3ProxyError::ParseBytesError(None), 400, 400, "parse bytes error!"),
        (Web3ProxyError::ParseMsgError("err text".to_string()), 400, 400, "parse message error!"),
        (Web3ProxyError::ParseAddressError, 400, 400, "unable to parse address"),
        (Web3ProxyError::PaymentRequired, 402, 402, "Payment is required to activate premium"),
        (Web3ProxyError::Redis("err text".to_string()), 500, -32603, "redis error!"),
        (Web3ProxyError::RedisDeadpool("err text".to_string()), 500, -32603, "err text"),
        (Web3ProxyError::RefererRequired, 400, 400, "Referer required"),
        (Web3ProxyError::RefererNotAllowed("referer text".to_string()), 403, 403, "Referer (referer text) is not allowed"),
        (Web3ProxyError::SemaphoreAcquireError, 500, -32603, "semaphore acquire error"),
        (Web3ProxyError::SendAppStatError, 500, -32603, "error stat_sender sending response_stat"),
        (Web3ProxyError::SerdeJson("err text".to_string()), 400, 400, "de/serialization error! err text"),
        (Web3ProxyError::SiweVerification("err text".to_string()), 401, 401, "siwe verification error: err text"),
        (Web3ProxyError::UlidDecode("err text".to_string()), 400, 400, "err text"),
        (Web3ProxyError::UnknownBlockNumber { known: 100, unknown: 105 }, 200, -32000, "block #105 not found. best known is #100"),
        (Web3ProxyError::UnknownKey, 401, 401, "unknown api key!"),
        (Web3ProxyError::UserAgentRequired, 401, 401, "User agent required"),
        (Web3ProxyError::UserAgentNotAllowed("ua text".to_string()), 403, 403, "User agent (ua text) is not allowed!"),
        (Web3ProxyError::UserIdZero, 400, 400, "user ids should always be non-zero"),
        (Web3ProxyError::WatchRecvError, 500, -32603, "watch recv error!"),
        (Web3ProxyError::WatchSendError, 500, -32603, "watch send error!"),
        (Web3ProxyError::WebsocketOnly, 400, 400, "only websockets work here"),
    ];
    assert_eq!(table.len(), 66);
    for (err, status, code, message) in table {
        let (got_status, data) = err.as_response_parts();
        assert_eq!(got_status, status, "{:?}", err);
        assert_eq!(data.code, code, "{:?}", err);
        assert_eq!(data.message, message, "{:?}", err);
        assert_eq!(data.data, None, "{:?}", err);
        assert_eq!(err.status_code(), status);
        assert_eq!(err.code(), code);
        assert_eq!(err.message(), message);
    }
}
