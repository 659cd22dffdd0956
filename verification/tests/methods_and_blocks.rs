use web3_proxy::block_helpers::{
    block_needed, parse_quantity, resolve_block, rewrite_block,
};
use web3_proxy::json::{JsonMember, JsonValue};
use web3_proxy::methods::{classify, LocalMethod, MethodClass};
use web3_proxy::sha3::{decode_hex, sha3_answer, web3_sha3};
use web3_proxy::errors::Web3ProxyError;
use web3_proxy::primitives::H256;
use std::str::FromStr;

fn text(s: &str) -> JsonValue {
    JsonValue::Text(s.to_string())
}

#[test]
fn blocked_methods() {
    for method in [
        "admin_addPeer",
        "db_putString",
        "debug_setHead",
        "eth_compileSolidity",
        "eth_sendTransaction",
        "eth_sign",
        "eth_submitWork",
        "les_addBalance",
        "miner_start",
        "personal_sign",
        "personal_ecRecover",
        "shh_version",
        "shh_getFilterChanges",
    ] {
        assert_eq!(classify(method), MethodClass::Blocked);
    }
}

#[test]
fn filter_methods_are_not_implemented() {
    for method in [
        "eth_getFilterChanges",
        "eth_getFilterLogs",
        "eth_newBlockFilter",
        "eth_newFilter",
        "eth_newPendingTransactionFilter",
        "eth_uninstallFilter",
    ] {
        assert_eq!(classify(method), MethodClass::NotImplemented);
    }
}

#[test]
fn methods_answered_locally() {
    assert_eq!(classify("eth_accounts"), MethodClass::Local(LocalMethod::Accounts));
    assert_eq!(classify("eth_blockNumber"), MethodClass::Local(LocalMethod::BlockNumber));
    assert_eq!(classify("eth_coinbase"), MethodClass::Local(LocalMethod::Coinbase));
    assert_eq!(classify("eth_hashrate"), MethodClass::Local(LocalMethod::Hashrate));
    assert_eq!(classify("eth_mining"), MethodClass::Local(LocalMethod::Mining));
    assert_eq!(classify("eth_syncing"), MethodClass::Local(LocalMethod::Syncing));
    assert_eq!(classify("net_listening"), MethodClass::Local(LocalMethod::NetListening));
    assert_eq!(classify("net_peerCount"), MethodClass::Local(LocalMethod::NetPeerCount));
    assert_eq!(classify("web3_clientVersion"), MethodClass::Local(LocalMethod::ClientVersion));
    assert_eq!(classify("web3_sha3"), MethodClass::Local(LocalMethod::Sha3));
}

#[test]
fn fan_out_and_default_methods() {
    assert_eq!(classify("eth_sendRawTransaction"), MethodClass::PrivateFanout);
    assert_eq!(classify("eth_getTransactionByHash"), MethodClass::RaceFanout);
    assert_eq!(classify("eth_getTransactionReceipt"), MethodClass::RaceFanout);
    assert_eq!(classify("eth_subscribe"), MethodClass::Subscription);
    assert_eq!(classify("eth_unsubscribe"), MethodClass::Subscription);
    assert_eq!(classify("eth_getBalance"), MethodClass::Cached);
    assert_eq!(classify("eth_call"), MethodClass::Cached);
    assert_eq!(classify("Personal_sign"), MethodClass::Cached);
    assert_eq!(classify(""), MethodClass::Cached);
    assert_eq!(classify("something_else"), MethodClass::Cached);
}

#[test]
fn quantities_are_parsed() {
    assert_eq!(parse_quantity("0x0"), Some(0));
    assert_eq!(parse_quantity("0x64"), Some(100));
    assert_eq!(parse_quantity("0xFf"), Some(255));
    assert_eq!(parse_quantity("0x0064"), Some(100));
    assert_eq!(parse_quantity("0xffffffffffffffff"), Some(u64::MAX));
    assert_eq!(parse_quantity("0x10000000000000000"), None);
    assert_eq!(parse_quantity("0x"), None);
    assert_eq!(parse_quantity("64"), None);
    assert_eq!(parse_quantity("0X64"), None);
    assert_eq!(parse_quantity("0x6g"), None);
    assert_eq!(parse_quantity(""), None);
    assert_eq!(parse_quantity("latest"), None);
}

#[test]
fn block_parameters_are_resolved() {
    for tag in ["latest", "pending", "earliest", "safe", "finalized"] {
        assert_eq!(resolve_block(&text(tag), 100), Some(100));
    }
    assert_eq!(resolve_block(&text("0x5"), 100), Some(5));
    assert_eq!(resolve_block(&text("0x78"), 100), Some(120));
    assert_eq!(resolve_block(&text("Latest"), 100), None);
    assert_eq!(resolve_block(&JsonValue::Number("5".to_string()), 100), None);
    assert_eq!(resolve_block(&JsonValue::Null, 100), None);
}

#[test]
fn only_latest_is_rewritten() {
    assert_eq!(rewrite_block(text("latest"), 100), text("0x64"));
    assert_eq!(rewrite_block(text("pending"), 100), text("pending"));
    assert_eq!(rewrite_block(text("0x5"), 100), text("0x5"));
    assert_eq!(rewrite_block(JsonValue::Null, 100), JsonValue::Null);
}

#[test]
fn latest_and_the_number_of_the_head_read_the_same() {
    let tagged = JsonValue::Array(vec![text("0xaaa"), text("latest")]);
    let numbered = JsonValue::Array(vec![text("0xaaa"), text("0x64")]);
    let (block_a, params_a) = block_needed("eth_getBalance", Some(tagged), 100);
    let (block_b, params_b) = block_needed("eth_getBalance", Some(numbered), 100);
    assert_eq!(block_a, Some(100));
    assert_eq!(block_b, Some(100));
    assert_eq!(params_a, params_b);
    assert_eq!(params_a.unwrap().to_text(), "[\"0xaaa\",\"0x64\"]");
}

#[test]
fn block_needed_by_place() {
    let params = JsonValue::Array(vec![text("0x10"), JsonValue::Bool(true)]);
    assert_eq!(
        block_needed("eth_getBlockByNumber", Some(params.duplicate()), 100),
        (Some(16), Some(params))
    );
    let params = JsonValue::Array(vec![text("0xa"), text("0x0"), text("0x7")]);
    assert_eq!(
        block_needed("eth_getStorageAt", Some(params.duplicate()), 100),
        (Some(7), Some(params))
    );
    let short = JsonValue::Array(vec![text("0xa")]);
    assert_eq!(
        block_needed("eth_getCode", Some(short.duplicate()), 100),
        (Some(100), Some(short))
    );
    let by_hash = JsonValue::Array(vec![
        text("0xa"),
        JsonValue::Object(vec![JsonMember { name: "blockHash".to_string(), value: text("0x1") }]),
    ]);
    assert_eq!(
        block_needed("eth_call", Some(by_hash.duplicate()), 100),
        (None, Some(by_hash))
    );
}

#[test]
fn requests_without_a_block() {
    let params = JsonValue::Array(vec![text("0xabc")]);
    assert_eq!(
        block_needed("eth_getTransactionByHash", Some(params.duplicate()), 100),
        (None, Some(params))
    );
    assert_eq!(block_needed("eth_getBalance", None, 100), (None, None));
    let object = JsonValue::Object(vec![]);
    assert_eq!(
        block_needed("eth_getBalance", Some(object.duplicate()), 100),
        (None, Some(object))
    );
}

fn filter(members: Vec<(&str, JsonValue)>) -> JsonValue {
    JsonValue::Array(vec![JsonValue::Object(
        members
            .into_iter()
            .map(|(name, value)| JsonMember { name: name.to_string(), value })
            .collect(),
    )])
}

#[test]
fn log_filters_need_the_greater_end() {
    let (block, params) = block_needed(
        "eth_getLogs",
        Some(filter(vec![("fromBlock", text("0x5")), ("toBlock", text("0x9"))])),
        100,
    );
    assert_eq!(block, Some(9));
    assert_eq!(params, Some(filter(vec![("fromBlock", text("0x5")), ("toBlock", text("0x9"))])));

    let (block, params) = block_needed(
        "eth_getLogs",
        Some(filter(vec![("fromBlock", text("0x5")), ("toBlock", text("latest"))])),
        100,
    );
    assert_eq!(block, Some(100));
    assert_eq!(params, Some(filter(vec![("fromBlock", text("0x5")), ("toBlock", text("0x64"))])));

    let (block, _) = block_needed(
        "eth_getLogs",
        Some(filter(vec![("fromBlock", text("0x78")), ("address", text("0x1"))])),
        100,
    );
    assert_eq!(block, Some(120));

    let (block, _) = block_needed("eth_getLogs", Some(filter(vec![])), 100);
    assert_eq!(block, Some(100));

    let (block, _) = block_needed(
        "eth_getLogs",
        Some(filter(vec![("blockHash", text("0x1"))])),
        100,
    );
    assert_eq!(block, None);

    assert_eq!(
        block_needed("eth_getLogs", Some(JsonValue::Array(vec![])), 100),
        (None, Some(JsonValue::Array(vec![])))
    );
}

#[test]
fn hexadecimal_data_is_decoded() {
    assert_eq!(decode_hex(""), Some(vec![]));
    assert_eq!(decode_hex("0x"), Some(vec![]));
    assert_eq!(decode_hex("0x68656c6c6f"), Some(b"hello".to_vec()));
    assert_eq!(decode_hex("68656C6c6F"), Some(b"hello".to_vec()));
    assert_eq!(decode_hex("0Xff00"), Some(vec![0xff, 0x00]));
    assert_eq!(decode_hex("0x123"), None);
    assert_eq!(decode_hex("123"), None);
    assert_eq!(decode_hex("0xzz"), None);
    assert_eq!(decode_hex("0x0x"), None);
    assert_eq!(decode_hex("\u{e9}\u{e9}"), None);
}

#[test]
fn hexadecimal_data_is_decoded_as_ethers_does() {
    for input in ["", "0x", "0x68656c6c6f", "68656C6c6F", "0Xff00", "0x123", "123", "0xzz", "0x0x", "x0", "0"] {
        let theirs = ethers::types::Bytes::from_str(input).ok().map(|b| b.to_vec());
        assert_eq!(decode_hex(input), theirs);
    }
}

#[test]
fn sha3_of_hello() {
    let params = Some(JsonValue::Array(vec![text("0x68656c6c6f")]));
    assert_eq!(
        web3_sha3(&params),
        Ok(text("0x1c8aff950685c2ed4bc3174f3472287b56d9517b9c948127319a09a7a36deac8"))
    );
    let empty = Some(JsonValue::Array(vec![text("0x")]));
    assert_eq!(
        web3_sha3(&empty),
        Ok(text("0xc5d2460186f7233c927e7db2dcc703c0e500b653ca82273b7bfad8045d85a470"))
    );
}

#[test]
fn sha3_of_bad_parameters() {
    let invalid = Err(Web3ProxyError::BadRequest("invalid request".to_string()));
    assert_eq!(web3_sha3(&None), invalid);
    assert_eq!(web3_sha3(&Some(JsonValue::Array(vec![]))), invalid);
    assert_eq!(web3_sha3(&Some(JsonValue::Array(vec![text("0x"), text("0x")]))), invalid);
    assert_eq!(web3_sha3(&Some(JsonValue::Array(vec![JsonValue::Null]))), invalid);
    assert_eq!(web3_sha3(&Some(text("0x"))), invalid);
    assert_eq!(
        web3_sha3(&Some(JsonValue::Array(vec![text("0x1")]))),
        Err(Web3ProxyError::ParseBytesError(None))
    );
}

#[test]
fn sha3_answer_is_the_hash_as_data() {
    let mut bytes = [0u8; 32];
    bytes[0] = 0xfe;
    assert_eq!(
        sha3_answer(&H256 { bytes }),
        text("0xfe00000000000000000000000000000000000000000000000000000000000000")
    );
}
