//! The methods of JSON-RPC that the proxy treats in a way of their own.

use vstd::prelude::*;
use crate::text::str_eq;

verus! {

/// A method that the proxy answers by itself.
#[derive(Debug, Clone, Copy, PartialEq, Eq, Structural)]
pub enum LocalMethod {
    /// `eth_accounts`
    Accounts,
    /// `eth_blockNumber`
    BlockNumber,
    /// `eth_coinbase`
    Coinbase,
    /// `eth_hashrate`
    Hashrate,
    /// `eth_mining`
    Mining,
    /// `eth_syncing`
    Syncing,
    /// `net_listening`
    NetListening,
    /// `net_peerCount`
    NetPeerCount,
    /// `web3_clientVersion`
    ClientVersion,
    /// `web3_sha3`
    Sha3,
}

/// What the proxy does with a call, by its method.
#[derive(Debug, Clone, Copy, PartialEq, Eq, Structural)]
pub enum MethodClass {
    /// Refused: the method administers a node, changes its debugging or
    /// mining, handles keys, or belongs to whisper or to the compilers.
    Blocked,
    /// Refused for now: the filter methods.
    NotImplemented,
    /// Answered without a backend.
    Local(LocalMethod),
    /// Served on a WebSocket alone: `eth_subscribe` and `eth_unsubscribe`.
    Subscription,
    /// Sent to every private relay at once: `eth_sendRawTransaction`.
    PrivateFanout,
    /// Sent to every eligible backend at once, for whichever has seen the
    /// transaction: `eth_getTransactionByHash`, `eth_getTransactionReceipt`.
    RaceFanout,
    /// Sent to the best backend, and its answer cached: every other method.
    Cached,
}

/// Whether the proxy refuses the method for good.
pub open spec fn is_blocked(method: Seq<char>) -> bool {
    method == "admin_addPeer"@
    || method == "admin_datadir"@
    || method == "admin_startRPC"@
    || method == "admin_startWS"@
    || method == "admin_stopRPC"@
    || method == "admin_stopWS"@
    || method == "db_getHex"@
    || method == "db_getString"@
    || method == "db_putHex"@
    || method == "db_putString"@
    || method == "debug_chaindbCompact"@
    || method == "debug_freezeClient"@
    || method == "debug_goTrace"@
    || method == "debug_mutexProfile"@
    || method == "debug_setBlockProfileRate"@
    || method == "debug_setGCPercent"@
    || method == "debug_setHead"@
    || method == "debug_setMutexProfileFraction"@
    || method == "debug_standardTraceBlockToFile"@
    || method == "debug_standardTraceBadBlockToFile"@
    || method == "debug_startCPUProfile"@
    || method == "debug_startGoTrace"@
    || method == "debug_stopCPUProfile"@
    || method == "debug_stopGoTrace"@
    || method == "debug_writeBlockProfile"@
    || method == "debug_writeMemProfile"@
    || method == "debug_writeMutexProfile"@
    || method == "eth_compileLLL"@
    || method == "eth_compileSerpent"@
    || method == "eth_compileSolidity"@
    || method == "eth_getCompilers"@
    || method == "eth_sendTransaction"@
    || method == "eth_sign"@
    || method == "eth_signTransaction"@
    || method == "eth_submitHashrate"@
    || method == "eth_submitWork"@
    || method == "les_addBalance"@
    || method == "les_setClientParams"@
    || method == "les_setDefaultParams"@
    || method == "miner_setExtra"@
    || method == "miner_setGasPrice"@
    || method == "miner_start"@
    || method == "miner_stop"@
    || method == "miner_setEtherbase"@
    || method == "miner_setGasLimit"@
    || method == "personal_importRawKey"@
    || method == "personal_listAccounts"@
    || method == "personal_lockAccount"@
    || method == "personal_newAccount"@
    || method == "personal_unlockAccount"@
    || method == "personal_sendTransaction"@
    || method == "personal_sign"@
    || method == "personal_ecRecover"@
    || method == "shh_addToGroup"@
    || method == "shh_getFilterChanges"@
    || method == "shh_getMessages"@
    || method == "shh_hasIdentity"@
    || method == "shh_newFilter"@
    || method == "shh_newGroup"@
    || method == "shh_newIdentity"@
    || method == "shh_post"@
    || method == "shh_uninstallFilter"@
    || method == "shh_version"@
}

/// Whether the proxy knows the method and does not serve it yet.
pub open spec fn is_not_implemented(method: Seq<char>) -> bool {
    method == "eth_getFilterChanges"@
    || method == "eth_getFilterLogs"@
    || method == "eth_newBlockFilter"@
    || method == "eth_newFilter"@
    || method == "eth_newPendingTransactionFilter"@
    || method == "eth_uninstallFilter"@
}

/// The method that the proxy answers by itself under this name, if any.
pub open spec fn local_method(method: Seq<char>) -> Option<LocalMethod> {
    if method == "eth_accounts"@ {
        Some(LocalMethod::Accounts)
    } else if method == "eth_blockNumber"@ {
        Some(LocalMethod::BlockNumber)
    } else if method == "eth_coinbase"@ {
        Some(LocalMethod::Coinbase)
    } else if method == "eth_hashrate"@ {
        Some(LocalMethod::Hashrate)
    } else if method == "eth_mining"@ {
        Some(LocalMethod::Mining)
    } else if method == "eth_syncing"@ {
        Some(LocalMethod::Syncing)
    } else if method == "net_listening"@ {
        Some(LocalMethod::NetListening)
    } else if method == "net_peerCount"@ {
        Some(LocalMethod::NetPeerCount)
    } else if method == "web3_clientVersion"@ {
        Some(LocalMethod::ClientVersion)
    } else if method == "web3_sha3"@ {
        Some(LocalMethod::Sha3)
    } else {
        None
    }
}

/// The class of a method. The lists are read in this order: blocked, not
/// yet implemented, answered locally, subscription, fan-out; what is on
/// none of them is sent to the best backend and cached.
pub open spec fn method_class(method: Seq<char>) -> MethodClass {
    if is_blocked(method) {
        MethodClass::Blocked
    } else if is_not_implemented(method) {
        MethodClass::NotImplemented
    } else if local_method(method) is Some {
        MethodClass::Local(local_method(method)->0)
    } else if method == "eth_subscribe"@ || method == "eth_unsubscribe"@ {
        MethodClass::Subscription
    } else if method == "eth_sendRawTransaction"@ {
        MethodClass::PrivateFanout
    } else if method == "eth_getTransactionByHash"@ || method == "eth_getTransactionReceipt"@ {
        MethodClass::RaceFanout
    } else {
        MethodClass::Cached
    }
}

fn blocked(method: &str) -> (b: bool)
    ensures
        b == is_blocked(method@),
{
    str_eq(method, "admin_addPeer")
    || str_eq(method, "admin_datadir")
    || str_eq(method, "admin_startRPC")
    || str_eq(method, "admin_startWS")
    || str_eq(method, "admin_stopRPC")
    || str_eq(method, "admin_stopWS")
    || str_eq(method, "db_getHex")
    || str_eq(method, "db_getString")
    || str_eq(method, "db_putHex")
    || str_eq(method, "db_putString")
    || str_eq(method, "debug_chaindbCompact")
    || str_eq(method, "debug_freezeClient")
    || str_eq(method, "debug_goTrace")
    || str_eq(method, "debug_mutexProfile")
    || str_eq(method, "debug_setBlockProfileRate")
    || str_eq(method, "debug_setGCPercent")
    || str_eq(method, "debug_setHead")
    || str_eq(method, "debug_setMutexProfileFraction")
    || str_eq(method, "debug_standardTraceBlockToFile")
    || str_eq(method, "debug_standardTraceBadBlockToFile")
    || str_eq(method, "debug_startCPUProfile")
    || str_eq(method, "debug_startGoTrace")
    || str_eq(method, "debug_stopCPUProfile")
    || str_eq(method, "debug_stopGoTrace")
    || str_eq(method, "debug_writeBlockProfile")
    || str_eq(method, "debug_writeMemProfile")
    || str_eq(method, "debug_writeMutexProfile")
    || str_eq(method, "eth_compileLLL")
    || str_eq(method, "eth_compileSerpent")
    || str_eq(method, "eth_compileSolidity")
    || str_eq(method, "eth_getCompilers")
    || str_eq(method, "eth_sendTransaction")
    || str_eq(method, "eth_sign")
    || str_eq(method, "eth_signTransaction")
    || str_eq(method, "eth_submitHashrate")
    || str_eq(method, "eth_submitWork")
    || str_eq(method, "les_addBalance")
    || str_eq(method, "les_setClientParams")
    || str_eq(method, "les_setDefaultParams")
    || str_eq(method, "miner_setExtra")
    || str_eq(method, "miner_setGasPrice")
    || str_eq(method, "miner_start")
    || str_eq(method, "miner_stop")
    || str_eq(method, "miner_setEtherbase")
    || str_eq(method, "miner_setGasLimit")
    || str_eq(method, "personal_importRawKey")
    || str_eq(method, "personal_listAccounts")
    || str_eq(method, "personal_lockAccount")
    || str_eq(method, "personal_newAccount")
    || str_eq(method, "personal_unlockAccount")
    || str_eq(method, "personal_sendTransaction")
    || str_eq(method, "personal_sign")
    || str_eq(method, "personal_ecRecover")
    || str_eq(method, "shh_addToGroup")
    || str_eq(method, "shh_getFilterChanges")
    || str_eq(method, "shh_getMessages")
    || str_eq(method, "shh_hasIdentity")
    || str_eq(method, "shh_newFilter")
    || str_eq(method, "shh_newGroup")
    || str_eq(method, "shh_newIdentity")
    || str_eq(method, "shh_post")
    || str_eq(method, "shh_uninstallFilter")
    || str_eq(method, "shh_version")
}

fn not_implemented(method: &str) -> (b: bool)
    ensures
        b == is_not_implemented(method@),
{
    str_eq(method, "eth_getFilterChanges")
    || str_eq(method, "eth_getFilterLogs")
    || str_eq(method, "eth_newBlockFilter")
    || str_eq(method, "eth_newFilter")
    || str_eq(method, "eth_newPendingTransactionFilter")
    || str_eq(method, "eth_uninstallFilter")
}

fn local(method: &str) -> (found: Option<LocalMethod>)
    ensures
        found == local_method(method@),
{
    if str_eq(method, "eth_accounts") {
        Some(LocalMethod::Accounts)
    } else if str_eq(method, "eth_blockNumber") {
        Some(LocalMethod::BlockNumber)
    } else if str_eq(method, "eth_coinbase") {
        Some(LocalMethod::Coinbase)
    } else if str_eq(method, "eth_hashrate") {
        Some(LocalMethod::Hashrate)
    } else if str_eq(method, "eth_mining") {
        Some(LocalMethod::Mining)
    } else if str_eq(method, "eth_syncing") {
        Some(LocalMethod::Syncing)
    } else if str_eq(method, "net_listening") {
        Some(LocalMethod::NetListening)
    } else if str_eq(method, "net_peerCount") {
        Some(LocalMethod::NetPeerCount)
    } else if str_eq(method, "web3_clientVersion") {
        Some(LocalMethod::ClientVersion)
    } else if str_eq(method, "web3_sha3") {
        Some(LocalMethod::Sha3)
    } else {
        None
    }
}

/// The class of a method.
pub fn classify(method: &str) -> (class: MethodClass)
    ensures
        class == method_class(method@),
{
    if blocked(method) {
        return MethodClass::Blocked;
    }
    if not_implemented(method) {
        return MethodClass::NotImplemented;
    }
    match local(method) {
        Some(which) => {
            return MethodClass::Local(which);
        },
        None => {},
    }
    if str_eq(method, "eth_subscribe") || str_eq(method, "eth_unsubscribe") {
        MethodClass::Subscription
    } else if str_eq(method, "eth_sendRawTransaction") {
        MethodClass::PrivateFanout
    } else if str_eq(method, "eth_getTransactionByHash") || str_eq(
        method,
        "eth_getTransactionReceipt",
    ) {
        MethodClass::RaceFanout
    } else {
        MethodClass::Cached
    }
}

} // verus!
