//! Compute units: what a request costs, by its method and by the size of
//! what it returns.

use vstd::prelude::*;
use crate::text::{chars_of, str_eq};

verus! {

/// A decimal number: `mantissa` divided by ten to the power of `scale`.
#[derive(Debug, Clone, Copy, PartialEq, Eq, Structural)]
pub struct Decimal {
    pub mantissa: i128,
    pub scale: u32,
}

/// The product of two decimal numbers as `rust_decimal` computes it, each
/// given by its mantissa and its scale; none where a factor or the
/// product is more than `rust_decimal` holds.
pub uninterp spec fn decimal_product(
    a_mantissa: i128,
    a_scale: u32,
    b_mantissa: i128,
    b_scale: u32,
) -> Option<(i128, u32)>;

/// The product of two decimal numbers.
pub open spec fn product(a: Decimal, b: Decimal) -> Option<Decimal> {
    match decimal_product(a.mantissa, a.scale, b.mantissa, b.scale) {
        Some(p) => Some(Decimal { mantissa: p.0, scale: p.1 }),
        None => None,
    }
}

/// The product of two decimal numbers.
///
/// Trusted: `Decimal::checked_mul` of `rust_decimal`, on the two numbers
/// that `Decimal::try_from_i128_with_scale` makes of the mantissas and
/// scales; the result is read back with `mantissa` and `scale`. The
/// contract gives the result its name and claims nothing more of it.
#[verifier::external_body]
fn multiply(a: Decimal, b: Decimal) -> (result: Option<Decimal>)
    ensures
        result == (match decimal_product(a.mantissa, a.scale, b.mantissa, b.scale) {
            Some(p) => Some(Decimal { mantissa: p.0, scale: p.1 }),
            None => None,
        }),
{
    let x = rust_decimal::Decimal::try_from_i128_with_scale(a.mantissa, a.scale).ok()?;
    let y = rust_decimal::Decimal::try_from_i128_with_scale(b.mantissa, b.scale).ok()?;
    let p = x.checked_mul(y)?;
    Some(Decimal { mantissa: p.mantissa(), scale: p.scale() })
}

/// What a request costs, in compute units.
#[derive(Debug, Clone, Copy, PartialEq, Eq, Structural)]
pub struct ComputeUnit(pub Decimal);

/// The compute units of a method on a chain, for the methods that are
/// priced.
pub open spec fn priced(method: Seq<char>, chain_id: u64) -> Option<nat> {
    if chain_id == 1101 && method == "zkevm_batchNumber"@ {
        Some(0)
    } else if chain_id == 1101 && method == "zkevm_batchNumberByBlockNumber"@ {
        Some(0)
    } else if chain_id == 1101 && method == "zkevm_consolidatedBlockNumber"@ {
        Some(0)
    } else if chain_id == 1101 && method == "zkevm_getBatchByNumber"@ {
        Some(0)
    } else if chain_id == 1101 && method == "zkevm_getBroadcastURI"@ {
        Some(0)
    } else if chain_id == 1101 && method == "zkevm_isBlockConsolidated"@ {
        Some(0)
    } else if chain_id == 1101 && method == "zkevm_isBlockVirtualized"@ {
        Some(0)
    } else if chain_id == 1101 && method == "zkevm_verifiedBatchNumber"@ {
        Some(0)
    } else if chain_id == 1101 && method == "zkevm_virtualBatchNumber"@ {
        Some(0)
    } else if chain_id == 137 && method == "bor_getAuthor"@ {
        Some(10)
    } else if chain_id == 137 && method == "bor_getCurrentProposer"@ {
        Some(10)
    } else if chain_id == 137 && method == "bor_getCurrentValidators"@ {
        Some(10)
    } else if chain_id == 137 && method == "bor_getRootHash"@ {
        Some(10)
    } else if chain_id == 137 && method == "bor_getSignersAtHash"@ {
        Some(10)
    } else if method == "debug_traceBlockByHash"@ {
        Some(497)
    } else if method == "debug_traceBlockByNumber"@ {
        Some(497)
    } else if method == "debug_traceCall"@ {
        Some(309)
    } else if method == "debug_traceTransaction"@ {
        Some(309)
    } else if method == "erigon_forks"@ {
        Some(24)
    } else if method == "erigon_getHeaderByHash"@ {
        Some(24)
    } else if method == "erigon_getHeaderByNumber"@ {
        Some(24)
    } else if method == "erigon_getLogsByHash"@ {
        Some(24)
    } else if method == "erigon_issuance"@ {
        Some(24)
    } else if method == "eth_accounts"@ {
        Some(10)
    } else if method == "eth_blockNumber"@ {
        Some(10)
    } else if method == "eth_call"@ {
        Some(26)
    } else if method == "eth_chainId"@ {
        Some(0)
    } else if method == "eth_createAccessList"@ {
        Some(10)
    } else if method == "eth_estimateGas"@ {
        Some(87)
    } else if method == "eth_estimateUserOperationGas"@ {
        Some(500)
    } else if method == "eth_feeHistory"@ {
        Some(10)
    } else if method == "eth_gasPrice"@ {
        Some(19)
    } else if method == "eth_getBalance"@ {
        Some(19)
    } else if method == "eth_getBlockByHash"@ {
        Some(21)
    } else if method == "eth_getBlockByNumber"@ {
        Some(16)
    } else if method == "eth_getBlockReceipts"@ {
        Some(500)
    } else if method == "eth_getBlockTransactionCountByHash"@ {
        Some(20)
    } else if method == "eth_getBlockTransactionCountByNumber"@ {
        Some(20)
    } else if method == "eth_getCode"@ {
        Some(19)
    } else if method == "eth_getFilterChanges"@ {
        Some(20)
    } else if method == "eth_getFilterLogs"@ {
        Some(75)
    } else if method == "eth_getLogs"@ {
        Some(75)
    } else if method == "eth_getProof"@ {
        Some(21)
    } else if method == "eth_getStorageAt"@ {
        Some(17)
    } else if method == "eth_getTransactionByBlockHashAndIndex"@ {
        Some(15)
    } else if method == "eth_getTransactionByBlockNumberAndIndex"@ {
        Some(15)
    } else if method == "eth_getTransactionByHash"@ {
        Some(17)
    } else if method == "eth_getTransactionCount"@ {
        Some(26)
    } else if method == "eth_getTransactionReceipt"@ {
        Some(15)
    } else if method == "eth_getUncleByBlockHashAndIndex"@ {
        Some(15)
    } else if method == "eth_getUncleByBlockNumberAndIndex"@ {
        Some(15)
    } else if method == "eth_getUncleCountByBlockHash"@ {
        Some(15)
    } else if method == "eth_getUncleCountByBlockNumber"@ {
        Some(15)
    } else if method == "eth_getUserOperationByHash"@ {
        Some(17)
    } else if method == "eth_getUserOperationReceipt"@ {
        Some(15)
    } else if method == "eth_maxPriorityFeePerGas"@ {
        Some(10)
    } else if method == "eth_newBlockFilter"@ {
        Some(20)
    } else if method == "eth_newFilter"@ {
        Some(20)
    } else if method == "eth_newPendingTransactionFilter"@ {
        Some(20)
    } else if method == "eth_protocolVersion"@ {
        Some(0)
    } else if method == "eth_sendRawTransaction"@ {
        Some(250)
    } else if method == "eth_sendUserOperation"@ {
        Some(1000)
    } else if method == "eth_subscribe"@ {
        Some(10)
    } else if method == "eth_supportedEntryPoints"@ {
        Some(5)
    } else if method == "eth_syncing"@ {
        Some(0)
    } else if method == "eth_uninstallFilter"@ {
        Some(10)
    } else if method == "eth_unsubscribe"@ {
        Some(10)
    } else if method == "net_listening"@ {
        Some(0)
    } else if method == "net_version"@ {
        Some(0)
    } else if method == "test"@ {
        Some(0)
    } else if method == "trace_block"@ {
        Some(24)
    } else if method == "trace_call"@ {
        Some(75)
    } else if method == "trace_filter"@ {
        Some(75)
    } else if method == "trace_get"@ {
        Some(17)
    } else if method == "trace_rawTransaction"@ {
        Some(75)
    } else if method == "trace_replayBlockTransactions"@ {
        Some(2983)
    } else if method == "trace_replayTransaction"@ {
        Some(2983)
    } else if method == "trace_transaction"@ {
        Some(26)
    } else if method == "web3_clientVersion"@ {
        Some(15)
    } else if method == "web3_sha3"@ {
        Some(15)
    } else {
        None
    }
}

/// Whether the method is that of a subscription: its name ends with a
/// closing bracket.
pub open spec fn is_subscription(method: Seq<char>) -> bool {
    method.len() > 0 && method.last() == ')'
}

/// The compute units of a response to a subscription: the product of the
/// number of its bytes and four hundredths of a unit. None where the
/// product is more than a decimal number holds.
pub open spec fn subscription_units(num_bytes: u64) -> Option<Decimal> {
    product(Decimal { mantissa: num_bytes as i128, scale: 0 }, Decimal { mantissa: 4, scale: 2 })
}

/// The compute units of a request: those of its bytes for the response to
/// a subscription; the price of the method where it has one; and two
/// units for any other method.
pub open spec fn compute_units(method: Seq<char>, chain_id: u64, response_bytes: u64) -> Option<
    Decimal,
> {
    if is_subscription(method) {
        subscription_units(response_bytes)
    } else {
        match priced(method, chain_id) {
            Some(units) => Some(Decimal { mantissa: units as i128, scale: 0 }),
            None => Some(Decimal { mantissa: 2, scale: 0 }),
        }
    }
}

/// What is paid for the units at `usd_per_cu` a unit: two and a half times
/// as much for a request to an archive, and a quarter less for a response
/// from the cache. None where a product is more than a decimal number
/// holds.
pub open spec fn cost_of(units: Decimal, archive_request: bool, cache_hit: bool, usd_per_cu: Decimal) -> Option<
    Decimal,
> {
    match product(units, usd_per_cu) {
        None => None,
        Some(plain) => {
            let archived = if archive_request {
                product(plain, Decimal { mantissa: 25, scale: 1 })
            } else {
                Some(plain)
            };
            match archived {
                None => None,
                Some(full) => if cache_hit {
                    product(full, Decimal { mantissa: 75, scale: 2 })
                } else {
                    Some(full)
                },
            }
        },
    }
}

fn price(method: &str, chain_id: u64) -> (units: Option<u16>)
    ensures
        priced(method@, chain_id) == (match units {
            Some(u) => Some(u as nat),
            None => None,
        }),
{
    if chain_id == 1101 && str_eq(method, "zkevm_batchNumber") {
        Some(0)
    } else if chain_id == 1101 && str_eq(method, "zkevm_batchNumberByBlockNumber") {
        Some(0)
    } else if chain_id == 1101 && str_eq(method, "zkevm_consolidatedBlockNumber") {
        Some(0)
    } else if chain_id == 1101 && str_eq(method, "zkevm_getBatchByNumber") {
        Some(0)
    } else if chain_id == 1101 && str_eq(method, "zkevm_getBroadcastURI") {
        Some(0)
    } else if chain_id == 1101 && str_eq(method, "zkevm_isBlockConsolidated") {
        Some(0)
    } else if chain_id == 1101 && str_eq(method, "zkevm_isBlockVirtualized") {
        Some(0)
    } else if chain_id == 1101 && str_eq(method, "zkevm_verifiedBatchNumber") {
        Some(0)
    } else if chain_id == 1101 && str_eq(method, "zkevm_virtualBatchNumber") {
        Some(0)
    } else if chain_id == 137 && str_eq(method, "bor_getAuthor") {
        Some(10)
    } else if chain_id == 137 && str_eq(method, "bor_getCurrentProposer") {
        Some(10)
    } else if chain_id == 137 && str_eq(method, "bor_getCurrentValidators") {
        Some(10)
    } else if chain_id == 137 && str_eq(method, "bor_getRootHash") {
        Some(10)
    } else if chain_id == 137 && str_eq(method, "bor_getSignersAtHash") {
        Some(10)
    } else if str_eq(method, "debug_traceBlockByHash") {
        Some(497)
    } else if str_eq(method, "debug_traceBlockByNumber") {
        Some(497)
    } else if str_eq(method, "debug_traceCall") {
        Some(309)
    } else if str_eq(method, "debug_traceTransaction") {
        Some(309)
    } else if str_eq(method, "erigon_forks") {
        Some(24)
    } else if str_eq(method, "erigon_getHeaderByHash") {
        Some(24)
    } else if str_eq(method, "erigon_getHeaderByNumber") {
        Some(24)
    } else if str_eq(method, "erigon_getLogsByHash") {
        Some(24)
    } else if str_eq(method, "erigon_issuance") {
        Some(24)
    } else if str_eq(method, "eth_accounts") {
        Some(10)
    } else if str_eq(method, "eth_blockNumber") {
        Some(10)
    } else if str_eq(method, "eth_call") {
        Some(26)
    } else if str_eq(method, "eth_chainId") {
        Some(0)
    } else if str_eq(method, "eth_createAccessList") {
        Some(10)
    } else if str_eq(method, "eth_estimateGas") {
        Some(87)
    } else if str_eq(method, "eth_estimateUserOperationGas") {
        Some(500)
    } else if str_eq(method, "eth_feeHistory") {
        Some(10)
    } else if str_eq(method, "eth_gasPrice") {
        Some(19)
    } else if str_eq(method, "eth_getBalance") {
        Some(19)
    } else if str_eq(method, "eth_getBlockByHash") {
        Some(21)
    } else if str_eq(method, "eth_getBlockByNumber") {
        Some(16)
    } else if str_eq(method, "eth_getBlockReceipts") {
        Some(500)
    } else if str_eq(method, "eth_getBlockTransactionCountByHash") {
        Some(20)
    } else if str_eq(method, "eth_getBlockTransactionCountByNumber") {
        Some(20)
    } else if str_eq(method, "eth_getCode") {
        Some(19)
    } else if str_eq(method, "eth_getFilterChanges") {
        Some(20)
    } else if str_eq(method, "eth_getFilterLogs") {
        Some(75)
    } else if str_eq(method, "eth_getLogs") {
        Some(75)
    } else if str_eq(method, "eth_getProof") {
        Some(21)
    } else if str_eq(method, "eth_getStorageAt") {
        Some(17)
    } else if str_eq(method, "eth_getTransactionByBlockHashAndIndex") {
        Some(15)
    } else if str_eq(method, "eth_getTransactionByBlockNumberAndIndex") {
        Some(15)
    } else if str_eq(method, "eth_getTransactionByHash") {
        Some(17)
    } else if str_eq(method, "eth_getTransactionCount") {
        Some(26)
    } else if str_eq(method, "eth_getTransactionReceipt") {
        Some(15)
    } else if str_eq(method, "eth_getUncleByBlockHashAndIndex") {
        Some(15)
    } else if str_eq(method, "eth_getUncleByBlockNumberAndIndex") {
        Some(15)
    } else if str_eq(method, "eth_getUncleCountByBlockHash") {
        Some(15)
    } else if str_eq(method, "eth_getUncleCountByBlockNumber") {
        Some(15)
    } else if str_eq(method, "eth_getUserOperationByHash") {
        Some(17)
    } else if str_eq(method, "eth_getUserOperationReceipt") {
        Some(15)
    } else if str_eq(method, "eth_maxPriorityFeePerGas") {
        Some(10)
    } else if str_eq(method, "eth_newBlockFilter") {
        Some(20)
    } else if str_eq(method, "eth_newFilter") {
        Some(20)
    } else if str_eq(method, "eth_newPendingTransactionFilter") {
        Some(20)
    } else if str_eq(method, "eth_protocolVersion") {
        Some(0)
    } else if str_eq(method, "eth_sendRawTransaction") {
        Some(250)
    } else if str_eq(method, "eth_sendUserOperation") {
        Some(1000)
    } else if str_eq(method, "eth_subscribe") {
        Some(10)
    } else if str_eq(method, "eth_supportedEntryPoints") {
        Some(5)
    } else if str_eq(method, "eth_syncing") {
        Some(0)
    } else if str_eq(method, "eth_uninstallFilter") {
        Some(10)
    } else if str_eq(method, "eth_unsubscribe") {
        Some(10)
    } else if str_eq(method, "net_listening") {
        Some(0)
    } else if str_eq(method, "net_version") {
        Some(0)
    } else if str_eq(method, "test") {
        Some(0)
    } else if str_eq(method, "trace_block") {
        Some(24)
    } else if str_eq(method, "trace_call") {
        Some(75)
    } else if str_eq(method, "trace_filter") {
        Some(75)
    } else if str_eq(method, "trace_get") {
        Some(17)
    } else if str_eq(method, "trace_rawTransaction") {
        Some(75)
    } else if str_eq(method, "trace_replayBlockTransactions") {
        Some(2983)
    } else if str_eq(method, "trace_replayTransaction") {
        Some(2983)
    } else if str_eq(method, "trace_transaction") {
        Some(26)
    } else if str_eq(method, "web3_clientVersion") {
        Some(15)
    } else if str_eq(method, "web3_sha3") {
        Some(15)
    } else {
        None
    }
}

impl ComputeUnit {
    /// costs can vary widely depending on method and chain
    pub fn new(method: &str, chain_id: u64, response_bytes: u64) -> (cu: Self)
        requires
            compute_units(method@, chain_id, response_bytes) is Some,
        ensures
            Some(cu.0) == compute_units(method@, chain_id, response_bytes),
    {
        let chars = chars_of(method);
        if chars.len() > 0 && chars[chars.len() - 1] == ')' {
            return Self::subscription_response(response_bytes);
        }
        match price(method, chain_id) {
            Some(units) => ComputeUnit(Decimal { mantissa: units as i128, scale: 0 }),
            None => Self::unimplemented(),
        }
    }

    /// The compute units of a request, where they are no more than a
    /// decimal number holds.
    pub fn checked_new(method: &str, chain_id: u64, response_bytes: u64) -> (cu: Option<Self>)
        ensures
            compute_units(method@, chain_id, response_bytes) == (match cu {
                Some(units) => Some(units.0),
                None => None,
            }),
    {
        let chars = chars_of(method);
        if chars.len() > 0 && chars[chars.len() - 1] == ')' {
            return Self::checked_subscription_response(response_bytes);
        }
        Some(Self::new(method, chain_id, response_bytes))
    }

    /// notifications and subscription responses cost per-byte
    pub fn subscription_response(num_bytes: u64) -> (cu: Self)
        requires
            subscription_units(num_bytes) is Some,
        ensures
            Some(cu.0) == subscription_units(num_bytes),
    {
        match Self::checked_subscription_response(num_bytes) {
            Some(cu) => cu,
            None => vstd::pervasive::unreached(),
        }
    }

    /// The compute units of a response to a subscription, where they are
    /// no more than a decimal number holds.
    pub fn checked_subscription_response(num_bytes: u64) -> (cu: Option<Self>)
        ensures
            subscription_units(num_bytes) == (match cu {
                Some(units) => Some(units.0),
                None => None,
            }),
    {
        let bytes = Decimal { mantissa: num_bytes as i128, scale: 0 };
        match multiply(bytes, Decimal { mantissa: 4, scale: 2 }) {
            Some(units) => Some(ComputeUnit(units)),
            None => None,
        }
    }

    /// requesting an unimplemented function costs 2 CU
    pub fn unimplemented() -> (cu: Self)
        ensures
            cu.0 == (Decimal { mantissa: 2, scale: 0 }),
    {
        ComputeUnit(Decimal { mantissa: 2, scale: 0 })
    }

    /// Compute cost per request
    /// All methods cost the same
    /// The number of bytes are based on input, and output bytes
    pub fn cost(
        &self,
        archive_request: bool,
        cache_hit: bool,
        usd_per_cu: Decimal,
    ) -> (cost: Decimal)
        requires
            cost_of(self.0, archive_request, cache_hit, usd_per_cu) is Some,
        ensures
            Some(cost) == cost_of(self.0, archive_request, cache_hit, usd_per_cu),
    {
        let plain = match multiply(self.0, usd_per_cu) {
            Some(p) => p,
            None => vstd::pervasive::unreached(),
        };
        let full = if archive_request {
            match multiply(plain, Decimal { mantissa: 25, scale: 1 }) {
                Some(p) => p,
                None => vstd::pervasive::unreached(),
            }
        } else {
            plain
        };
        if cache_hit {
            match multiply(full, Decimal { mantissa: 75, scale: 2 }) {
                Some(p) => p,
                None => vstd::pervasive::unreached(),
            }
        } else {
            full
        }
    }

    /// Whether the cost of the request is no more than a decimal number
    /// holds.
    fn has_cost(&self, archive_request: bool, cache_hit: bool, usd_per_cu: Decimal) -> (b: bool)
        ensures
            b == (cost_of(self.0, archive_request, cache_hit, usd_per_cu) is Some),
    {
        match multiply(self.0, usd_per_cu) {
            None => false,
            Some(plain) => {
                let full = if archive_request {
                    multiply(plain, Decimal { mantissa: 25, scale: 1 })
                } else {
                    Some(plain)
                };
                match full {
                    None => false,
                    Some(full) => !cache_hit || multiply(
                        full,
                        Decimal { mantissa: 75, scale: 2 },
                    ).is_some(),
                }
            },
        }
    }

    /// The cost of the request, where it is no more than a decimal number
    /// holds.
    pub fn checked_cost(&self, archive_request: bool, cache_hit: bool, usd_per_cu: Decimal) -> (cost:
        Option<Decimal>)
        ensures
            cost == cost_of(self.0, archive_request, cache_hit, usd_per_cu),
    {
        if self.has_cost(archive_request, cache_hit, usd_per_cu) {
            Some(self.cost(archive_request, cache_hit, usd_per_cu))
        } else {
            None
        }
    }
}

} // verus!
