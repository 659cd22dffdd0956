use web3_proxy::compute_units::{ComputeUnit, Decimal};

fn whole(n: i128) -> Decimal {
    Decimal { mantissa: n, scale: 0 }
}

#[test]
fn priced_methods() {
    assert_eq!(ComputeUnit::new("eth_call", 1, 0).0, whole(26));
    assert_eq!(ComputeUnit::new("eth_chainId", 1, 0).0, whole(0));
    assert_eq!(ComputeUnit::new("eth_sendRawTransaction", 1, 0).0, whole(250));
    assert_eq!(ComputeUnit::new("trace_replayTransaction", 1, 0).0, whole(2983));
    assert_eq!(ComputeUnit::new("eth_sendUserOperation", 1, 0).0, whole(1000));
    assert_eq!(ComputeUnit::new("web3_sha3", 5, 100).0, whole(15));
}

#[test]
fn methods_priced_on_one_chain() {
    assert_eq!(ComputeUnit::new("zkevm_batchNumber", 1101, 0).0, whole(0));
    assert_eq!(ComputeUnit::new("zkevm_batchNumber", 1, 0).0, whole(2));
    assert_eq!(ComputeUnit::new("bor_getAuthor", 137, 0).0, whole(10));
    assert_eq!(ComputeUnit::new("bor_getAuthor", 1101, 0).0, whole(2));
}

#[test]
fn unpriced_methods_cost_two_units() {
    assert_eq!(ComputeUnit::new("eth_pollSubscriptions", 1, 0).0, whole(2));
    assert_eq!(ComputeUnit::new("no_such_method", 1, 0).0, whole(2));
    assert_eq!(ComputeUnit::new("", 1, 0).0, whole(2));
    assert_eq!(ComputeUnit::unimplemented().0, whole(2));
}

#[test]
fn subscriptions_cost_by_the_byte() {
    assert_eq!(
        ComputeUnit::new("eth_subscribe(newHeads)", 1, 100).0,
        Decimal { mantissa: 400, scale: 2 }
    );
    assert_eq!(ComputeUnit::subscription_response(25).0, Decimal { mantissa: 100, scale: 2 });
    assert_eq!(ComputeUnit::subscription_response(1).0, Decimal { mantissa: 4, scale: 2 });
    assert_eq!(ComputeUnit::subscription_response(0).0, Decimal { mantissa: 0, scale: 0 });
    assert_eq!(
        value(ComputeUnit::subscription_response(250).0),
        rust_decimal::Decimal::from(250) * rust_decimal::Decimal::new(4, 2)
    );
    assert_eq!(
        ComputeUnit::subscription_response(u64::MAX).0,
        Decimal { mantissa: u64::MAX as i128 * 4, scale: 2 }
    );
}

fn value(d: Decimal) -> rust_decimal::Decimal {
    rust_decimal::Decimal::from_i128_with_scale(d.mantissa, d.scale)
}

#[test]
fn cost_of_a_plain_request() {
    let cu = ComputeUnit::new("eth_call", 1, 0);
    let usd = Decimal { mantissa: 5, scale: 1 };
    let cost = cu.checked_cost(false, false, usd).unwrap();
    assert_eq!(value(cost), rust_decimal::Decimal::new(13, 0));
    assert_eq!(cu.cost(false, false, usd), cost);
}

#[test]
fn archive_requests_cost_more_and_cache_hits_less() {
    let cu = ComputeUnit::new("eth_call", 1, 0);
    let usd = Decimal { mantissa: 5, scale: 1 };
    let archive = cu.checked_cost(true, false, usd).unwrap();
    assert_eq!(value(archive), rust_decimal::Decimal::new(325, 1));
    let cached = cu.checked_cost(false, true, usd).unwrap();
    assert_eq!(value(cached), rust_decimal::Decimal::new(975, 2));
    let both = cu.checked_cost(true, true, usd).unwrap();
    assert_eq!(value(both), rust_decimal::Decimal::new(24375, 3));
    assert_eq!(cu.cost(true, true, usd), both);
}

#[test]
fn cost_that_is_too_large_is_none() {
    let cu = ComputeUnit(Decimal { mantissa: 79_228_162_514_264_337_593_543_950_335, scale: 0 });
    assert_eq!(cu.checked_cost(false, false, whole(2)), None);
    assert_eq!(cu.checked_cost(false, false, Decimal { mantissa: 1, scale: 99 }), None);
    let beyond = ComputeUnit(Decimal { mantissa: i128::MAX, scale: 0 });
    assert_eq!(beyond.checked_cost(false, false, whole(1)), None);
}

#[test]
fn units_are_given_where_a_decimal_number_holds_them() {
    assert_eq!(ComputeUnit::checked_new("eth_call", 1, 0), Some(ComputeUnit(whole(26))));
    assert_eq!(ComputeUnit::checked_new("no_such_method", 1, 0), Some(ComputeUnit(whole(2))));
    assert_eq!(
        ComputeUnit::checked_new("eth_subscribe(newHeads)", 1, 100),
        Some(ComputeUnit(Decimal { mantissa: 400, scale: 2 }))
    );
    assert_eq!(
        ComputeUnit::checked_subscription_response(u64::MAX),
        Some(ComputeUnit(Decimal { mantissa: u64::MAX as i128 * 4, scale: 2 }))
    );
    assert_eq!(ComputeUnit::checked_subscription_response(0), Some(ComputeUnit(whole(0))));
}
