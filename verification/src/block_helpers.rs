//! The block that a request refers to.
//!
//! Many methods take a block parameter: a tag such as `latest` or the
//! number of a block as a quantity. The proxy works out the least block
//! that a backend must have to serve the request, and writes the number of
//! the head in place of the tag `latest`, so that requests that mean the
//! same block read the same.

use vstd::prelude::*;
use crate::json::{JsonMember, JsonMemberModel, JsonModel, JsonValue};
use crate::text::{chars_of, digit_char, hex_quantity, hexadecimal, str_eq, u64_to_hex_quantity};

verus! {

/// The value of a hexadecimal digit, in either case.
pub open spec fn hex_digit_value(c: char) -> Option<nat> {
    if '0' <= c <= '9' {
        Some((c as u32 - '0' as u32) as nat)
    } else if 'a' <= c <= 'f' {
        Some((c as u32 - 'a' as u32 + 10) as nat)
    } else if 'A' <= c <= 'F' {
        Some((c as u32 - 'A' as u32 + 10) as nat)
    } else {
        None
    }
}

/// The number that hexadecimal digits stand for; none where one of them is
/// no hexadecimal digit. No digits stand for zero.
pub open spec fn hex_value(digits: Seq<char>) -> Option<nat>
    decreases digits.len(),
{
    if digits.len() == 0 {
        Some(0)
    } else {
        match (hex_value(digits.drop_last()), hex_digit_value(digits.last())) {
            (Some(high), Some(low)) => Some(high * 16 + low),
            _ => None,
        }
    }
}

/// The number that a quantity stands for: `0x` and at least one
/// hexadecimal digit, read as a number that fits in 64 bits.
pub open spec fn quantity_value(text: Seq<char>) -> Option<nat> {
    if text.len() >= 3 && text[0] == '0' && text[1] == 'x' {
        match hex_value(text.skip(2)) {
            Some(n) if n <= u64::MAX => Some(n),
            _ => None,
        }
    } else {
        None
    }
}

/// Whether the text is one of the tags that stand for the head of the
/// chain.
pub open spec fn is_block_tag(text: Seq<char>) -> bool {
    text == "latest"@ || text == "pending"@ || text == "earliest"@ || text == "safe"@ || text
        == "finalized"@
}

/// The block that a block parameter means, the head being at `head`: the
/// head for a tag, the number for a quantity, and none for anything else.
pub open spec fn resolved_block(param: JsonModel, head: nat) -> Option<nat> {
    match param {
        JsonModel::Text(text) => if is_block_tag(text) {
            Some(head)
        } else {
            quantity_value(text)
        },
        _ => None,
    }
}

/// The block parameter as it is sent on: the number of the head in place
/// of the tag `latest`, and everything else as it is.
pub open spec fn rewritten_block(param: JsonModel, head: nat) -> JsonModel {
    if param == JsonModel::Text("latest"@) {
        JsonModel::Text(hex_quantity(head))
    } else {
        param
    }
}

/// The place of the block parameter among the parameters of a method, for
/// the methods that have it at a fixed place.
pub open spec fn block_param_place(method: Seq<char>) -> Option<nat> {
    if method == "eth_getBlockByNumber"@ || method == "eth_getBlockTransactionCountByNumber"@
        || method == "eth_getTransactionByBlockNumberAndIndex"@ || method
        == "eth_getUncleByBlockNumberAndIndex"@ || method == "eth_getUncleCountByBlockNumber"@ {
        Some(0)
    } else if method == "eth_call"@ || method == "eth_estimateGas"@ || method == "eth_getBalance"@
        || method == "eth_getCode"@ || method == "eth_getTransactionCount"@ {
        Some(1)
    } else if method == "eth_getStorageAt"@ || method == "eth_getProof"@ {
        Some(2)
    } else {
        None
    }
}

/// The value of the first member called `name`, if there is one.
pub open spec fn member_value(members: Seq<JsonMemberModel>, name: Seq<char>) -> Option<JsonModel>
    decreases members.len(),
{
    if members.len() == 0 {
        None
    } else if members.first().name == name {
        Some(members.first().value)
    } else {
        member_value(members.drop_first(), name)
    }
}

/// The block that one end of a log filter means: the head where the end is
/// not given or cannot be read.
pub open spec fn filter_end(members: Seq<JsonMemberModel>, name: Seq<char>, head: nat) -> nat {
    match member_value(members, name) {
        Some(value) => match resolved_block(value, head) {
            Some(n) => n,
            None => head,
        },
        None => head,
    }
}

/// The block that a log filter needs: the greater of its two ends; none
/// where the filter names a block by its hash.
pub open spec fn filter_block(members: Seq<JsonMemberModel>, head: nat) -> Option<nat> {
    if member_value(members, "blockHash"@) is Some {
        None
    } else {
        let from = filter_end(members, "fromBlock"@, head);
        let to = filter_end(members, "toBlock"@, head);
        Some(if from >= to {
            from
        } else {
            to
        })
    }
}

/// The members of a log filter as they are sent on: the ends that are the
/// tag `latest` hold the number of the head.
pub open spec fn rewritten_filter(
    members: Seq<JsonMemberModel>,
    head: nat,
) -> Seq<JsonMemberModel> {
    Seq::new(
        members.len(),
        |i: int|
            if members[i].name == "fromBlock"@ || members[i].name == "toBlock"@ {
                JsonMemberModel {
                    name: members[i].name,
                    value: rewritten_block(members[i].value, head),
                }
            } else {
                members[i]
            },
    )
}

/// The least block that a backend must have to serve the request, the
/// head being at `head`; none where the request names no block.
pub open spec fn block_needed_spec(method: Seq<char>, params: Option<JsonModel>, head: nat) -> Option<
    nat,
> {
    match params {
        Some(JsonModel::Array(items)) => if method == "eth_getLogs"@ {
            if items.len() >= 1 {
                match items[0] {
                    JsonModel::Object(members) => filter_block(members, head),
                    _ => None,
                }
            } else {
                None
            }
        } else {
            match block_param_place(method) {
                Some(place) => if place < items.len() {
                    resolved_block(items[place as int], head)
                } else {
                    Some(head)
                },
                None => None,
            }
        },
        _ => None,
    }
}

/// The parameters as they are sent on and as the cache key holds them: a
/// block parameter that is the tag `latest` holds the number of the head.
pub open spec fn normalized_params(method: Seq<char>, params: Option<JsonModel>, head: nat) -> Option<
    JsonModel,
> {
    match params {
        Some(JsonModel::Array(items)) => if method == "eth_getLogs"@ {
            if items.len() >= 1 {
                match items[0] {
                    JsonModel::Object(members) => Some(
                        JsonModel::Array(
                            items.update(0, JsonModel::Object(rewritten_filter(members, head))),
                        ),
                    ),
                    _ => params,
                }
            } else {
                params
            }
        } else {
            match block_param_place(method) {
                Some(place) => if place < items.len() {
                    Some(
                        JsonModel::Array(
                            items.update(
                                place as int,
                                rewritten_block(items[place as int], head),
                            ),
                        ),
                    )
                } else {
                    params
                },
                None => params,
            }
        },
        _ => params,
    }
}

fn digit_value(c: char) -> (value: Option<u64>)
    ensures
        hex_digit_value(c) == (match value {
            Some(v) => Some(v as nat),
            None => None,
        }),
        value matches Some(v) ==> v < 16,
{
    if '0' <= c && c <= '9' {
        Some((c as u32 - '0' as u32) as u64)
    } else if 'a' <= c && c <= 'f' {
        Some((c as u32 - 'a' as u32 + 10) as u64)
    } else if 'A' <= c && c <= 'F' {
        Some((c as u32 - 'A' as u32 + 10) as u64)
    } else {
        None
    }
}

proof fn lemma_hex_value_grows(digits: Seq<char>, n: int)
    requires
        0 <= n <= digits.len(),
        hex_value(digits) is Some,
    ensures
        hex_value(digits.take(n)) is Some,
        hex_value(digits.take(n))->0 <= hex_value(digits)->0,
    decreases digits.len() - n,
{
    if n < digits.len() {
        lemma_hex_value_grows(digits, n + 1);
        assert(digits.take(n + 1).drop_last() =~= digits.take(n));
    } else {
        assert(digits.take(n) =~= digits);
    }
}

proof fn lemma_hex_value_fails(digits: Seq<char>, n: int)
    requires
        0 <= n <= digits.len(),
        hex_value(digits.take(n)) is None,
    ensures
        hex_value(digits) is None,
    decreases digits.len() - n,
{
    if n < digits.len() {
        assert(digits.take(n + 1).drop_last() =~= digits.take(n));
        lemma_hex_value_fails(digits, n + 1);
    } else {
        assert(digits.take(n) =~= digits);
    }
}

/// The number that a quantity stands for.
pub fn parse_quantity(text: &str) -> (value: Option<u64>)
    ensures
        quantity_value(text@) == (match value {
            Some(v) => Some(v as nat),
            None => None,
        }),
{
    let chars = chars_of(text);
    if chars.len() < 3 || chars[0] != '0' || chars[1] != 'x' {
        return None;
    }
    let ghost digits = text@.skip(2);
    let mut value: u64 = 0;
    let mut i: usize = 2;
    assert(digits.take(0) =~= Seq::<char>::empty());
    while i < chars.len()
        invariant
            2 <= i <= chars.len(),
            chars@ == text@,
            digits == text@.skip(2),
            hex_value(digits.take(i - 2)) == Some(value as nat),
        decreases chars.len() - i,
    {
        assert(digits.take(i - 1).drop_last() =~= digits.take(i - 2));
        assert(digits.take(i - 1).last() == chars[i as int]);
        match digit_value(chars[i]) {
            Some(d) => {
                if value > (u64::MAX - d) / 16 {
                    proof {
                        if hex_value(digits) is Some {
                            lemma_hex_value_grows(digits, i - 1);
                        }
                    }
                    return None;
                }
                value = value * 16 + d;
            },
            None => {
                proof {
                    lemma_hex_value_fails(digits, i - 1);
                }
                return None;
            },
        }
        i += 1;
    }
    assert(digits.take(chars.len() - 2) =~= digits);
    Some(value)
}

/// A quantity stands for the number it was written from.
pub proof fn lemma_quantity_round_trip(n: nat)
    requires
        n <= u64::MAX,
    ensures
        quantity_value(hex_quantity(n)) == Some(n),
{
    lemma_hexadecimal_value(n);
    assert(hex_quantity(n).skip(2) =~= hexadecimal(n));
}

proof fn lemma_hexadecimal_value(n: nat)
    ensures
        hexadecimal(n).len() >= 1,
        hex_value(hexadecimal(n)) == Some(n),
    decreases n,
{
    let digits = hexadecimal(n);
    if n < 16 {
        assert(digits.drop_last() =~= Seq::<char>::empty());
        assert(digits.last() == digit_char(n as int));
        assert(hex_value(digits.drop_last()) == Some(0nat));
        assert(hex_digit_value(digit_char(n as int)) == Some(n));
    } else {
        lemma_hexadecimal_value(n / 16);
        assert(digits.drop_last() =~= hexadecimal(n / 16));
        assert(digits.last() == digit_char((n % 16) as int));
        assert(hex_digit_value(digit_char((n % 16) as int)) == Some(n % 16));
        assert((n / 16) * 16 + n % 16 == n);
    }
}

fn is_tag(text: &str) -> (b: bool)
    ensures
        b == is_block_tag(text@),
{
    str_eq(text, "latest") || str_eq(text, "pending") || str_eq(text, "earliest") || str_eq(
        text,
        "safe",
    ) || str_eq(text, "finalized")
}

/// The block that a block parameter means, the head being at `head`.
pub fn resolve_block(param: &JsonValue, head: u64) -> (block: Option<u64>)
    ensures
        resolved_block(param@, head as nat) == (match block {
            Some(b) => Some(b as nat),
            None => None,
        }),
{
    match param {
        JsonValue::Text(text) => {
            if is_tag(text.as_str()) {
                Some(head)
            } else {
                parse_quantity(text.as_str())
            }
        },
        _ => None,
    }
}

/// The block parameter as it is sent on.
pub fn rewrite_block(param: JsonValue, head: u64) -> (out: JsonValue)
    ensures
        out@ == rewritten_block(param@, head as nat),
{
    let latest = match &param {
        JsonValue::Text(text) => str_eq(text.as_str(), "latest"),
        _ => false,
    };
    if latest {
        JsonValue::Text(u64_to_hex_quantity(head))
    } else {
        param
    }
}

fn place_of_block_param(method: &str) -> (place: Option<usize>)
    ensures
        block_param_place(method@) == (match place {
            Some(p) => Some(p as nat),
            None => None,
        }),
{
    if str_eq(method, "eth_getBlockByNumber") || str_eq(
        method,
        "eth_getBlockTransactionCountByNumber",
    ) || str_eq(method, "eth_getTransactionByBlockNumberAndIndex") || str_eq(
        method,
        "eth_getUncleByBlockNumberAndIndex",
    ) || str_eq(method, "eth_getUncleCountByBlockNumber") {
        Some(0)
    } else if str_eq(method, "eth_call") || str_eq(method, "eth_estimateGas") || str_eq(
        method,
        "eth_getBalance",
    ) || str_eq(method, "eth_getCode") || str_eq(method, "eth_getTransactionCount") {
        Some(1)
    } else if str_eq(method, "eth_getStorageAt") || str_eq(method, "eth_getProof") {
        Some(2)
    } else {
        None
    }
}

spec fn member_models(members: Seq<JsonMember>) -> Seq<JsonMemberModel> {
    Seq::new(members.len(), |i: int| JsonMemberModel { name: members[i].name@, value: members[i].value@ })
}

/// Where the first member called `name` stands, if there is one.
fn find_member(members: &Vec<JsonMember>, name: &str) -> (place: Option<usize>)
    ensures
        match place {
            Some(p) => p < members.len() && member_value(member_models(members@), name@) == Some(
                members[p as int].value@,
            ),
            None => member_value(member_models(members@), name@) is None,
        },
{
    let ghost models = member_models(members@);
    let mut i: usize = 0;
    assert(models.skip(0) =~= models);
    while i < members.len()
        invariant
            i <= members.len(),
            models == member_models(members@),
            member_value(models, name@) == member_value(models.skip(i as int), name@),
        decreases members.len() - i,
    {
        assert(models.skip(i as int).drop_first() =~= models.skip(i + 1));
        assert(models.skip(i as int).first() == models[i as int]);
        if str_eq(members[i].name.as_str(), name) {
            return Some(i);
        }
        i += 1;
    }
    None
}

/// The value of the first member called `name` of an object; none for a
/// value that is no object.
pub open spec fn member_of(value: JsonModel, name: Seq<char>) -> Option<JsonModel> {
    match value {
        JsonModel::Object(members) => member_value(members, name),
        _ => None,
    }
}

/// The value of the first member called `name` of an object.
pub fn member<'a>(value: &'a JsonValue, name: &str) -> (found: Option<&'a JsonValue>)
    ensures
        member_of(value@, name@) == (match found {
            Some(v) => Some(v@),
            None => None,
        }),
{
    match value {
        JsonValue::Object(members) => {
            assert(value@->Object_0 =~= member_models(members@));
            match find_member(members, name) {
                Some(p) => Some(&members[p].value),
                None => None,
            }
        },
        _ => None,
    }
}

fn end_of_filter(members: &Vec<JsonMember>, name: &str, head: u64) -> (block: u64)
    ensures
        block == filter_end(member_models(members@), name@, head as nat),
{
    match find_member(members, name) {
        Some(p) => match resolve_block(&members[p].value, head) {
            Some(n) => n,
            None => head,
        },
        None => head,
    }
}

fn rewrite_filter(members: Vec<JsonMember>, head: u64) -> (out: Vec<JsonMember>)
    ensures
        member_models(out@) == rewritten_filter(member_models(members@), head as nat),
{
    let ghost models = member_models(members@);
    let mut members = members;
    let mut out: Vec<JsonMember> = Vec::new();
    let n = members.len();
    let mut i: usize = 0;
    while i < n
        invariant
            i <= n,
            n == models.len(),
            members.len() == n - i,
            member_models(members@) == models.skip(i as int),
            out.len() == i,
            forall|k: int| 0 <= k < i ==> #[trigger] member_models(out@)[k] == rewritten_filter(
                models,
                head as nat,
            )[k],
        decreases n - i,
    {
        let ghost rest = member_models(members@);
        let ghost done = member_models(out@);
        let member = members.remove(0);
        assert(member_models(members@) =~= rest.drop_first());
        assert(rest.drop_first() =~= models.skip(i + 1));
        assert(rest[0] == models[i as int]);
        let rewritten = if str_eq(member.name.as_str(), "fromBlock") || str_eq(
            member.name.as_str(),
            "toBlock",
        ) {
            JsonMember { name: member.name, value: rewrite_block(member.value, head) }
        } else {
            member
        };
        out.push(rewritten);
        assert forall|k: int| 0 <= k < i + 1 implies #[trigger] member_models(out@)[k]
            == rewritten_filter(models, head as nat)[k] by {
            if k < i {
                assert(member_models(out@)[k] == done[k]);
            }
        }
        i += 1;
    }
    assert(member_models(out@) =~= rewritten_filter(models, head as nat));
    out
}

/// The block that a log filter needs and the filter as it is sent on.
fn filter_needed(members: Vec<JsonMember>, head: u64) -> (out: (Option<u64>, JsonValue))
    ensures
        filter_block(member_models(members@), head as nat) == (match out.0 {
            Some(b) => Some(b as nat),
            None => None,
        }),
        out.1@ == JsonModel::Object(rewritten_filter(member_models(members@), head as nat)),
{
    let block = if find_member(&members, "blockHash").is_some() {
        None
    } else {
        let from = end_of_filter(&members, "fromBlock", head);
        let to = end_of_filter(&members, "toBlock", head);
        Some(if from >= to {
            from
        } else {
            to
        })
    };
    let rewritten = rewrite_filter(members, head);
    let filter = JsonValue::Object(rewritten);
    assert(filter@->Object_0 =~= member_models(rewritten@));
    (block, filter)
}

/// The block that the parameters of `eth_getLogs` need and the parameters
/// as they are sent on.
fn logs_needed(items: Vec<JsonValue>, head: u64) -> (out: (Option<u64>, JsonValue))
    ensures
        block_needed_spec("eth_getLogs"@, Some(JsonValue::Array(items)@), head as nat) == (match out.0 {
            Some(b) => Some(b as nat),
            None => None,
        }),
        normalized_params("eth_getLogs"@, Some(JsonValue::Array(items)@), head as nat) == Some(
            out.1@,
        ),
{
    let ghost models = JsonValue::Array(items)@->Array_0;
    let mut items = items;
    if items.len() == 0 {
        return (None, JsonValue::Array(items));
    }
    let first = items.remove(0);
    assert(first@ == models[0]);
    let ghost rest = JsonValue::Array(items)@->Array_0;
    assert(rest =~= models.drop_first());
    match first {
        JsonValue::Object(members) => {
            assert(models[0]->Object_0 =~= member_models(members@));
            let (block, filter) = filter_needed(members, head);
            items.insert(0, filter);
            let out = JsonValue::Array(items);
            assert(out@->Array_0 =~= models.update(0, filter@));
            (block, out)
        },
        other => {
            items.insert(0, other);
            let out = JsonValue::Array(items);
            assert(out@->Array_0 =~= models);
            (None, out)
        },
    }
}

/// The block that the parameter at `place` needs and the parameters as
/// they are sent on.
fn place_needed(items: Vec<JsonValue>, place: usize, head: u64) -> (out: (Option<u64>, JsonValue))
    ensures
        (match out.0 {
            Some(b) => Some(b as nat),
            None => None,
        }) == (if place < items.len() {
            resolved_block(JsonValue::Array(items)@->Array_0[place as int], head as nat)
        } else {
            Some(head as nat)
        }),
        out.1@ == (if place < items.len() {
            JsonModel::Array(
                JsonValue::Array(items)@->Array_0.update(
                    place as int,
                    rewritten_block(JsonValue::Array(items)@->Array_0[place as int], head as nat),
                ),
            )
        } else {
            JsonValue::Array(items)@
        }),
{
    let ghost models = JsonValue::Array(items)@->Array_0;
    let mut items = items;
    if place < items.len() {
        assert(items[place as int]@ == models[place as int]);
        let block = resolve_block(&items[place], head);
        let param = items.remove(place);
        let rewritten = rewrite_block(param, head);
        items.insert(place, rewritten);
        let out = JsonValue::Array(items);
        assert(out@->Array_0 =~= models.update(place as int, rewritten@));
        (block, out)
    } else {
        (Some(head), JsonValue::Array(items))
    }
}

/// Works out the least block that a backend must have to serve the
/// request, the head being at `head`, and the parameters as they are sent
/// on.
pub fn block_needed(method: &str, params: Option<JsonValue>, head: u64) -> (out: (
    Option<u64>,
    Option<JsonValue>,
))
    ensures
        block_needed_spec(
            method@,
            match params {
                Some(p) => Some(p@),
                None => None,
            },
            head as nat,
        ) == (match out.0 {
            Some(b) => Some(b as nat),
            None => None,
        }),
        normalized_params(
            method@,
            match params {
                Some(p) => Some(p@),
                None => None,
            },
            head as nat,
        ) == (match out.1 {
            Some(p) => Some(p@),
            None => None,
        }),
{
    match params {
        Some(JsonValue::Array(items)) => {
            if str_eq(method, "eth_getLogs") {
                let (block, out) = logs_needed(items, head);
                (block, Some(out))
            } else {
                match place_of_block_param(method) {
                    Some(place) => {
                        let (block, out) = place_needed(items, place, head);
                        (block, Some(out))
                    },
                    None => (None, Some(JsonValue::Array(items))),
                }
            }
        },
        other => (None, other),
    }
}

/// The method of log filters has its block parameter at no fixed place.
proof fn lemma_logs_have_no_place()
    ensures
        block_param_place("eth_getLogs"@) is None,
{
    reveal_strlit("eth_getLogs");
    reveal_strlit("eth_getBlockByNumber");
    reveal_strlit("eth_getBlockTransactionCountByNumber");
    reveal_strlit("eth_getTransactionByBlockNumberAndIndex");
    reveal_strlit("eth_getUncleByBlockNumberAndIndex");
    reveal_strlit("eth_getUncleCountByBlockNumber");
    reveal_strlit("eth_call");
    reveal_strlit("eth_estimateGas");
    reveal_strlit("eth_getBalance");
    reveal_strlit("eth_getCode");
    reveal_strlit("eth_getTransactionCount");
    reveal_strlit("eth_getStorageAt");
    reveal_strlit("eth_getProof");
    let logs = "eth_getLogs"@;
    assert(logs.len() == 11);
    assert(logs[7] == 'L');
    assert("eth_getBlockByNumber"@.len() == 20);
    assert("eth_getBlockTransactionCountByNumber"@.len() == 36);
    assert("eth_getTransactionByBlockNumberAndIndex"@.len() == 39);
    assert("eth_getUncleByBlockNumberAndIndex"@.len() == 33);
    assert("eth_getUncleCountByBlockNumber"@.len() == 30);
    assert("eth_call"@.len() == 8);
    assert("eth_estimateGas"@.len() == 15);
    assert("eth_getBalance"@.len() == 14);
    assert("eth_getCode"@[7] == 'C');
    assert("eth_getTransactionCount"@.len() == 23);
    assert("eth_getStorageAt"@.len() == 16);
    assert("eth_getProof"@.len() == 12);
}

/// Block-hash normalization: two requests for the same method whose
/// parameters differ only in the block parameter, the one holding the tag
/// `latest` and the other the number of the head, need the same block and
/// are sent on with the same parameters.
pub proof fn lemma_latest_is_head(method: Seq<char>, items: Seq<JsonModel>, head: nat)
    requires
        head <= u64::MAX,
        block_param_place(method) matches Some(place) && place < items.len(),
    ensures
        ({
            let place = block_param_place(method)->0 as int;
            let tagged = Some(JsonModel::Array(items.update(place, JsonModel::Text("latest"@))));
            let numbered = Some(
                JsonModel::Array(items.update(place, JsonModel::Text(hex_quantity(head)))),
            );
            &&& normalized_params(method, tagged, head) == normalized_params(method, numbered, head)
            &&& block_needed_spec(method, tagged, head) == Some(head)
            &&& block_needed_spec(method, numbered, head) == Some(head)
        }),
{
    let place = block_param_place(method)->0 as int;
    let with_tag = items.update(place, JsonModel::Text("latest"@));
    let with_number = items.update(place, JsonModel::Text(hex_quantity(head)));
    lemma_logs_have_no_place();
    lemma_quantity_round_trip(head);
    lemma_tags_are_no_quantities();
    assert(with_tag.update(place, JsonModel::Text(hex_quantity(head))) =~= with_number);
    assert(with_number.update(place, with_number[place]) =~= with_number);
    assert(rewritten_block(with_number[place], head) == with_number[place]) by {
        reveal_strlit("latest");
        assert("latest"@[0] == 'l');
        assert(hex_quantity(head)[0] == '0');
    }
}

/// Block-hash normalization for log filters: two filters that differ only
/// in one of their ends, the one holding the tag `latest` and the other
/// the number of the head, are sent on as the same filter.
pub proof fn lemma_latest_is_head_in_filter(
    members: Seq<JsonMemberModel>,
    place: int,
    head: nat,
)
    requires
        0 <= place < members.len(),
        members[place].name == "fromBlock"@ || members[place].name == "toBlock"@,
    ensures
        ({
            let name = members[place].name;
            let tagged = members.update(
                place,
                JsonMemberModel { name, value: JsonModel::Text("latest"@) },
            );
            let numbered = members.update(
                place,
                JsonMemberModel { name, value: JsonModel::Text(hex_quantity(head)) },
            );
            rewritten_filter(tagged, head) == rewritten_filter(numbered, head)
        }),
{
    let name = members[place].name;
    let tagged = members.update(place, JsonMemberModel { name, value: JsonModel::Text("latest"@) });
    let numbered = members.update(
        place,
        JsonMemberModel { name, value: JsonModel::Text(hex_quantity(head)) },
    );
    assert(rewritten_block(JsonModel::Text(hex_quantity(head)), head) == JsonModel::Text(
        hex_quantity(head),
    )) by {
        reveal_strlit("latest");
        assert("latest"@[0] == 'l');
        assert(hex_quantity(head)[0] == '0');
    }
    assert forall|i: int| 0 <= i < members.len() implies rewritten_filter(tagged, head)[i]
        == rewritten_filter(numbered, head)[i] by {
        if i != place {
            assert(tagged[i] == numbered[i]);
        }
    }
    assert(rewritten_filter(tagged, head) =~= rewritten_filter(numbered, head));
}

/// The number of the head is none of the tags.
proof fn lemma_tags_are_no_quantities()
    ensures
        forall|n: nat| !is_block_tag(#[trigger] hex_quantity(n)),
{
    reveal_strlit("latest");
    reveal_strlit("pending");
    reveal_strlit("earliest");
    reveal_strlit("safe");
    reveal_strlit("finalized");
    assert forall|n: nat| !is_block_tag(#[trigger] hex_quantity(n)) by {
        assert(hex_quantity(n)[0] == '0');
        assert("latest"@[0] == 'l');
        assert("pending"@[0] == 'p');
        assert("earliest"@[0] == 'e');
        assert("safe"@[0] == 's');
        assert("finalized"@[0] == 'f');
    }
}

} // verus!
