//! The text of a response determines the response.
//!
//! Whatever reads the compact text of a response back gets the response
//! that was written: no two responses have the same text.

use vstd::prelude::*;
use crate::json::{JsonModel, json_text, quoted};
use crate::json_decoding::{
    can_follow, lemma_first, lemma_quoted_prefix, lemma_split, lemma_value_prefix, well_formed,
};
use crate::jsonrpc::{
    JsonRpcErrorModel, JsonRpcResponseModel, error_text, payload_text, response_text,
};
use crate::text::{decimal, digit_char, signed_decimal};

verus! {

/// The number that decimal digits stand for.
pub open spec fn decimal_value(digits: Seq<char>) -> nat
    decreases digits.len(),
{
    if digits.len() == 0 {
        0
    } else {
        decimal_value(digits.drop_last()) * 10 + (digits.last() as u32 - '0' as u32) as nat
    }
}

/// The decimal form of a number is made of digits and stands for the
/// number.
proof fn lemma_decimal(n: nat)
    ensures
        decimal(n).len() >= 1,
        forall|i: int| 0 <= i < decimal(n).len() ==> '0' <= #[trigger] decimal(n)[i] <= '9',
        decimal_value(decimal(n)) == n,
    decreases n,
{
    let digits = decimal(n);
    if n < 10 {
        assert(digits.drop_last() =~= Seq::<char>::empty());
        assert(digits.last() == digit_char(n as int));
        assert(decimal_value(digits.drop_last()) == 0);
    } else {
        lemma_decimal(n / 10);
        assert(digits.drop_last() =~= decimal(n / 10));
        assert(digits.last() == digit_char((n % 10) as int));
        assert forall|i: int| 0 <= i < digits.len() implies '0' <= #[trigger] digits[i] <= '9' by {
            if i < digits.len() - 1 {
                assert(digits[i] == decimal(n / 10)[i]);
            }
        }
        assert((n / 10) * 10 + n % 10 == n);
    }
}

/// Two numbers whose decimal forms begin equal texts, each followed by
/// something that can follow a value, are the same number.
proof fn lemma_decimal_prefix(m: nat, x: Seq<char>, n: nat, y: Seq<char>)
    requires
        can_follow(x),
        can_follow(y),
        decimal(m) + x == decimal(n) + y,
    ensures
        m == n,
        x == y,
{
    let t = decimal(m);
    let u = decimal(n);
    lemma_decimal(m);
    lemma_decimal(n);
    if t.len() < u.len() {
        assert((t + x)[t.len() as int] == x[0]);
        assert((u + y)[t.len() as int] == u[t.len() as int]);
    } else if u.len() < t.len() {
        assert((u + y)[u.len() as int] == y[0]);
        assert((t + x)[u.len() as int] == t[u.len() as int]);
    }
    lemma_split(t, x, u, y);
}

/// Two integers whose decimal forms begin equal texts, each followed by
/// something that can follow a value, are the same integer.
proof fn lemma_signed_decimal_prefix(m: int, x: Seq<char>, n: int, y: Seq<char>)
    requires
        can_follow(x),
        can_follow(y),
        signed_decimal(m) + x == signed_decimal(n) + y,
    ensures
        m == n,
        x == y,
{
    lemma_decimal((if m < 0 { -m } else { m }) as nat);
    lemma_decimal((if n < 0 { -n } else { n }) as nat);
    lemma_first(signed_decimal(m), x, signed_decimal(n), y);
    if m < 0 {
        assert(signed_decimal(m)[0] == '-');
        assert(n < 0);
        let t = decimal((-m) as nat);
        let u = decimal((-n) as nat);
        assert(signed_decimal(m) + x =~= seq!['-'] + (t + x));
        assert(signed_decimal(n) + y =~= seq!['-'] + (u + y));
        lemma_split(seq!['-'], t + x, seq!['-'], u + y);
        lemma_decimal_prefix((-m) as nat, x, (-n) as nat, y);
    } else {
        assert(signed_decimal(m)[0] != '-');
        assert(n >= 0);
        lemma_decimal_prefix(m as nat, x, n as nat, y);
    }
}

/// Whether the data of an error, where it has any, is well formed.
pub open spec fn error_well_formed(e: JsonRpcErrorModel) -> bool {
    match e.data {
        Some(d) => well_formed(d),
        None => true,
    }
}

/// Whether the values in a response are well formed.
pub open spec fn response_well_formed(r: JsonRpcResponseModel) -> bool {
    &&& well_formed(r.id)
    &&& match r.result {
        Some(v) => well_formed(v),
        None => true,
    }
    &&& match r.error {
        Some(e) => error_well_formed(e),
        None => true,
    }
}

/// The data member of an error, where it has one.
pub open spec fn data_text(data: Option<JsonModel>) -> Seq<char> {
    match data {
        Some(d) => ",\"data\":"@ + json_text(d),
        None => Seq::empty(),
    }
}

/// Two data members that begin equal texts, each followed by a closing
/// brace, are the same.
proof fn lemma_data_prefix(a: Option<JsonModel>, x: Seq<char>, b: Option<JsonModel>, y: Seq<char>)
    requires
        a matches Some(d) ==> well_formed(d),
        b matches Some(d) ==> well_formed(d),
        data_text(a) + (seq!['}'] + x) == data_text(b) + (seq!['}'] + y),
    ensures
        a == b,
        x == y,
{
    reveal_strlit(",\"data\":");
    let label = ",\"data\":"@;
    let close_x = seq!['}'] + x;
    let close_y = seq!['}'] + y;
    match (a, b) {
        (None, None) => {
            assert(data_text(a) + close_x =~= close_x);
            assert(data_text(b) + close_y =~= close_y);
            lemma_split(seq!['}'], x, seq!['}'], y);
        },
        (Some(d), None) => {
            assert(data_text(b) + close_y =~= close_y);
            assert((data_text(a) + close_x)[0] == label[0]);
            assert(close_y[0] == '}');
        },
        (None, Some(d)) => {
            assert(data_text(a) + close_x =~= close_x);
            assert((data_text(b) + close_y)[0] == label[0]);
            assert(close_x[0] == '}');
        },
        (Some(d), Some(e)) => {
            assert(data_text(a) + close_x =~= label + (json_text(d) + close_x));
            assert(data_text(b) + close_y =~= label + (json_text(e) + close_y));
            lemma_split(label, json_text(d) + close_x, label, json_text(e) + close_y);
            assert(close_x[0] == '}');
            assert(close_y[0] == '}');
            lemma_value_prefix(d, close_x, e, close_y);
            lemma_split(seq!['}'], x, seq!['}'], y);
        },
    }
}

/// What follows the code in the text of an error.
spec fn after_code(e: JsonRpcErrorModel, x: Seq<char>) -> Seq<char> {
    ",\"message\":"@ + (quoted(e.message) + (data_text(e.data) + (seq!['}'] + x)))
}

proof fn lemma_error_unfold(e: JsonRpcErrorModel, x: Seq<char>)
    ensures
        error_text(e) + x == "{\"code\":"@ + (signed_decimal(e.code) + after_code(e, x)),
        after_code(e, x).len() > 0,
        can_follow(after_code(e, x)),
{
    reveal_strlit(",\"message\":");
    reveal_strlit("}");
    assert("}"@ =~= seq!['}']);
    assert(error_text(e) + x =~= "{\"code\":"@ + (signed_decimal(e.code) + after_code(e, x)));
    assert(after_code(e, x)[0] == ',');
}

/// Two errors whose texts begin equal texts are the same error.
proof fn lemma_error_prefix(a: JsonRpcErrorModel, x: Seq<char>, b: JsonRpcErrorModel, y: Seq<char>)
    requires
        error_well_formed(a),
        error_well_formed(b),
        error_text(a) + x == error_text(b) + y,
    ensures
        a == b,
        x == y,
{
    lemma_error_unfold(a, x);
    lemma_error_unfold(b, y);
    let label = "{\"code\":"@;
    lemma_split(
        label,
        signed_decimal(a.code) + after_code(a, x),
        label,
        signed_decimal(b.code) + after_code(b, y),
    );
    lemma_signed_decimal_prefix(a.code, after_code(a, x), b.code, after_code(b, y));
    let message = ",\"message\":"@;
    let rest_a = data_text(a.data) + (seq!['}'] + x);
    let rest_b = data_text(b.data) + (seq!['}'] + y);
    lemma_split(message, quoted(a.message) + rest_a, message, quoted(b.message) + rest_b);
    lemma_quoted_prefix(a.message, rest_a, b.message, rest_b);
    lemma_data_prefix(a.data, x, b.data, y);
}

/// The result member of a response, where it has one.
pub open spec fn result_text(result: Option<JsonModel>) -> Seq<char> {
    match result {
        Some(v) => ",\"result\":"@ + json_text(v),
        None => Seq::empty(),
    }
}

/// The error member of a response, where it has one.
pub open spec fn error_member_text(error: Option<JsonRpcErrorModel>) -> Seq<char> {
    match error {
        Some(e) => ",\"error\":"@ + error_text(e),
        None => Seq::empty(),
    }
}

/// Two error members that begin equal texts, each followed by a closing
/// brace, are the same.
proof fn lemma_error_member_prefix(
    a: Option<JsonRpcErrorModel>,
    x: Seq<char>,
    b: Option<JsonRpcErrorModel>,
    y: Seq<char>,
)
    requires
        a matches Some(e) ==> error_well_formed(e),
        b matches Some(e) ==> error_well_formed(e),
        error_member_text(a) + (seq!['}'] + x) == error_member_text(b) + (seq!['}'] + y),
    ensures
        a == b,
        x == y,
{
    reveal_strlit(",\"error\":");
    let label = ",\"error\":"@;
    let close_x = seq!['}'] + x;
    let close_y = seq!['}'] + y;
    match (a, b) {
        (None, None) => {
            assert(error_member_text(a) + close_x =~= close_x);
            assert(error_member_text(b) + close_y =~= close_y);
            lemma_split(seq!['}'], x, seq!['}'], y);
        },
        (Some(e), None) => {
            assert(error_member_text(b) + close_y =~= close_y);
            assert((error_member_text(a) + close_x)[0] == label[0]);
            assert(close_y[0] == '}');
        },
        (None, Some(e)) => {
            assert(error_member_text(a) + close_x =~= close_x);
            assert((error_member_text(b) + close_y)[0] == label[0]);
            assert(close_x[0] == '}');
        },
        (Some(e), Some(f)) => {
            assert(error_member_text(a) + close_x =~= label + (error_text(e) + close_x));
            assert(error_member_text(b) + close_y =~= label + (error_text(f) + close_y));
            lemma_split(label, error_text(e) + close_x, label, error_text(f) + close_y);
            lemma_error_prefix(e, close_x, f, close_y);
            lemma_split(seq!['}'], x, seq!['}'], y);
        },
    }
}

/// How the members after the result begin: with a comma and the name of
/// the error, or with the closing brace.
proof fn lemma_after_result_starts(error: Option<JsonRpcErrorModel>, x: Seq<char>)
    ensures
        ({
            let rest = error_member_text(error) + (seq!['}'] + x);
            &&& rest.len() > 0
            &&& can_follow(rest)
            &&& error is None ==> rest[0] == '}'
            &&& error is Some ==> rest.len() > 2 && rest[0] == ',' && rest[2] == 'e'
        }),
{
    reveal_strlit(",\"error\":");
    let label = ",\"error\":"@;
    let rest = error_member_text(error) + (seq!['}'] + x);
    match error {
        Some(e) => {
            assert(rest[0] == label[0]);
            assert(rest[2] == label[2]);
        },
        None => {
            assert(rest =~= seq!['}'] + x);
        },
    }
}

/// Two responses whose members after the id begin equal texts are the same
/// in their result and in their error.
proof fn lemma_payload_prefix(
    a: JsonRpcResponseModel,
    x: Seq<char>,
    b: JsonRpcResponseModel,
    y: Seq<char>,
)
    requires
        response_well_formed(a),
        response_well_formed(b),
        payload_text(a) + (seq!['}'] + x) == payload_text(b) + (seq!['}'] + y),
    ensures
        a.result == b.result,
        a.error == b.error,
        x == y,
{
    reveal_strlit(",\"result\":");
    let label = ",\"result\":"@;
    let after_a = error_member_text(a.error) + (seq!['}'] + x);
    let after_b = error_member_text(b.error) + (seq!['}'] + y);
    lemma_after_result_starts(a.error, x);
    lemma_after_result_starts(b.error, y);
    assert(payload_text(a) + (seq!['}'] + x) =~= result_text(a.result) + after_a);
    assert(payload_text(b) + (seq!['}'] + y) =~= result_text(b.result) + after_b);
    match (a.result, b.result) {
        (None, None) => {
            assert(result_text(a.result) + after_a =~= after_a);
            assert(result_text(b.result) + after_b =~= after_b);
        },
        (Some(v), None) => {
            assert(result_text(b.result) + after_b =~= after_b);
            assert((result_text(a.result) + after_a)[0] == label[0]);
            assert((result_text(a.result) + after_a)[2] == label[2]);
        },
        (None, Some(v)) => {
            assert(result_text(a.result) + after_a =~= after_a);
            assert((result_text(b.result) + after_b)[0] == label[0]);
            assert((result_text(b.result) + after_b)[2] == label[2]);
        },
        (Some(v), Some(w)) => {
            assert(result_text(a.result) + after_a =~= label + (json_text(v) + after_a));
            assert(result_text(b.result) + after_b =~= label + (json_text(w) + after_b));
            lemma_split(label, json_text(v) + after_a, label, json_text(w) + after_b);
            lemma_value_prefix(v, after_a, w, after_b);
        },
    }
    lemma_error_member_prefix(a.error, x, b.error, y);
}

/// No two responses have the same text.
pub proof fn lemma_response_text_is_unique(a: JsonRpcResponseModel, b: JsonRpcResponseModel)
    requires
        response_well_formed(a),
        response_well_formed(b),
        response_text(a) == response_text(b),
    ensures
        a == b,
{
    reveal_strlit("}");
    assert("}"@ =~= seq!['}']);
    let label = "{\"jsonrpc\":\"2.0\",\"id\":"@;
    let empty = Seq::<char>::empty();
    let rest_a = payload_text(a) + (seq!['}'] + empty);
    let rest_b = payload_text(b) + (seq!['}'] + empty);
    assert(response_text(a) =~= label + (json_text(a.id) + rest_a));
    assert(response_text(b) =~= label + (json_text(b.id) + rest_b));
    lemma_split(label, json_text(a.id) + rest_a, label, json_text(b.id) + rest_b);
    lemma_payload_starts(a, empty);
    lemma_payload_starts(b, empty);
    lemma_value_prefix(a.id, rest_a, b.id, rest_b);
    lemma_payload_prefix(a, empty, b, empty);
}

/// What follows the id in the text of a response can follow a value.
proof fn lemma_payload_starts(r: JsonRpcResponseModel, x: Seq<char>)
    ensures
        can_follow(payload_text(r) + (seq!['}'] + x)),
{
    reveal_strlit(",\"result\":");
    let label = ",\"result\":"@;
    let after = error_member_text(r.error) + (seq!['}'] + x);
    lemma_after_result_starts(r.error, x);
    assert(payload_text(r) + (seq!['}'] + x) =~= result_text(r.result) + after);
    match r.result {
        Some(v) => {
            assert((result_text(r.result) + after)[0] == label[0]);
        },
        None => {
            assert(result_text(r.result) + after =~= after);
        },
    }
}

/// The response that a text is the text of, if it is the text of any.
pub open spec fn decoded_response(text: Seq<char>) -> Option<JsonRpcResponseModel> {
    if exists|r: JsonRpcResponseModel| response_well_formed(r) && response_text(r) == text {
        Some(choose|r: JsonRpcResponseModel| response_well_formed(r) && response_text(r) == text)
    } else {
        None
    }
}

/// Encoding a response and then decoding it is the identity, on the text
/// and on the bytes that the text is sent as.
pub proof fn lemma_decoding_inverts_encoding(r: JsonRpcResponseModel)
    requires
        response_well_formed(r),
    ensures
        decoded_response(response_text(r)) == Some(r),
        decoded_response(
            vstd::utf8::decode_utf8(vstd::utf8::encode_utf8(response_text(r))),
        ) == Some(r),
{
    let found = choose|s: JsonRpcResponseModel|
        response_well_formed(s) && response_text(s) == response_text(r);
    lemma_response_text_is_unique(found, r);
    vstd::utf8::encode_utf8_decode_utf8(response_text(r));
}

} // verus!
