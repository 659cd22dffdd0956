//! `web3_sha3`: the Keccak-256 hash of data that a client sends as
//! hexadecimal text.

use vstd::prelude::*;
use crate::block_helpers::hex_digit_value;
use crate::errors::Web3ProxyError;
use crate::json::{JsonModel, JsonValue};
use crate::primitives::H256;
use crate::text::{chars_of, hex_data};

verus! {

/// The Keccak-256 hash of the bytes, as `ethers::core::utils::keccak256`
/// computes it.
pub uninterp spec fn keccak256_digest(bytes: Seq<u8>) -> Seq<u8>;

/// The Keccak-256 hash of the bytes.
///
/// Trusted: `ethers::core::utils::keccak256`, which feeds the bytes to a
/// Keccak-256 hasher and returns the 32 bytes that come out. The contract
/// gives that result its name and claims nothing more of it.
#[verifier::external_body]
fn keccak256(bytes: &Vec<u8>) -> (digest: H256)
    ensures
        digest@ == keccak256_digest(bytes@),
{
    H256 { bytes: ethers::core::utils::keccak256(bytes) }
}

/// The digits of hexadecimal text: what follows `0x` or `0X` where the text
/// begins so, and the whole text where not.
pub open spec fn hex_body(text: Seq<char>) -> Seq<char> {
    if text.len() >= 2 && text[0] == '0' && (text[1] == 'x' || text[1] == 'X') {
        text.skip(2)
    } else {
        text
    }
}

/// The bytes that pairs of hexadecimal digits stand for; none where a
/// digit is left over or a character is no hexadecimal digit.
pub open spec fn hex_bytes(digits: Seq<char>) -> Option<Seq<u8>>
    decreases digits.len(),
{
    if digits.len() == 0 {
        Some(Seq::empty())
    } else if digits.len() == 1 {
        None
    } else {
        match (
            hex_bytes(digits.take(digits.len() - 2)),
            hex_digit_value(digits[digits.len() - 2]),
            hex_digit_value(digits[digits.len() - 1]),
        ) {
            (Some(bytes), Some(high), Some(low)) => Some(bytes.push((high * 16 + low) as u8)),
            _ => None,
        }
    }
}

/// The bytes that hexadecimal text stands for: the text has an even number
/// of characters, `0x` included where it is there, and what follows the
/// `0x` is pairs of hexadecimal digits in either case.
pub open spec fn hex_decoded(text: Seq<char>) -> Option<Seq<u8>> {
    if text.len() % 2 != 0 {
        None
    } else {
        hex_bytes(hex_body(text))
    }
}

fn nibble(c: char) -> (value: Option<u8>)
    ensures
        hex_digit_value(c) == (match value {
            Some(v) => Some(v as nat),
            None => None,
        }),
        value matches Some(v) ==> v < 16,
{
    if '0' <= c && c <= '9' {
        Some((c as u32 - '0' as u32) as u8)
    } else if 'a' <= c && c <= 'f' {
        Some((c as u32 - 'a' as u32 + 10) as u8)
    } else if 'A' <= c && c <= 'F' {
        Some((c as u32 - 'A' as u32 + 10) as u8)
    } else {
        None
    }
}

proof fn lemma_hex_bytes_fails(digits: Seq<char>, n: int)
    requires
        0 <= n <= digits.len(),
        n % 2 == 0,
        digits.len() % 2 == 0,
        hex_bytes(digits.take(n)) is None,
    ensures
        hex_bytes(digits) is None,
    decreases digits.len() - n,
{
    if n < digits.len() {
        assert(digits.take(n + 2).take(n) =~= digits.take(n));
        lemma_hex_bytes_fails(digits, n + 2);
    } else {
        assert(digits.take(n) =~= digits);
    }
}

/// The bytes that hexadecimal text stands for.
pub fn decode_hex(text: &str) -> (bytes: Option<Vec<u8>>)
    ensures
        hex_decoded(text@) == (match bytes {
            Some(b) => Some(b@),
            None => None,
        }),
{
    let chars = chars_of(text);
    if chars.len() % 2 != 0 {
        return None;
    }
    let start: usize = if chars.len() >= 2 && chars[0] == '0' && (chars[1] == 'x' || chars[1]
        == 'X') {
        2
    } else {
        0
    };
    let ghost digits = hex_body(text@);
    assert(digits =~= text@.skip(start as int));
    let mut bytes: Vec<u8> = Vec::new();
    let mut i: usize = start;
    assert(digits.take(0) =~= Seq::<char>::empty());
    while i < chars.len()
        invariant
            start <= i <= chars.len(),
            (i - start) % 2 == 0,
            chars.len() % 2 == 0,
            start == 0 || start == 2,
            chars@ == text@,
            digits == text@.skip(start as int),
            digits == hex_body(text@),
            hex_bytes(digits.take(i - start)) == Some(bytes@),
        decreases chars.len() - i,
    {
        let ghost done = digits.take(i - start);
        let ghost next = digits.take(i - start + 2);
        assert(next.take(next.len() - 2) =~= done);
        assert(next[next.len() - 2] == chars[i as int]);
        assert(next[next.len() - 1] == chars[i + 1]);
        match (nibble(chars[i]), nibble(chars[i + 1])) {
            (Some(high), Some(low)) => {
                bytes.push(high * 16 + low);
            },
            _ => {
                proof {
                    lemma_hex_bytes_fails(digits, i - start + 2);
                }
                return None;
            },
        }
        i += 2;
    }
    assert(digits.take(chars.len() - start) =~= digits);
    Some(bytes)
}

/// The answer to `web3_sha3` for a hash: the hash as Ethereum data.
pub fn sha3_answer(digest: &H256) -> (answer: JsonValue)
    ensures
        answer@ == JsonModel::Text(hex_data(digest@)),
{
    JsonValue::Text(digest.to_hex())
}

/// The text that `web3_sha3` is asked to hash: the parameters are to be
/// exactly one text.
pub open spec fn sha3_input(params: Option<JsonModel>) -> Option<Seq<char>> {
    match params {
        Some(JsonModel::Array(items)) if items.len() == 1 && items[0] is Text => Some(
            items[0]->Text_0,
        ),
        _ => None,
    }
}

/// The answer to `web3_sha3`: the Keccak-256 hash of the data that the one
/// parameter holds as hexadecimal text.
///
/// Parameters that are not exactly one text are a bad request, with the
/// message `invalid request`; text that is no hexadecimal data cannot be
/// parsed.
pub fn web3_sha3(params: &Option<JsonValue>) -> (result: Result<JsonValue, Web3ProxyError>)
    ensures
        match sha3_input(
            match params {
                Some(p) => Some(p@),
                None => None,
            },
        ) {
            Some(text) => match hex_decoded(text) {
                Some(bytes) => result matches Ok(value) && value@ == JsonModel::Text(
                    hex_data(keccak256_digest(bytes)),
                ),
                None => result == Err::<JsonValue, Web3ProxyError>(
                    Web3ProxyError::ParseBytesError(None),
                ),
            },
            None => result matches Err(Web3ProxyError::BadRequest(msg)) && msg@
                == "invalid request"@,
        },
{
    match params {
        Some(JsonValue::Array(items)) => {
            if items.len() != 1 {
                return Err(Web3ProxyError::BadRequest(String::from_str("invalid request")));
            }
            match &items[0] {
                JsonValue::Text(text) => {
                    assert(params->0@->Array_0[0] == items[0]@);
                    match decode_hex(text.as_str()) {
                        Some(bytes) => Ok(sha3_answer(&keccak256(&bytes))),
                        None => Err(Web3ProxyError::ParseBytesError(None)),
                    }
                },
                _ => {
                    assert(params->0@->Array_0[0] == items[0]@);
                    Err(Web3ProxyError::BadRequest(String::from_str("invalid request")))
                },
            }
        },
        _ => Err(Web3ProxyError::BadRequest(String::from_str("invalid request"))),
    }
}

} // verus!
