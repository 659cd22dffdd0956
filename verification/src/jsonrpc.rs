//! JSON-RPC 2.0 requests and responses.

use vstd::prelude::*;
use crate::json::{json_text, quoted, JsonModel, JsonValue, append_quoted};
use crate::text::{append_decimal, append_str, push_char, signed_decimal};

verus! {

/// The `error` member of a JSON-RPC response.
#[derive(Debug, PartialEq, Eq)]
pub struct JsonRpcErrorData {
    pub message: String,
    pub code: i64,
    pub data: Option<JsonValue>,
}

/// The mathematical value of a [`JsonRpcErrorData`].
pub struct JsonRpcErrorModel {
    pub message: Seq<char>,
    pub code: int,
    pub data: Option<JsonModel>,
}

impl View for JsonRpcErrorData {
    type V = JsonRpcErrorModel;

    open spec fn view(&self) -> JsonRpcErrorModel {
        JsonRpcErrorModel {
            message: self.message@,
            code: self.code as int,
            data: match self.data {
                Some(d) => Some(d@),
                None => None,
            },
        }
    }
}

impl JsonRpcErrorData {
    /// A copy of this error.
    pub fn duplicate(&self) -> (copy: JsonRpcErrorData)
        ensures
            copy@ == self@,
    {
        let data = match &self.data {
            Some(d) => Some(d.duplicate()),
            None => None,
        };
        JsonRpcErrorData { message: self.message.clone(), code: self.code, data }
    }
}

/// One JSON-RPC call as a client sent it.
#[derive(Debug, PartialEq, Eq)]
pub struct JsonRpcRequest {
    pub id: JsonValue,
    pub method: String,
    pub params: Option<JsonValue>,
}

/// A single call or a batch of calls.
#[derive(Debug, PartialEq, Eq)]
pub enum JsonRpcRequestEnum {
    Batch(Vec<JsonRpcRequest>),
    Single(JsonRpcRequest),
}

/// The answer to one JSON-RPC call: the id of the call and either a result
/// or an error.
#[derive(Debug, PartialEq, Eq)]
pub struct JsonRpcForwardedResponse {
    pub id: JsonValue,
    pub result: Option<JsonValue>,
    pub error: Option<JsonRpcErrorData>,
}

/// The mathematical value of a [`JsonRpcForwardedResponse`].
pub struct JsonRpcResponseModel {
    pub id: JsonModel,
    pub result: Option<JsonModel>,
    pub error: Option<JsonRpcErrorModel>,
}

impl View for JsonRpcForwardedResponse {
    type V = JsonRpcResponseModel;

    open spec fn view(&self) -> JsonRpcResponseModel {
        JsonRpcResponseModel {
            id: self.id@,
            result: match self.result {
                Some(r) => Some(r@),
                None => None,
            },
            error: match self.error {
                Some(e) => Some(e@),
                None => None,
            },
        }
    }
}

/// The compact JSON text of an error member: `code`, `message` and, where
/// there is any, `data`.
pub open spec fn error_text(e: JsonRpcErrorModel) -> Seq<char> {
    "{\"code\":"@ + signed_decimal(e.code) + ",\"message\":"@ + quoted(e.message) + (match e.data {
        Some(d) => ",\"data\":"@ + json_text(d),
        None => Seq::empty(),
    }) + "}"@
}

/// The members of a response that say what was answered: the result and
/// the error, as far as they are there, each with a comma in front.
pub open spec fn payload_text(r: JsonRpcResponseModel) -> Seq<char> {
    (match r.result {
        Some(v) => ",\"result\":"@ + json_text(v),
        None => Seq::empty(),
    }) + (match r.error {
        Some(e) => ",\"error\":"@ + error_text(e),
        None => Seq::empty(),
    })
}

/// How the text of a response begins: the protocol version and the id.
pub open spec fn response_head(id: JsonModel) -> Seq<char> {
    "{\"jsonrpc\":\"2.0\",\"id\":"@ + json_text(id)
}

/// The compact JSON text of a response: the protocol version, the id, then
/// the result and the error as far as they are there.
pub open spec fn response_text(r: JsonRpcResponseModel) -> Seq<char> {
    response_head(r.id) + payload_text(r) + "}"@
}

impl JsonRpcErrorData {
    /// Appends the compact JSON text of this error.
    pub(crate) fn append_text(&self, out: &mut String)
        ensures
            final(out)@ == old(out)@ + error_text(self@),
    {
        append_str(out, "{\"code\":");
        if self.code < 0 {
            push_char(out, '-');
            let magnitude: u128 = (-(self.code as i128)) as u128;
            append_decimal(out, magnitude);
        } else {
            append_decimal(out, self.code as u128);
        }
        let ghost after_code = out@;
        assert(after_code =~= old(out)@ + "{\"code\":"@ + signed_decimal(self.code as int));
        append_str(out, ",\"message\":");
        append_quoted(out, self.message.as_str());
        match &self.data {
            Some(d) => {
                append_str(out, ",\"data\":");
                d.append_text(out);
            },
            None => {},
        }
        append_str(out, "}");
        assert(final(out)@ =~= old(out)@ + error_text(self@));
    }
}

impl JsonRpcRequest {
    /// A copy of this request.
    pub fn duplicate(&self) -> (copy: JsonRpcRequest)
        ensures
            copy.id@ == self.id@,
            copy.method@ == self.method@,
            (match copy.params {
                Some(p) => Some(p@),
                None => None,
            }) == (match self.params {
                Some(p) => Some(p@),
                None => None,
            }),
    {
        let params = match &self.params {
            Some(p) => Some(p.duplicate()),
            None => None,
        };
        JsonRpcRequest { id: self.id.duplicate(), method: self.method.clone(), params }
    }
}

impl JsonRpcForwardedResponse {
    /// The answer that carries `value` as its result.
    pub fn from_value(value: JsonValue, id: JsonValue) -> (response: Self)
        ensures
            response@ == (JsonRpcResponseModel { id: id@, result: Some(value@), error: None }),
    {
        JsonRpcForwardedResponse { id, result: Some(value), error: None }
    }

    /// The answer that carries `error` as its error.
    pub fn from_response_data(error: JsonRpcErrorData, id: JsonValue) -> (response: Self)
        ensures
            response@ == (JsonRpcResponseModel { id: id@, result: None, error: Some(error@) }),
    {
        JsonRpcForwardedResponse { id, result: None, error: Some(error) }
    }

    /// The error answer with the given message and code and no data. A call
    /// without an id is answered with the id `null`.
    pub fn from_str(message: &str, code: i64, id: Option<JsonValue>) -> (response: Self)
        ensures
            response@ == (JsonRpcResponseModel {
                id: match id {
                    Some(i) => i@,
                    None => JsonModel::Null,
                },
                result: None,
                error: Some(
                    JsonRpcErrorModel { message: message@, code: code as int, data: None },
                ),
            }),
    {
        let id = match id {
            Some(i) => i,
            None => JsonValue::Null,
        };
        JsonRpcForwardedResponse {
            id,
            result: None,
            error: Some(JsonRpcErrorData { message: String::from_str(message), code, data: None }),
        }
    }

    /// Whether this answer carries an error.
    pub fn is_error(&self) -> (b: bool)
        ensures
            b == (self@.error is Some),
    {
        self.error.is_some()
    }

    /// Whether this answer carries the result `null` and no error.
    pub fn is_null(&self) -> (b: bool)
        ensures
            b == (self@.error is None && self@.result == Some(JsonModel::Null)),
    {
        if self.error.is_some() {
            return false;
        }
        match &self.result {
            Some(JsonValue::Null) => true,
            _ => false,
        }
    }

    /// A copy of this answer.
    pub fn duplicate(&self) -> (copy: Self)
        ensures
            copy@ == self@,
    {
        let result = match &self.result {
            Some(r) => Some(r.duplicate()),
            None => None,
        };
        let error = match &self.error {
            Some(e) => Some(e.duplicate()),
            None => None,
        };
        JsonRpcForwardedResponse { id: self.id.duplicate(), result, error }
    }

    /// Appends the members that say what was answered.
    fn append_payload(&self, out: &mut String)
        ensures
            final(out)@ == old(out)@ + payload_text(self@),
    {
        match &self.result {
            Some(v) => {
                append_str(out, ",\"result\":");
                v.append_text(out);
            },
            None => {},
        }
        match &self.error {
            Some(e) => {
                append_str(out, ",\"error\":");
                e.append_text(out);
            },
            None => {},
        }
        assert(final(out)@ =~= old(out)@ + payload_text(self@));
    }

    /// The members that say what was answered, as compact JSON.
    pub fn payload(&self) -> (text: String)
        ensures
            text@ == payload_text(self@),
    {
        let mut text = String::new();
        self.append_payload(&mut text);
        assert(text@ =~= payload_text(self@));
        text
    }

    /// The compact JSON text of this answer.
    pub fn to_text(&self) -> (text: String)
        ensures
            text@ == response_text(self@),
    {
        let mut text = String::from_str("{\"jsonrpc\":\"2.0\",\"id\":");
        self.id.append_text(&mut text);
        self.append_payload(&mut text);
        append_str(&mut text, "}");
        text
    }
}

} // verus!
