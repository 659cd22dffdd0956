//! JSON values as the proxy reads and writes them, and their compact text.
//!
//! Parameters and results of JSON-RPC calls are arbitrary JSON. The proxy
//! inspects a few places in them and otherwise carries them through, so a
//! value is held as a plain tree. Its compact text is what cache keys and
//! encoded sizes are made of.

use vstd::prelude::*;
use crate::text::{append_str, digit_char, digit_to_char, push_char};

verus! {

/// A JSON value.
///
/// A number keeps the text it was written with, so that it is carried
/// through unchanged. An object keeps its members in the order given.
#[derive(Debug, PartialEq, Eq)]
pub enum JsonValue {
    Null,
    Bool(bool),
    Number(String),
    Text(String),
    Array(Vec<JsonValue>),
    Object(Vec<JsonMember>),
}

/// One member of a JSON object.
#[derive(Debug, PartialEq, Eq)]
pub struct JsonMember {
    pub name: String,
    pub value: JsonValue,
}

/// The mathematical value of a [`JsonValue`].
pub enum JsonModel {
    Null,
    Bool(bool),
    Number(Seq<char>),
    Text(Seq<char>),
    Array(Seq<JsonModel>),
    Object(Seq<JsonMemberModel>),
}

/// The mathematical value of a [`JsonMember`].
pub struct JsonMemberModel {
    pub name: Seq<char>,
    pub value: JsonModel,
}

impl View for JsonValue {
    type V = JsonModel;

    open spec fn view(&self) -> JsonModel
        decreases self,
    {
        match self {
            JsonValue::Null => JsonModel::Null,
            JsonValue::Bool(b) => JsonModel::Bool(*b),
            JsonValue::Number(n) => JsonModel::Number(n@),
            JsonValue::Text(t) => JsonModel::Text(t@),
            JsonValue::Array(items) => JsonModel::Array(
                Seq::new(
                    items.len() as nat,
                    |i: int|
                        if 0 <= i < items.len() {
                            items[i].view()
                        } else {
                            JsonModel::Null
                        },
                ),
            ),
            JsonValue::Object(members) => JsonModel::Object(
                Seq::new(
                    members.len() as nat,
                    |i: int|
                        if 0 <= i < members.len() {
                            JsonMemberModel { name: members[i].name@, value: members[i].value.view() }
                        } else {
                            JsonMemberModel { name: Seq::empty(), value: JsonModel::Null }
                        },
                ),
            ),
        }
    }
}

/// What one character of a string becomes between the quotes of its JSON
/// text: the quote and the backslash get a backslash in front, the control
/// characters their short escape or `\u00` and two hexadecimal digits, and
/// every other character stands for itself.
pub open spec fn escaped_char(c: char) -> Seq<char> {
    if c == '"' {
        seq!['\\', '"']
    } else if c == '\\' {
        seq!['\\', '\\']
    } else if c == '\n' {
        seq!['\\', 'n']
    } else if c == '\r' {
        seq!['\\', 'r']
    } else if c == '\t' {
        seq!['\\', 't']
    } else if c == '\u{8}' {
        seq!['\\', 'b']
    } else if c == '\u{c}' {
        seq!['\\', 'f']
    } else if (c as u32) < 0x20 {
        seq!['\\', 'u', '0', '0', digit_char((c as u32) as int / 16), digit_char((c as u32) as int % 16)]
    } else {
        seq![c]
    }
}

/// The escaped characters of a string, in order.
pub open spec fn escaped(t: Seq<char>) -> Seq<char>
    decreases t.len(),
{
    if t.len() == 0 {
        Seq::empty()
    } else {
        escaped(t.drop_last()) + escaped_char(t.last())
    }
}

/// The JSON text of a string: its escaped characters between quotes.
pub open spec fn quoted(t: Seq<char>) -> Seq<char> {
    seq!['"'] + escaped(t) + seq!['"']
}

/// The compact JSON text of a value: no white space, members and items
/// separated by commas, in the order they are held.
pub open spec fn json_text(v: JsonModel) -> Seq<char>
    decreases v, 0nat,
{
    match v {
        JsonModel::Null => seq!['n', 'u', 'l', 'l'],
        JsonModel::Bool(b) => if b {
            seq!['t', 'r', 'u', 'e']
        } else {
            seq!['f', 'a', 'l', 's', 'e']
        },
        JsonModel::Number(n) => n,
        JsonModel::Text(t) => quoted(t),
        JsonModel::Array(items) => seq!['['] + items_text(items, items.len()) + seq![']'],
        JsonModel::Object(members) => seq!['{'] + members_text(members, members.len()) + seq!['}'],
    }
}

/// The text of the first `n` items of an array, separated by commas.
pub open spec fn items_text(items: Seq<JsonModel>, n: nat) -> Seq<char>
    decreases items, n,
{
    if n == 0 || n > items.len() {
        Seq::empty()
    } else if n == 1 {
        json_text(items[0])
    } else {
        items_text(items, (n - 1) as nat) + seq![','] + json_text(items[n - 1])
    }
}

/// The text of the first `n` members of an object, separated by commas.
pub open spec fn members_text(members: Seq<JsonMemberModel>, n: nat) -> Seq<char>
    decreases members, n,
{
    if n == 0 || n > members.len() {
        Seq::empty()
    } else if n == 1 {
        quoted(members[0].name) + seq![':'] + json_text(members[0].value)
    } else {
        members_text(members, (n - 1) as nat) + seq![','] + quoted(members[n - 1].name) + seq![
            ':',
        ] + json_text(members[n - 1].value)
    }
}

/// Appends the escaped form of one character.
fn append_escaped_char(out: &mut String, c: char)
    ensures
        final(out)@ == old(out)@ + escaped_char(c),
{
    if c == '"' {
        push_char(out, '\\');
        push_char(out, '"');
        assert(final(out)@ =~= old(out)@ + escaped_char(c));
    } else if c == '\\' {
        push_char(out, '\\');
        push_char(out, '\\');
        assert(final(out)@ =~= old(out)@ + escaped_char(c));
    } else if c == '\n' {
        push_char(out, '\\');
        push_char(out, 'n');
        assert(final(out)@ =~= old(out)@ + escaped_char(c));
    } else if c == '\r' {
        push_char(out, '\\');
        push_char(out, 'r');
        assert(final(out)@ =~= old(out)@ + escaped_char(c));
    } else if c == '\t' {
        push_char(out, '\\');
        push_char(out, 't');
        assert(final(out)@ =~= old(out)@ + escaped_char(c));
    } else if c == '\u{8}' {
        push_char(out, '\\');
        push_char(out, 'b');
        assert(final(out)@ =~= old(out)@ + escaped_char(c));
    } else if c == '\u{c}' {
        push_char(out, '\\');
        push_char(out, 'f');
        assert(final(out)@ =~= old(out)@ + escaped_char(c));
    } else if (c as u32) < 0x20 {
        let code: u8 = c as u8;
        push_char(out, '\\');
        push_char(out, 'u');
        push_char(out, '0');
        push_char(out, '0');
        push_char(out, digit_to_char(code / 16));
        push_char(out, digit_to_char(code % 16));
        assert(final(out)@ =~= old(out)@ + escaped_char(c));
    } else {
        push_char(out, c);
        assert(final(out)@ =~= old(out)@ + escaped_char(c));
    }
}

/// Appends the JSON text of a string.
pub(crate) fn append_quoted(out: &mut String, s: &str)
    ensures
        final(out)@ == old(out)@ + quoted(s@),
{
    broadcast use vstd::string::group_string_axioms;

    push_char(out, '"');
    for c in it: s.chars()
        invariant
            it.seq() == s@,
            out@ == old(out)@.push('"') + escaped(it.seq().take(it.index() as int)),
    {
        append_escaped_char(out, c);
        proof {
            let done = it.seq().take(it.index() + 1);
            assert(done.drop_last() =~= it.seq().take(it.index() as int));
            assert(done.last() == c);
        }
    }
    push_char(out, '"');
    proof {
        assert(s@.take(s@.len() as int) =~= s@);
        assert(final(out)@ =~= old(out)@ + quoted(s@));
    }
}

impl JsonValue {
    /// Appends the compact JSON text of this value.
    pub(crate) fn append_text(&self, out: &mut String)
        ensures
            final(out)@ == old(out)@ + json_text(self@),
        decreases self,
    {
        match self {
            JsonValue::Null => {
                append_str(out, "null");
                proof {
                    reveal_strlit("null");
                    assert("null"@ =~= seq!['n', 'u', 'l', 'l']);
                }
            },
            JsonValue::Bool(b) => {
                if *b {
                    append_str(out, "true");
                    proof {
                        reveal_strlit("true");
                        assert("true"@ =~= seq!['t', 'r', 'u', 'e']);
                    }
                } else {
                    append_str(out, "false");
                    proof {
                        reveal_strlit("false");
                        assert("false"@ =~= seq!['f', 'a', 'l', 's', 'e']);
                    }
                }
            },
            JsonValue::Number(n) => {
                append_str(out, n.as_str());
            },
            JsonValue::Text(t) => {
                append_quoted(out, t.as_str());
            },
            JsonValue::Array(items) => {
                let ghost model = self@->Array_0;
                push_char(out, '[');
                let mut i: usize = 0;
                while i < items.len()
                    invariant
                        i <= items.len(),
                        self == JsonValue::Array(*items),
                        model == self@->Array_0,
                        model.len() == items.len(),
                        out@ == old(out)@.push('[') + items_text(model, i as nat),
                    decreases items.len() - i,
                {
                    if i > 0 {
                        push_char(out, ',');
                    }
                    items[i].append_text(out);
                    proof {
                        assert(model[i as int] == items[i as int]@);
                        assert(out@ =~= old(out)@.push('[') + items_text(model, (i + 1) as nat));
                    }
                    i += 1;
                }
                push_char(out, ']');
                assert(final(out)@ =~= old(out)@ + json_text(self@));
            },
            JsonValue::Object(members) => {
                let ghost model = self@->Object_0;
                push_char(out, '{');
                let mut i: usize = 0;
                while i < members.len()
                    invariant
                        i <= members.len(),
                        self == JsonValue::Object(*members),
                        model == self@->Object_0,
                        model.len() == members.len(),
                        out@ == old(out)@.push('{') + members_text(model, i as nat),
                    decreases members.len() - i,
                {
                    if i > 0 {
                        push_char(out, ',');
                    }
                    append_quoted(out, members[i].name.as_str());
                    push_char(out, ':');
                    members[i].value.append_text(out);
                    proof {
                        assert(model[i as int].name == members[i as int].name@);
                        assert(model[i as int].value == members[i as int].value@);
                        assert(out@ =~= old(out)@.push('{') + members_text(model, (i + 1) as nat));
                    }
                    i += 1;
                }
                push_char(out, '}');
                assert(final(out)@ =~= old(out)@ + json_text(self@));
            },
        }
    }

    /// A copy of this value.
    pub fn duplicate(&self) -> (copy: JsonValue)
        ensures
            copy@ == self@,
        decreases self,
    {
        match self {
            JsonValue::Null => JsonValue::Null,
            JsonValue::Bool(b) => JsonValue::Bool(*b),
            JsonValue::Number(n) => JsonValue::Number(n.clone()),
            JsonValue::Text(t) => JsonValue::Text(t.clone()),
            JsonValue::Array(items) => {
                let mut copies: Vec<JsonValue> = Vec::new();
                let mut i: usize = 0;
                while i < items.len()
                    invariant
                        i <= items.len(),
                        self is Array && self->Array_0 == *items,
                        copies.len() == i,
                        forall|k: int| 0 <= k < i ==> copies[k]@ == items[k]@,
                    decreases items.len() - i,
                {
                    copies.push(items[i].duplicate());
                    i += 1;
                }
                let copy = JsonValue::Array(copies);
                assert(copy@->Array_0 =~= self@->Array_0);
                copy
            },
            JsonValue::Object(members) => {
                let mut copies: Vec<JsonMember> = Vec::new();
                let mut i: usize = 0;
                while i < members.len()
                    invariant
                        i <= members.len(),
                        self is Object && self->Object_0 == *members,
                        copies.len() == i,
                        forall|k: int|
                            0 <= k < i ==> copies[k].name@ == members[k].name@ && copies[k].value@
                                == members[k].value@,
                    decreases members.len() - i,
                {
                    copies.push(
                        JsonMember {
                            name: members[i].name.clone(),
                            value: members[i].value.duplicate(),
                        },
                    );
                    i += 1;
                }
                let copy = JsonValue::Object(copies);
                assert(copy@->Object_0 =~= self@->Object_0);
                copy
            },
        }
    }

    /// The compact JSON text of this value.
    pub fn to_text(&self) -> (text: String)
        ensures
            text@ == json_text(self@),
    {
        let mut text = String::new();
        self.append_text(&mut text);
        assert(Seq::<char>::empty() + json_text(self@) =~= json_text(self@));
        text
    }
}

} // verus!
