//! The text of a JSON value determines the value.
//!
//! Whatever reads the compact text of a value back gets the value that was
//! written: no two values have the same text. Cache keys rest on this:
//! requests whose parameters differ never share a key.

use vstd::prelude::*;
use crate::json::{
    JsonMemberModel, JsonModel, JsonValue, escaped, escaped_char, items_text, json_text,
    members_text, quoted,
};
use crate::text::chars_of;
use crate::text::digit_char;

verus! {

/// Whether a character can stand in the text of a number.
pub open spec fn is_number_char(c: char) -> bool {
    ('0' <= c <= '9') || c == '-' || c == '+' || c == '.' || c == 'e' || c == 'E'
}

/// Whether a text can be the text of a number: it begins with a digit or
/// a minus sign and holds nothing but digits, signs, the point and the
/// mark of the exponent.
pub open spec fn is_number_text(t: Seq<char>) -> bool {
    &&& t.len() > 0
    &&& (t[0] == '-' || '0' <= t[0] <= '9')
    &&& forall|i: int| 0 <= i < t.len() ==> is_number_char(#[trigger] t[i])
}

/// Whether every number in the value has the text of a number.
pub open spec fn well_formed(v: JsonModel) -> bool
    decreases v,
{
    match v {
        JsonModel::Number(t) => is_number_text(t),
        JsonModel::Array(items) => forall|i: int|
            0 <= i < items.len() ==> well_formed(#[trigger] items[i]),
        JsonModel::Object(members) => forall|i: int|
            0 <= i < members.len() ==> well_formed((#[trigger] members[i]).value),
        _ => true,
    }
}

fn number_char(c: char) -> (b: bool)
    ensures
        b == is_number_char(c),
{
    ('0' <= c && c <= '9') || c == '-' || c == '+' || c == '.' || c == 'e' || c == 'E'
}

/// Whether a text can be the text of a number.
pub fn number_text(t: &str) -> (b: bool)
    ensures
        b == is_number_text(t@),
{
    let chars = chars_of(t);
    if chars.len() == 0 {
        return false;
    }
    if !(chars[0] == '-' || ('0' <= chars[0] && chars[0] <= '9')) {
        return false;
    }
    let mut i: usize = 0;
    while i < chars.len()
        invariant
            i <= chars.len(),
            chars@ == t@,
            forall|k: int| 0 <= k < i ==> is_number_char(#[trigger] t@[k]),
        decreases chars.len() - i,
    {
        if !number_char(chars[i]) {
            return false;
        }
        i += 1;
    }
    true
}

impl JsonValue {
    /// Whether every number in the value has the text of a number.
    pub fn is_well_formed(&self) -> (b: bool)
        ensures
            b == well_formed(self@),
        decreases self,
    {
        match self {
            JsonValue::Number(t) => number_text(t.as_str()),
            JsonValue::Array(items) => {
                let mut i: usize = 0;
                while i < items.len()
                    invariant
                        i <= items.len(),
                        self is Array && self->Array_0 == *items,
                        forall|k: int| 0 <= k < i ==> well_formed(#[trigger] self@->Array_0[k]),
                    decreases items.len() - i,
                {
                    assert(self@->Array_0[i as int] == items[i as int]@);
                    if !items[i].is_well_formed() {
                        return false;
                    }
                    i += 1;
                }
                true
            },
            JsonValue::Object(members) => {
                let mut i: usize = 0;
                while i < members.len()
                    invariant
                        i <= members.len(),
                        self is Object && self->Object_0 == *members,
                        forall|k: int|
                            0 <= k < i ==> well_formed((#[trigger] self@->Object_0[k]).value),
                    decreases members.len() - i,
                {
                    assert(self@->Object_0[i as int].value == members[i as int].value@);
                    if !members[i].value.is_well_formed() {
                        return false;
                    }
                    i += 1;
                }
                true
            },
            _ => true,
        }
    }
}

/// Whether a text can follow the text of a value: it does not go on like a
/// number.
pub open spec fn can_follow(rest: Seq<char>) -> bool {
    rest.len() == 0 || !is_number_char(rest[0])
}

/// The escaped characters of a string from place `k` on.
pub open spec fn escaped_from(t: Seq<char>, k: int) -> Seq<char>
    decreases t.len() - k,
{
    if k < 0 || k >= t.len() {
        Seq::empty()
    } else {
        escaped_char(t[k]) + escaped_from(t, k + 1)
    }
}

/// The text of the items of an array from place `k` on, each but the very
/// first with a comma in front.
pub open spec fn items_from(items: Seq<JsonModel>, k: int) -> Seq<char>
    decreases items.len() - k,
{
    if k < 0 || k >= items.len() {
        Seq::empty()
    } else if k == 0 {
        json_text(items[k]) + items_from(items, k + 1)
    } else {
        seq![','] + json_text(items[k]) + items_from(items, k + 1)
    }
}

/// The text of one member of an object: its name, a colon and its value.
pub open spec fn member_text(member: JsonMemberModel) -> Seq<char> {
    quoted(member.name) + seq![':'] + json_text(member.value)
}

/// The text of the members of an object from place `k` on, each but the
/// very first with a comma in front.
pub open spec fn members_from(members: Seq<JsonMemberModel>, k: int) -> Seq<char>
    decreases members.len() - k,
{
    if k < 0 || k >= members.len() {
        Seq::empty()
    } else if k == 0 {
        member_text(members[k]) + members_from(members, k + 1)
    } else {
        seq![','] + member_text(members[k]) + members_from(members, k + 1)
    }
}

/// Two texts that begin alike with parts of equal length have equal parts
/// and go on alike.
pub(crate) proof fn lemma_split(a: Seq<char>, x: Seq<char>, b: Seq<char>, y: Seq<char>)
    requires
        a + x == b + y,
        a.len() == b.len(),
    ensures
        a == b,
        x == y,
{
    let whole = a + x;
    assert(a =~= whole.take(a.len() as int));
    assert(b =~= (b + y).take(b.len() as int));
    assert(x =~= whole.skip(a.len() as int));
    assert(y =~= (b + y).skip(b.len() as int));
}

/// Two texts that are equal begin with the same character.
pub(crate) proof fn lemma_first(a: Seq<char>, x: Seq<char>, b: Seq<char>, y: Seq<char>)
    requires
        a + x == b + y,
        a.len() > 0,
        b.len() > 0,
    ensures
        a[0] == b[0],
{
    assert((a + x)[0] == a[0]);
    assert((b + y)[0] == b[0]);
}

/// Taking the same first character off equal texts leaves equal texts.
proof fn lemma_behead(c: char, x: Seq<char>, d: char, y: Seq<char>)
    requires
        seq![c] + x == seq![d] + y,
    ensures
        c == d,
        x == y,
{
    lemma_split(seq![c], x, seq![d], y);
    assert(seq![c][0] == seq![d][0]);
}

proof fn lemma_digit_chars_differ(a: int, b: int)
    requires
        0 <= a < 16,
        0 <= b < 16,
        digit_char(a) == digit_char(b),
    ensures
        a == b,
{
}

/// The escaped form of a character is one, two or six characters long and
/// never begins with a quote.
proof fn lemma_escaped_char_shape(c: char)
    ensures
        escaped_char(c).len() == 1 || escaped_char(c).len() == 2 || escaped_char(c).len() == 6,
        escaped_char(c)[0] != '"',
        escaped_char(c)[0] == '\\' <==> escaped_char(c).len() > 1,
        escaped_char(c).len() == 1 ==> escaped_char(c)[0] == c,
        escaped_char(c).len() == 6 <==> escaped_char(c).len() > 1 && escaped_char(c)[1] == 'u',
{
}

/// The escaped forms of two characters that begin equal texts are the
/// escaped form of one character.
proof fn lemma_escaped_char_prefix(c: char, x: Seq<char>, d: char, y: Seq<char>)
    requires
        escaped_char(c) + x == escaped_char(d) + y,
    ensures
        c == d,
        x == y,
{
    let a = escaped_char(c);
    let b = escaped_char(d);
    lemma_escaped_char_shape(c);
    lemma_escaped_char_shape(d);
    lemma_first(a, x, b, y);
    if a.len() == 1 {
        assert(b.len() == 1);
        lemma_split(a, x, b, y);
    } else {
        assert((a + x)[1] == a[1]);
        assert((b + y)[1] == b[1]);
        if a.len() == 6 {
            assert(b.len() == 6);
            lemma_split(a, x, b, y);
            assert(a[4] == b[4]);
            assert(a[5] == b[5]);
            let m = (c as u32) as int;
            let n = (d as u32) as int;
            lemma_digit_chars_differ(m / 16, n / 16);
            lemma_digit_chars_differ(m % 16, n % 16);
            assert(m == n);
            assert(c as u32 == d as u32);
        } else {
            assert(b.len() == 2);
            lemma_split(a, x, b, y);
            assert(a[1] == b[1]);
        }
    }
}

/// The escaped characters of a string are those of its first character and
/// then those of the rest.
proof fn lemma_escaped_from_front(t: Seq<char>, k: int)
    requires
        0 <= k <= t.len(),
    ensures
        escaped(t.take(k)) + escaped_from(t, k) == escaped(t),
    decreases t.len() - k,
{
    if k == t.len() {
        assert(t.take(k) =~= t);
        assert(escaped(t) + Seq::<char>::empty() =~= escaped(t));
    } else {
        lemma_escaped_from_front(t, k + 1);
        assert(t.take(k + 1).drop_last() =~= t.take(k));
        assert(t.take(k + 1).last() == t[k]);
        assert(escaped(t.take(k)) + (escaped_char(t[k]) + escaped_from(t, k + 1)) =~= (escaped(
            t.take(k),
        ) + escaped_char(t[k])) + escaped_from(t, k + 1));
    }
}

/// Two strings whose escaped characters from place `k` on, each followed
/// by a quote, begin equal texts are the same from that place on.
proof fn lemma_escaped_prefix(t: Seq<char>, u: Seq<char>, k: int, x: Seq<char>, y: Seq<char>)
    requires
        0 <= k <= t.len(),
        k <= u.len(),
        escaped_from(t, k) + seq!['"'] + x == escaped_from(u, k) + seq!['"'] + y,
    ensures
        t.skip(k) == u.skip(k),
        x == y,
    decreases t.len() - k,
{
    if k == t.len() {
        assert(escaped_from(t, k) + seq!['"'] + x =~= seq!['"'] + x);
        if k < u.len() {
            lemma_escaped_char_shape(u[k]);
            let rest = escaped_from(u, k + 1) + seq!['"'] + y;
            assert(escaped_from(u, k) + seq!['"'] + y =~= escaped_char(u[k]) + rest);
            lemma_first(seq!['"'], x, escaped_char(u[k]), rest);
        } else {
            assert(escaped_from(u, k) + seq!['"'] + y =~= seq!['"'] + y);
            lemma_behead('"', x, '"', y);
            assert(t.skip(k) =~= u.skip(k));
        }
    } else {
        lemma_escaped_char_shape(t[k]);
        let rest_t = escaped_from(t, k + 1) + seq!['"'] + x;
        assert(escaped_from(t, k) + seq!['"'] + x =~= escaped_char(t[k]) + rest_t);
        if k == u.len() {
            assert(escaped_from(u, k) + seq!['"'] + y =~= seq!['"'] + y);
            lemma_first(escaped_char(t[k]), rest_t, seq!['"'], y);
        } else {
            let rest_u = escaped_from(u, k + 1) + seq!['"'] + y;
            assert(escaped_from(u, k) + seq!['"'] + y =~= escaped_char(u[k]) + rest_u);
            lemma_escaped_char_prefix(t[k], rest_t, u[k], rest_u);
            lemma_escaped_prefix(t, u, k + 1, x, y);
            assert(t.skip(k) =~= seq![t[k]] + t.skip(k + 1));
            assert(u.skip(k) =~= seq![u[k]] + u.skip(k + 1));
        }
    }
}

/// Two strings whose quoted texts begin equal texts are the same string.
pub(crate) proof fn lemma_quoted_prefix(t: Seq<char>, x: Seq<char>, u: Seq<char>, y: Seq<char>)
    requires
        quoted(t) + x == quoted(u) + y,
    ensures
        t == u,
        x == y,
{
    lemma_escaped_from_front(t, 0);
    lemma_escaped_from_front(u, 0);
    assert(t.take(0) =~= Seq::<char>::empty());
    assert(u.take(0) =~= Seq::<char>::empty());
    assert(escaped(t) =~= escaped_from(t, 0));
    assert(escaped(u) =~= escaped_from(u, 0));
    let inner_t = escaped_from(t, 0) + seq!['"'] + x;
    let inner_u = escaped_from(u, 0) + seq!['"'] + y;
    assert(quoted(t) + x =~= seq!['"'] + inner_t);
    assert(quoted(u) + y =~= seq!['"'] + inner_u);
    lemma_behead('"', inner_t, '"', inner_u);
    lemma_escaped_prefix(t, u, 0, x, y);
    assert(t.skip(0) =~= t);
    assert(u.skip(0) =~= u);
}

/// The text of the first items and the text of the items that follow make
/// the text of all the items.
proof fn lemma_items_from_front(items: Seq<JsonModel>, k: int)
    requires
        0 <= k <= items.len(),
    ensures
        items_text(items, k as nat) + items_from(items, k) == items_text(items, items.len()),
    decreases items.len() - k,
{
    if k == items.len() {
        assert(items_text(items, k as nat) + Seq::<char>::empty() =~= items_text(items, k as nat));
    } else {
        lemma_items_from_front(items, k + 1);
        if k == 0 {
            assert(items_text(items, 0) =~= Seq::<char>::empty());
            assert(items_text(items, 1) + items_from(items, 1) =~= items_text(items, 0)
                + items_from(items, 0));
        } else {
            assert(items_text(items, (k + 1) as nat) + items_from(items, k + 1) =~= items_text(
                items,
                k as nat,
            ) + items_from(items, k));
        }
    }
}

/// The text of the first members and the text of the members that follow
/// make the text of all the members.
proof fn lemma_members_from_front(members: Seq<JsonMemberModel>, k: int)
    requires
        0 <= k <= members.len(),
    ensures
        members_text(members, k as nat) + members_from(members, k) == members_text(
            members,
            members.len(),
        ),
    decreases members.len() - k,
{
    if k == members.len() {
        assert(members_text(members, k as nat) + Seq::<char>::empty() =~= members_text(
            members,
            k as nat,
        ));
    } else {
        lemma_members_from_front(members, k + 1);
        if k == 0 {
            assert(members_text(members, 0) =~= Seq::<char>::empty());
            assert(members_text(members, 1) + members_from(members, 1) =~= members_text(members, 0)
                + members_from(members, 0));
        } else {
            assert(members_text(members, (k + 1) as nat) + members_from(members, k + 1)
                =~= members_text(members, k as nat) + members_from(members, k));
        }
    }
}

/// The character that the text of a value begins with, by the kind of the
/// value.
proof fn lemma_first_char(v: JsonModel)
    requires
        well_formed(v),
    ensures
        json_text(v).len() > 0,
        v is Null <==> json_text(v)[0] == 'n',
        v is Bool <==> (json_text(v)[0] == 't' || json_text(v)[0] == 'f'),
        v is Number <==> (json_text(v)[0] == '-' || '0' <= json_text(v)[0] <= '9'),
        v is Text <==> json_text(v)[0] == '"',
        v is Array <==> json_text(v)[0] == '[',
        v is Object <==> json_text(v)[0] == '{',
{
    match v {
        JsonModel::Text(t) => {
            assert(quoted(t)[0] == '"');
        },
        JsonModel::Array(items) => {
            assert(json_text(v)[0] == '[');
        },
        JsonModel::Object(members) => {
            assert(json_text(v)[0] == '{');
        },
        _ => {},
    }
}

/// Two values whose texts begin equal texts, each followed by something
/// that can follow a value, are the same value.
pub proof fn lemma_value_prefix(a: JsonModel, x: Seq<char>, b: JsonModel, y: Seq<char>)
    requires
        well_formed(a),
        well_formed(b),
        can_follow(x),
        can_follow(y),
        json_text(a) + x == json_text(b) + y,
    ensures
        a == b,
        x == y,
    decreases a, 0nat,
{
    lemma_first_char(a);
    lemma_first_char(b);
    lemma_first(json_text(a), x, json_text(b), y);
    match a {
        JsonModel::Null => {
            lemma_split(json_text(a), x, json_text(b), y);
        },
        JsonModel::Bool(p) => {
            let q = b->Bool_0;
            assert(p == q);
            lemma_split(json_text(a), x, json_text(b), y);
        },
        JsonModel::Number(t) => {
            let u = b->Number_0;
            if t.len() < u.len() {
                assert((t + x)[t.len() as int] == x[0]);
                assert((u + y)[t.len() as int] == u[t.len() as int]);
            } else if u.len() < t.len() {
                assert((u + y)[u.len() as int] == y[0]);
                assert((t + x)[u.len() as int] == t[u.len() as int]);
            }
            lemma_split(t, x, u, y);
        },
        JsonModel::Text(t) => {
            let u = b->Text_0;
            lemma_quoted_prefix(t, x, u, y);
        },
        JsonModel::Array(items) => {
            let others = b->Array_0;
            lemma_items_from_front(items, 0);
            lemma_items_from_front(others, 0);
            assert(items_text(items, 0) =~= Seq::<char>::empty());
            assert(items_text(others, 0) =~= Seq::<char>::empty());
            assert(items_from(items, 0) =~= items_text(items, items.len()));
            assert(items_from(others, 0) =~= items_text(others, others.len()));
            let inner_a = items_from(items, 0) + seq![']'] + x;
            let inner_b = items_from(others, 0) + seq![']'] + y;
            assert(json_text(a) + x =~= seq!['['] + inner_a);
            assert(json_text(b) + y =~= seq!['['] + inner_b);
            lemma_behead('[', inner_a, '[', inner_b);
            lemma_items_prefix(items, others, 0, x, y);
            assert(items.skip(0) =~= items);
            assert(others.skip(0) =~= others);
        },
        JsonModel::Object(members) => {
            let others = b->Object_0;
            lemma_members_from_front(members, 0);
            lemma_members_from_front(others, 0);
            assert(members_text(members, 0) =~= Seq::<char>::empty());
            assert(members_text(others, 0) =~= Seq::<char>::empty());
            assert(members_from(members, 0) =~= members_text(members, members.len()));
            assert(members_from(others, 0) =~= members_text(others, others.len()));
            let inner_a = members_from(members, 0) + (seq!['}'] + x);
            let inner_b = members_from(others, 0) + (seq!['}'] + y);
            assert(json_text(a) + x =~= seq!['{'] + inner_a);
            assert(json_text(b) + y =~= seq!['{'] + inner_b);
            lemma_behead('{', inner_a, '{', inner_b);
            lemma_members_prefix(members, others, 0, x, y);
            assert(members.skip(0) =~= members);
            assert(others.skip(0) =~= others);
        },
    }
}

/// Two arrays whose items from place `k` on, each followed by the closing
/// bracket, begin equal texts have the same items from that place on.
proof fn lemma_items_prefix(
    items: Seq<JsonModel>,
    others: Seq<JsonModel>,
    k: int,
    x: Seq<char>,
    y: Seq<char>,
)
    requires
        0 <= k <= items.len(),
        k <= others.len(),
        forall|i: int| 0 <= i < items.len() ==> well_formed(#[trigger] items[i]),
        forall|i: int| 0 <= i < others.len() ==> well_formed(#[trigger] others[i]),
        items_from(items, k) + seq![']'] + x == items_from(others, k) + seq![']'] + y,
    ensures
        items.skip(k) == others.skip(k),
        x == y,
    decreases items, items.len() - k,
{
    let close_x = seq![']'] + x;
    let close_y = seq![']'] + y;
    if k == items.len() {
        assert(items_from(items, k) + seq![']'] + x =~= close_x);
        if k < others.len() {
            lemma_first_char(others[k]);
            let value = json_text(others[k]);
            let rest = items_from(others, k + 1) + close_y;
            if k == 0 {
                assert(items_from(others, k) + seq![']'] + y =~= value + rest);
                lemma_first(seq![']'], x, value, rest);
            } else {
                assert(items_from(others, k) + seq![']'] + y =~= seq![','] + (value + rest));
                lemma_first(seq![']'], x, seq![','], value + rest);
            }
        } else {
            assert(items_from(others, k) + seq![']'] + y =~= close_y);
            lemma_behead(']', x, ']', y);
            assert(items.skip(k) =~= others.skip(k));
        }
    } else {
        lemma_first_char(items[k]);
        let value_a = json_text(items[k]);
        let rest_a = items_from(items, k + 1) + close_x;
        if k == others.len() {
            assert(items_from(others, k) + seq![']'] + y =~= close_y);
            if k == 0 {
                assert(items_from(items, k) + seq![']'] + x =~= value_a + rest_a);
                lemma_first(value_a, rest_a, seq![']'], y);
            } else {
                assert(items_from(items, k) + seq![']'] + x =~= seq![','] + (value_a + rest_a));
                lemma_first(seq![','], value_a + rest_a, seq![']'], y);
            }
        } else {
            let value_b = json_text(others[k]);
            let rest_b = items_from(others, k + 1) + close_y;
            if k == 0 {
                assert(items_from(items, k) + seq![']'] + x =~= value_a + rest_a);
                assert(items_from(others, k) + seq![']'] + y =~= value_b + rest_b);
            } else {
                assert(items_from(items, k) + seq![']'] + x =~= seq![','] + (value_a + rest_a));
                assert(items_from(others, k) + seq![']'] + y =~= seq![','] + (value_b + rest_b));
                lemma_behead(',', value_a + rest_a, ',', value_b + rest_b);
            }
            lemma_follows(items_from(items, k + 1), close_x, ']');
            lemma_follows(items_from(others, k + 1), close_y, ']');
            lemma_items_from_starts(items, k + 1);
            lemma_items_from_starts(others, k + 1);
            lemma_value_prefix(items[k], rest_a, others[k], rest_b);
            assert(rest_a =~= items_from(items, k + 1) + seq![']'] + x);
            assert(rest_b =~= items_from(others, k + 1) + seq![']'] + y);
            lemma_items_prefix(items, others, k + 1, x, y);
            assert(items.skip(k) =~= seq![items[k]] + items.skip(k + 1));
            assert(others.skip(k) =~= seq![others[k]] + others.skip(k + 1));
        }
    }
}

/// What follows an item of an array begins with a comma, if anything.
proof fn lemma_items_from_starts(items: Seq<JsonModel>, k: int)
    requires
        1 <= k,
    ensures
        items_from(items, k).len() > 0 ==> items_from(items, k)[0] == ',',
{
    if k < items.len() {
        assert(items_from(items, k)[0] == ',');
    }
}

/// What follows a member of an object begins with a comma, if anything.
proof fn lemma_members_from_starts(members: Seq<JsonMemberModel>, k: int)
    requires
        1 <= k,
    ensures
        members_from(members, k).len() > 0 ==> members_from(members, k)[0] == ',',
{
    if k < members.len() {
        assert(members_from(members, k)[0] == ',');
    }
}

/// A text that begins with a comma or not at all, followed by a closing
/// bracket, can follow a value.
proof fn lemma_follows(more: Seq<char>, close: Seq<char>, bracket: char)
    requires
        close.len() > 0,
        close[0] == bracket,
        bracket == ']' || bracket == '}',
        more.len() > 0 ==> more[0] == ',',
    ensures
        can_follow(more + close),
{
    if more.len() > 0 {
        assert((more + close)[0] == more[0]);
    } else {
        assert((more + close)[0] == close[0]);
    }
}

/// Two members whose texts begin equal texts, each followed by something
/// that can follow a value, are the same member.
proof fn lemma_member_prefix(a: JsonMemberModel, x: Seq<char>, b: JsonMemberModel, y: Seq<char>)
    requires
        well_formed(a.value),
        well_formed(b.value),
        can_follow(x),
        can_follow(y),
        member_text(a) + x == member_text(b) + y,
    ensures
        a == b,
        x == y,
    decreases a, 0nat,
{
    let after_a = seq![':'] + (json_text(a.value) + x);
    let after_b = seq![':'] + (json_text(b.value) + y);
    assert(member_text(a) + x =~= quoted(a.name) + after_a);
    assert(member_text(b) + y =~= quoted(b.name) + after_b);
    lemma_quoted_prefix(a.name, after_a, b.name, after_b);
    lemma_behead(':', json_text(a.value) + x, ':', json_text(b.value) + y);
    lemma_value_prefix(a.value, x, b.value, y);
}

/// The text of a member begins with a quote.
proof fn lemma_member_starts(member: JsonMemberModel)
    ensures
        member_text(member).len() > 0,
        member_text(member)[0] == '"',
{
    assert(quoted(member.name)[0] == '"');
    assert(member_text(member)[0] == quoted(member.name)[0]);
}

/// The members of an object from place `k` on, where there is one at that
/// place: a comma unless the place is the first, the member, and the
/// members that follow.
proof fn lemma_members_from_unfold(members: Seq<JsonMemberModel>, k: int, close: Seq<char>)
    requires
        0 <= k < members.len(),
    ensures
        k == 0 ==> members_from(members, k) + close == member_text(members[k]) + (members_from(
            members,
            k + 1,
        ) + close),
        k > 0 ==> members_from(members, k) + close == seq![','] + (member_text(members[k]) + (
        members_from(members, k + 1) + close)),
{
    if k == 0 {
        assert(members_from(members, k) + close =~= member_text(members[k]) + (members_from(
            members,
            k + 1,
        ) + close));
    } else {
        assert(members_from(members, k) + close =~= seq![','] + (member_text(members[k]) + (
        members_from(members, k + 1) + close)));
    }
}

/// Two objects whose members from place `k` on, each followed by the
/// closing brace, begin equal texts have the same members from that place
/// on.
proof fn lemma_members_prefix(
    members: Seq<JsonMemberModel>,
    others: Seq<JsonMemberModel>,
    k: int,
    x: Seq<char>,
    y: Seq<char>,
)
    requires
        0 <= k <= members.len(),
        k <= others.len(),
        forall|i: int| 0 <= i < members.len() ==> well_formed((#[trigger] members[i]).value),
        forall|i: int| 0 <= i < others.len() ==> well_formed((#[trigger] others[i]).value),
        members_from(members, k) + (seq!['}'] + x) == members_from(others, k) + (seq!['}'] + y),
    ensures
        members.skip(k) == others.skip(k),
        x == y,
    decreases members, members.len() - k,
{
    let close_x = seq!['}'] + x;
    let close_y = seq!['}'] + y;
    if k == members.len() {
        assert(members_from(members, k) + close_x =~= close_x);
        if k < others.len() {
            lemma_members_from_unfold(others, k, close_y);
            lemma_member_starts(others[k]);
            let rest = members_from(others, k + 1) + close_y;
            if k == 0 {
                lemma_first(seq!['}'], x, member_text(others[k]), rest);
            } else {
                lemma_first(seq!['}'], x, seq![','], member_text(others[k]) + rest);
            }
        } else {
            assert(members_from(others, k) + close_y =~= close_y);
            lemma_behead('}', x, '}', y);
            assert(members.skip(k) =~= others.skip(k));
        }
    } else {
        lemma_members_from_unfold(members, k, close_x);
        lemma_member_starts(members[k]);
        let rest_a = members_from(members, k + 1) + close_x;
        if k == others.len() {
            assert(members_from(others, k) + close_y =~= close_y);
            if k == 0 {
                lemma_first(member_text(members[k]), rest_a, seq!['}'], y);
            } else {
                lemma_first(seq![','], member_text(members[k]) + rest_a, seq!['}'], y);
            }
        } else {
            lemma_members_from_unfold(others, k, close_y);
            let rest_b = members_from(others, k + 1) + close_y;
            if k > 0 {
                lemma_behead(
                    ',',
                    member_text(members[k]) + rest_a,
                    ',',
                    member_text(others[k]) + rest_b,
                );
            }
            lemma_members_from_starts(members, k + 1);
            lemma_members_from_starts(others, k + 1);
            lemma_follows(members_from(members, k + 1), close_x, '}');
            lemma_follows(members_from(others, k + 1), close_y, '}');
            lemma_member_prefix(members[k], rest_a, others[k], rest_b);
            lemma_members_prefix(members, others, k + 1, x, y);
            assert(members.skip(k) =~= seq![members[k]] + members.skip(k + 1));
            assert(others.skip(k) =~= seq![others[k]] + others.skip(k + 1));
        }
    }
}

/// No two values have the same text.
pub proof fn lemma_json_text_is_unique(a: JsonModel, b: JsonModel)
    requires
        well_formed(a),
        well_formed(b),
        json_text(a) == json_text(b),
    ensures
        a == b,
{
    assert(json_text(a) + Seq::<char>::empty() =~= json_text(a));
    assert(json_text(b) + Seq::<char>::empty() =~= json_text(b));
    lemma_value_prefix(a, Seq::empty(), b, Seq::empty());
}

/// The value that a text is the text of, if it is the text of any.
pub open spec fn decoded(text: Seq<char>) -> Option<JsonModel> {
    if exists|v: JsonModel| well_formed(v) && json_text(v) == text {
        Some(choose|v: JsonModel| well_formed(v) && json_text(v) == text)
    } else {
        None
    }
}

/// Encoding and then decoding is the identity: the text of a value is the
/// text of that value and of no other.
pub proof fn lemma_decoding_inverts_encoding(v: JsonModel)
    requires
        well_formed(v),
    ensures
        decoded(json_text(v)) == Some(v),
{
    let found = choose|w: JsonModel| well_formed(w) && json_text(w) == json_text(v);
    lemma_json_text_is_unique(found, v);
}

} // verus!
