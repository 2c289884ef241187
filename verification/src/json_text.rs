//! The text of JSON values, and values from text.

use crate::json::{json_views, member_views, view_by_variant, Json, JsonNumber, JsonView, NumberView};
use crate::text::{concat2, concat3, decimal, decimal_text, join_texts, joined, texts};
use vstd::prelude::*;
use vstd::string::*;

verus! {

// ---------------------------------------------------------------------
// Writing
// ---------------------------------------------------------------------

/// The lower-case hexadecimal digit of `n`, below sixteen.
pub open spec fn hex_digit(n: int) -> char {
    "0123456789abcdef"@[n]
}

/// One character as it stands inside a JSON string.
pub open spec fn escaped_char(c: char) -> Seq<char> {
    if c == '"' {
        seq!['\\', '"']
    } else if c == '\\' {
        seq!['\\', '\\']
    } else if c == '\u{8}' {
        seq!['\\', 'b']
    } else if c == '\u{c}' {
        seq!['\\', 'f']
    } else if c == '\n' {
        seq!['\\', 'n']
    } else if c == '\r' {
        seq!['\\', 'r']
    } else if c == '\t' {
        seq!['\\', 't']
    } else if '\u{20}' > c {
        seq!['\\', 'u', '0', '0', hex_digit(c as int / 16), hex_digit(c as int % 16)]
    } else {
        seq![c]
    }
}

/// The characters of `s` as they stand inside a JSON string.
pub open spec fn escaped_chars(s: Seq<char>) -> Seq<char>
    decreases s.len(),
{
    if s.len() == 0 {
        s
    } else {
        escaped_chars(s.drop_last()) + escaped_char(s.last())
    }
}

/// `s` as a JSON string.
pub open spec fn quoted(s: Seq<char>) -> Seq<char> {
    seq!['"'] + escaped_chars(s) + seq!['"']
}

/// `serde_json`'s text of a string value: the string in double quotes, with
/// the quote, the backslash and the control characters below U+0020 escaped,
/// by their short form where JSON has one and by `\u00` and two lower-case
/// hexadecimal digits otherwise.
#[verifier::external_body]
fn quote(s: &str) -> (r: String)
    ensures
        r@ == quoted(s@),
{
    serde_json::Value::String(s.to_owned()).to_string()
}

/// The decimal text of an integer.
pub open spec fn integer_text(n: int) -> Seq<char> {
    if n < 0 {
        "-"@ + decimal((-n) as nat)
    } else {
        decimal(n as nat)
    }
}

/// The text of a number.
pub open spec fn number_text(n: NumberView) -> Seq<char> {
    match n {
        NumberView::PosInt(k) => decimal(k as nat),
        NumberView::NegInt(k) => integer_text(k as int),
        NumberView::Float { bits, text } => text,
    }
}

/// The compact text of a value: no white space, members in their order.
pub open spec fn json_text(v: JsonView) -> Seq<char>
    decreases v, 1int, 0int,
{
    match v {
        JsonView::Null => "null"@,
        JsonView::Bool(b) => if b {
            "true"@
        } else {
            "false"@
        },
        JsonView::Number(n) => number_text(n),
        JsonView::Text(s) => quoted(s),
        JsonView::Array(items) => "["@ + joined(part_texts(v, items.len()), ","@) + "]"@,
        JsonView::Object(members) => "{"@ + joined(part_texts(v, members.len()), ","@) + "}"@,
    }
}

/// The texts of the first `n` parts of a value: the items of an array, or
/// the members of an object, name and value.
pub open spec fn part_texts(v: JsonView, n: nat) -> Seq<Seq<char>>
    decreases v, 0int, n,
{
    if n == 0 {
        Seq::empty()
    } else {
        let i = n - 1;
        let before = part_texts(v, i as nat);
        match v {
            JsonView::Array(items) => if i < items.len() {
                before.push(json_text(items[i]))
            } else {
                before
            },
            JsonView::Object(members) => if i < members.len() {
                before.push(quoted(members[i].0) + ":"@ + json_text(members[i].1))
            } else {
                before
            },
            _ => before,
        }
    }
}

proof fn array_part_texts(items: Seq<JsonView>, n: nat)
    requires
        n <= items.len(),
    ensures
        part_texts(JsonView::Array(items), n) == Seq::new(n, |i: int| json_text(items[i])),
    decreases n,
{
    if n > 0 {
        array_part_texts(items, (n - 1) as nat);
    }
    assert(part_texts(JsonView::Array(items), n) =~= Seq::new(n, |i: int| json_text(items[i])));
}

proof fn object_part_texts(members: Seq<(Seq<char>, JsonView)>, n: nat)
    requires
        n <= members.len(),
    ensures
        part_texts(JsonView::Object(members), n) == Seq::new(
            n,
            |i: int| quoted(members[i].0) + ":"@ + json_text(members[i].1),
        ),
    decreases n,
{
    if n > 0 {
        object_part_texts(members, (n - 1) as nat);
    }
    assert(part_texts(JsonView::Object(members), n) =~= Seq::new(
        n,
        |i: int| quoted(members[i].0) + ":"@ + json_text(members[i].1),
    ));
}

/// The decimal text of a signed integer.
pub fn signed_text(n: i64) -> (r: String)
    ensures
        r@ == integer_text(n as int),
{
    if n < 0 {
        let size: u64 = (-(n as i128)) as u64;
        let digits = decimal_text(size);
        concat2("-", digits.as_str())
    } else {
        decimal_text(n as u64)
    }
}

impl JsonNumber {
    /// The text of the number.
    pub fn text(&self) -> (r: String)
        ensures
            r@ == number_text(self@),
    {
        match self {
            JsonNumber::PosInt(n) => decimal_text(*n),
            JsonNumber::NegInt(n) => signed_text(*n),
            JsonNumber::Float { bits: _, text } => text.clone(),
        }
    }
}

impl Json {
    /// The compact text of the value.
    pub fn text(&self) -> (r: String)
        ensures
            r@ == json_text(self@),
        decreases self,
    {
        broadcast use view_by_variant;

        match self {
            Json::Null => "null".to_owned(),
            Json::Bool(b) => if *b {
                "true".to_owned()
            } else {
                "false".to_owned()
            },
            Json::Number(n) => n.text(),
            Json::Text(s) => quote(s.as_str()),
            Json::Array(items) => {
                let list = item_texts(items);
                let inner = join_texts(&list, ",");
                proof {
                    let views = json_views(items@);
                    array_part_texts(views, views.len());
                    assert(texts(list@) =~= part_texts(self@, views.len()));
                }
                concat3("[", inner.as_str(), "]")
            },
            Json::Object(members) => {
                let list = member_texts(members);
                let inner = join_texts(&list, ",");
                proof {
                    let views = member_views(members@);
                    object_part_texts(views, views.len());
                    assert(texts(list@) =~= part_texts(self@, views.len()));
                }
                concat3("{", inner.as_str(), "}")
            },
        }
    }
}

fn item_texts(items: &Vec<Json>) -> (r: Vec<String>)
    ensures
        r@.len() == items@.len(),
        forall|j: int| 0 <= j < r@.len() ==> (#[trigger] r@[j])@ == json_text(items@[j]@),
    decreases items,
{
    let mut out: Vec<String> = Vec::new();
    let mut i: usize = 0;
    while i < items.len()
        invariant
            i <= items@.len(),
            out@.len() == i,
            forall|j: int| 0 <= j < i ==> (#[trigger] out@[j])@ == json_text(items@[j]@),
        decreases items@.len() - i,
    {
        assert(decreases_to!(items => items[i as int]));
        let t = items[i].text();
        out.push(t);
        i = i + 1;
    }
    out
}

fn member_texts(members: &Vec<(String, Json)>) -> (r: Vec<String>)
    ensures
        r@.len() == members@.len(),
        forall|j: int|
            0 <= j < r@.len() ==> (#[trigger] r@[j])@ == quoted(members@[j].0@) + ":"@ + json_text(
                members@[j].1@,
            ),
    decreases members,
{
    let mut out: Vec<String> = Vec::new();
    let mut i: usize = 0;
    while i < members.len()
        invariant
            i <= members@.len(),
            out@.len() == i,
            forall|j: int|
                0 <= j < i ==> (#[trigger] out@[j])@ == quoted(members@[j].0@) + ":"@ + json_text(
                    members@[j].1@,
                ),
        decreases members@.len() - i,
    {
        assert(decreases_to!(members => members[i as int]));
        let name = quote(members[i].0.as_str());
        let value = members[i].1.text();
        let t = concat3(name.as_str(), ":", value.as_str());
        out.push(t);
        i = i + 1;
    }
    out
}

/// A value as text for a URL, a header or a message: strings without quotes,
/// nothing for `null`, the JSON text of everything else.
pub open spec fn plain_text(v: JsonView) -> Seq<char> {
    match v {
        JsonView::Text(s) => s,
        JsonView::Null => ""@,
        _ => json_text(v),
    }
}

/// The value as plain text.
pub fn value_to_string(value: &Json) -> (r: String)
    ensures
        r@ == plain_text(value@),
{
    broadcast use view_by_variant;

    match value {
        Json::Text(s) => s.clone(),
        Json::Null => "".to_owned(),
        _ => value.text(),
    }
}

// ---------------------------------------------------------------------
// Reading
// ---------------------------------------------------------------------

/// How deep arrays and objects nest in a value.
pub open spec fn nesting(v: JsonView) -> nat
    decreases v, 1int, 0int,
{
    match v {
        JsonView::Array(items) => 1 + part_nesting(v, items.len()),
        JsonView::Object(members) => 1 + part_nesting(v, members.len()),
        _ => 0,
    }
}

/// How deep arrays and objects nest in the first `n` parts of a value.
pub open spec fn part_nesting(v: JsonView, n: nat) -> nat
    decreases v, 0int, n,
{
    if n == 0 {
        0
    } else {
        let i = n - 1;
        let before = part_nesting(v, i as nat);
        let here = match v {
            JsonView::Array(items) => if i < items.len() {
                nesting(items[i])
            } else {
                0
            },
            JsonView::Object(members) => if i < members.len() {
                nesting(members[i].1)
            } else {
                0
            },
            _ => 0,
        };
        if before < here {
            here
        } else {
            before
        }
    }
}

proof fn part_nests_less(v: JsonView, n: nat, i: int)
    requires
        0 <= i < n,
    ensures
        v matches JsonView::Array(items) ==> i < items.len() ==> nesting(items[i]) <= part_nesting(
            v,
            n,
        ),
        v matches JsonView::Object(members) ==> i < members.len() ==> nesting(members[i].1)
            <= part_nesting(v, n),
    decreases n,
{
    if i < n - 1 {
        part_nests_less(v, (n - 1) as nat, i);
    }
}

/// A value as `serde_json` holds it.
#[verifier::external_type_specification]
#[verifier::external_body]
pub struct ExValue(serde_json::Value);

/// A number as `serde_json` holds it.
#[verifier::external_type_specification]
#[verifier::external_body]
pub struct ExNumber(serde_json::Number);

/// What a `serde_json` value holds.
pub uninterp spec fn value_content(v: serde_json::Value) -> JsonView;

/// What a `serde_json` number holds.
pub uninterp spec fn number_content(n: serde_json::Number) -> NumberView;

/// The value that a JSON text stands for, as `serde_json` reads it.
pub uninterp spec fn parsed_json(bytes: Seq<u8>) -> Option<JsonView>;

/// A `serde_json` value, one level of it opened.
pub enum Opened {
    Null,
    Bool(bool),
    Number(serde_json::Number),
    Text(String),
    Array(Vec<serde_json::Value>),
    Object(Vec<(String, serde_json::Value)>),
}

/// The content of a value that was opened one level.
pub open spec fn opened_content(o: Opened) -> JsonView {
    match o {
        Opened::Null => JsonView::Null,
        Opened::Bool(b) => JsonView::Bool(b),
        Opened::Number(n) => JsonView::Number(number_content(n)),
        Opened::Text(s) => JsonView::Text(s@),
        Opened::Array(items) => JsonView::Array(
            items@.map_values(|v: serde_json::Value| value_content(v)),
        ),
        Opened::Object(members) => JsonView::Object(
            members@.map_values(|m: (String, serde_json::Value)| (m.0@, value_content(m.1))),
        ),
    }
}

/// `serde_json::from_slice` into a value: what it reads is a function of the
/// bytes alone, and it refuses a text whose arrays and objects nest 128 deep
/// or deeper.
#[verifier::external_body]
fn read_value(bytes: &[u8]) -> (r: Option<serde_json::Value>)
    ensures
        match r {
            Some(v) => parsed_json(bytes@) == Some(value_content(v)) && nesting(value_content(v))
                < 128,
            None => parsed_json(bytes@) is None,
        },
{
    serde_json::from_slice::<serde_json::Value>(bytes).ok()
}

/// The variants of `serde_json::Value`: each is handed out with its fields,
/// the members of an object in the order in which the map walks them.
#[verifier::external_body]
fn open_value(v: serde_json::Value) -> (r: Opened)
    ensures
        value_content(v) == opened_content(r),
{
    match v {
        serde_json::Value::Null => Opened::Null,
        serde_json::Value::Bool(b) => Opened::Bool(b),
        serde_json::Value::Number(n) => Opened::Number(n),
        serde_json::Value::String(s) => Opened::Text(s),
        serde_json::Value::Array(items) => Opened::Array(items),
        serde_json::Value::Object(members) => Opened::Object(members.into_iter().collect()),
    }
}

/// `serde_json::Number::as_u64`: the number where it is a non-negative
/// integer, and nothing otherwise.
#[verifier::external_body]
fn number_as_unsigned(n: &serde_json::Number) -> (r: Option<u64>)
    ensures
        r == (match number_content(*n) {
            NumberView::PosInt(k) => Some(k),
            _ => None,
        }),
{
    n.as_u64()
}

/// `serde_json::Number::as_i64`: the number where it is an integer that a
/// signed 64-bit word holds, and nothing otherwise.
#[verifier::external_body]
fn number_as_signed(n: &serde_json::Number) -> (r: Option<i64>)
    ensures
        r == (match number_content(*n) {
            NumberView::PosInt(k) => if k <= i64::MAX {
                Some(k as i64)
            } else {
                None
            },
            NumberView::NegInt(k) => Some(k),
            NumberView::Float { bits, text } => None,
        }),
{
    n.as_i64()
}

/// `serde_json::Number::as_f64`: the bits of the number where it is a
/// floating-point number. What it gives for an integer is left unsaid.
#[verifier::external_body]
fn number_bits(n: &serde_json::Number) -> (r: Option<u64>)
    ensures
        match number_content(*n) {
            NumberView::Float { bits, text } => r == Some(bits),
            _ => r is Some,
        },
{
    n.as_f64().map(|x| x.to_bits())
}

/// The text of a `serde_json::Number`: its decimal digits where it is an
/// integer, and the text that it is held by where it is not.
#[verifier::external_body]
fn number_as_text(n: &serde_json::Number) -> (r: String)
    ensures
        r@ == number_text(number_content(*n)),
{
    n.to_string()
}

/// The number that a `serde_json` number holds.
fn number_from(n: serde_json::Number) -> (r: JsonNumber)
    ensures
        r@ == number_content(n),
{
    match number_as_unsigned(&n) {
        Some(k) => JsonNumber::PosInt(k),
        None => match number_as_signed(&n) {
            Some(k) => JsonNumber::NegInt(k),
            None => {
                let text = number_as_text(&n);
                match number_bits(&n) {
                    Some(bits) => JsonNumber::Float { bits, text },
                    None => JsonNumber::PosInt(0),
                }
            },
        },
    }
}

/// The value that a `serde_json` value holds.
fn json_from(v: serde_json::Value, depth: u8) -> (r: Json)
    requires
        nesting(value_content(v)) <= depth,
    ensures
        r@ == value_content(v),
    decreases depth, 1int,
{
    broadcast use view_by_variant;

    let ghost content = value_content(v);
    match open_value(v) {
        Opened::Null => Json::Null,
        Opened::Bool(b) => Json::Bool(b),
        Opened::Number(n) => Json::Number(number_from(n)),
        Opened::Text(s) => Json::Text(s),
        Opened::Array(items) => {
            proof {
                assert forall|i: int| 0 <= i < items@.len() implies nesting(
                    value_content(#[trigger] items@[i]),
                ) < depth by {
                    part_nests_less(content, items@.len(), i);
                }
            }
            let ghost values = items@;
            let list = json_items_from(items, depth);
            assert(json_views(list@) =~= values.map_values(
                |v: serde_json::Value| value_content(v),
            ));
            Json::Array(list)
        },
        Opened::Object(members) => {
            proof {
                assert forall|i: int| 0 <= i < members@.len() implies nesting(
                    value_content((#[trigger] members@[i]).1),
                ) < depth by {
                    part_nests_less(content, members@.len(), i);
                }
            }
            let ghost values = members@;
            let list = json_members_from(members, depth);
            assert(member_views(list@) =~= values.map_values(
                |m: (String, serde_json::Value)| (m.0@, value_content(m.1)),
            ));
            Json::Object(list)
        },
    }
}

fn json_items_from(items: Vec<serde_json::Value>, depth: u8) -> (r: Vec<Json>)
    requires
        forall|i: int|
            0 <= i < items@.len() ==> nesting(value_content(#[trigger] items@[i])) < depth,
    ensures
        r@.len() == items@.len(),
        forall|i: int| 0 <= i < r@.len() ==> (#[trigger] r@[i])@ == value_content(items@[i]),
    decreases depth, 0int,
{
    let mut out: Vec<Json> = Vec::new();
    let ghost values = items@;
    for v in it: items
        invariant
            it.seq() == values,
            out@.len() == it.index(),
            forall|i: int|
                0 <= i < values.len() ==> nesting(value_content(#[trigger] values[i])) < depth,
            forall|i: int| 0 <= i < out@.len() ==> (#[trigger] out@[i])@ == value_content(values[i]),
    {
        assert(nesting(value_content(values[it.index() as int])) < depth);
        let j = json_from(v, depth - 1);
        out.push(j);
    }
    out
}

fn json_members_from(members: Vec<(String, serde_json::Value)>, depth: u8) -> (r: Vec<
    (String, Json),
>)
    requires
        forall|i: int|
            0 <= i < members@.len() ==> nesting(value_content((#[trigger] members@[i]).1)) < depth,
    ensures
        r@.len() == members@.len(),
        forall|i: int|
            0 <= i < r@.len() ==> (#[trigger] r@[i]).0@ == members@[i].0@ && r@[i].1@
                == value_content(members@[i].1),
    decreases depth, 0int,
{
    let mut out: Vec<(String, Json)> = Vec::new();
    let ghost values = members@;
    for m in it: members
        invariant
            it.seq() == values,
            out@.len() == it.index(),
            forall|i: int|
                0 <= i < values.len() ==> nesting(value_content((#[trigger] values[i]).1)) < depth,
            forall|i: int|
                0 <= i < out@.len() ==> (#[trigger] out@[i]).0@ == values[i].0@ && out@[i].1@
                    == value_content(values[i].1),
    {
        assert(nesting(value_content(values[it.index() as int].1)) < depth);
        let (name, value) = m;
        let j = json_from(value, depth - 1);
        out.push((name, j));
    }
    out
}

/// The value that a JSON text stands for; nothing when it is no JSON text.
pub fn parse_json(bytes: &[u8]) -> (r: Option<Json>)
    ensures
        match r {
            Some(v) => parsed_json(bytes@) == Some(v@),
            None => parsed_json(bytes@) is None,
        },
{
    match read_value(bytes) {
        Some(v) => Some(json_from(v, 127)),
        None => None,
    }
}

} // verus!
