//! JSON Pointers (RFC 6901): reading a value and replacing one.

use crate::json::{json_views, member_views, view_by_variant, Json, JsonView};
use crate::text::{
    chars_of, concat3, decimal, decimal_text, digit_char, is_digit, same_text, split_on, split_text,
    text_before, text_of, texts,
};
use crate::text_map::before;
use vstd::prelude::*;
use vstd::string::*;

verus! {

/// The members of an object: names and values, in order.
pub type Members = Seq<(Seq<char>, JsonView)>;

// ---------------------------------------------------------------------
// Members of objects
// ---------------------------------------------------------------------

/// The position of the first member at or after `from` that is named `name`;
/// the number of members when there is none.
pub open spec fn member_from(members: Members, from: int, name: Seq<char>) -> int
    decreases members.len() - from,
{
    if from >= members.len() {
        members.len() as int
    } else if members[from].0 == name {
        from
    } else {
        member_from(members, from + 1, name)
    }
}

/// The position of the first member that is named `name`.
pub open spec fn member_at(members: Members, name: Seq<char>) -> int {
    member_from(members, 0, name)
}

/// The value of the member named `name`.
pub open spec fn member_value(members: Members, name: Seq<char>) -> Option<JsonView> {
    if 0 <= member_at(members, name) < members.len() {
        Some(members[member_at(members, name)].1)
    } else {
        None
    }
}

/// The position of the first member at or after `from` whose name comes
/// after `name`.
pub open spec fn member_place(members: Members, from: int, name: Seq<char>) -> int
    decreases members.len() - from,
{
    if from >= members.len() {
        members.len() as int
    } else if text_before(name, members[from].0) {
        from
    } else {
        member_place(members, from + 1, name)
    }
}

/// The members with `name` set to `value`: in its place when there is such a
/// member, else before the first name that comes after it.
pub open spec fn member_set(members: Members, name: Seq<char>, value: JsonView) -> Members {
    let i = member_at(members, name);
    if 0 <= i < members.len() {
        members.update(i, (members[i].0, value))
    } else {
        members.insert(member_place(members, 0, name), (name, value))
    }
}

proof fn member_from_bounds(members: Members, from: int, name: Seq<char>)
    requires
        0 <= from <= members.len(),
    ensures
        from <= member_from(members, from, name) <= members.len(),
        member_from(members, from, name) < members.len() ==> members[member_from(
            members,
            from,
            name,
        )].0 == name,
        forall|j: int|
            from <= j < member_from(members, from, name) ==> (#[trigger] members[j]).0 != name,
    decreases members.len() - from,
{
    if from < members.len() && members[from].0 != name {
        member_from_bounds(members, from + 1, name);
    }
}

proof fn member_place_bounds(members: Members, from: int, name: Seq<char>)
    requires
        0 <= from <= members.len(),
    ensures
        from <= member_place(members, from, name) <= members.len(),
    decreases members.len() - from,
{
    if from < members.len() && !text_before(name, members[from].0) {
        member_place_bounds(members, from + 1, name);
    }
}

proof fn member_from_unique(members: Members, from: int, at: int, name: Seq<char>)
    requires
        0 <= from <= at <= members.len(),
        at < members.len() ==> members[at].0 == name,
        forall|j: int| from <= j < at ==> (#[trigger] members[j]).0 != name,
    ensures
        member_from(members, from, name) == at,
    decreases at - from,
{
    if from < at {
        member_from_unique(members, from + 1, at, name);
    }
}

/// The member that was set is the one that is read.
pub proof fn set_then_read(members: Members, name: Seq<char>, value: JsonView)
    ensures
        member_value(member_set(members, name, value), name) == Some(value),
{
    let after = member_set(members, name, value);
    let i = member_at(members, name);
    member_from_bounds(members, 0, name);
    if i < members.len() {
        member_from_unique(after, 0, i, name);
    } else {
        let p = member_place(members, 0, name);
        member_place_bounds(members, 0, name);
        assert forall|j: int| 0 <= j < p implies (#[trigger] after[j]).0 != name by {
            assert(after[j] == members[j]);
        }
        member_from_unique(after, 0, p, name);
    }
}

/// Setting one member leaves what is read of every other one.
pub proof fn set_keeps_others(members: Members, name: Seq<char>, value: JsonView, other: Seq<char>)
    requires
        other != name,
    ensures
        member_value(member_set(members, name, value), other) == member_value(members, other),
{
    let after = member_set(members, name, value);
    let i = member_at(members, name);
    let o = member_at(members, other);
    member_from_bounds(members, 0, name);
    member_from_bounds(members, 0, other);
    if i < members.len() {
        assert forall|j: int| 0 <= j < o implies (#[trigger] after[j]).0 != other by {
            assert(members[j].0 != other);
        }
        member_from_unique(after, 0, o, other);
    } else {
        let p = member_place(members, 0, name);
        member_place_bounds(members, 0, name);
        let q = if o < p {
            o
        } else {
            o + 1
        };
        assert forall|j: int| 0 <= j < q implies (#[trigger] after[j]).0 != other by {
            if j < p {
                assert(after[j] == members[j]);
            } else if j > p {
                assert(after[j] == members[j - 1]);
            }
        }
        member_from_unique(after, 0, q, other);
    }
}

/// The position of the first member named `name`.
pub fn find_member(members: &Vec<(String, Json)>, name: &str) -> (r: usize)
    ensures
        r == member_at(member_views(members@), name@),
        r <= members@.len(),
        r < members@.len() ==> members@[r as int].0@ == name@,
{
    let ghost views = member_views(members@);
    let mut i: usize = 0;
    while i < members.len()
        invariant
            i <= members@.len(),
            views == member_views(members@),
            member_at(views, name@) == member_from(views, i as int, name@),
        decreases members@.len() - i,
    {
        if same_text(members[i].0.as_str(), name) {
            return i;
        }
        i = i + 1;
    }
    i
}

/// Sets the member named `name` to `value`.
pub fn set_member(members: &mut Vec<(String, Json)>, name: &str, value: Json)
    ensures
        member_views(final(members)@) == member_set(member_views(old(members)@), name@, value@),
{
    let ghost views = member_views(members@);
    let ghost given = members@;
    let i = find_member(members, name);
    if i < members.len() {
        let old_member = members.remove(i);
        let ghost v = value@;
        members.insert(i, (old_member.0, value));
        assert(member_views(members@) =~= views.update(i as int, (views[i as int].0, v)));
    } else {
        let mut p: usize = 0;
        while p < members.len() && !before(name, members[p].0.as_str())
            invariant
                p <= members@.len(),
                members@ == given,
                views == member_views(given),
                member_place(views, 0, name@) == member_place(views, p as int, name@),
            decreases members@.len() - p,
        {
            p = p + 1;
        }
        let ghost v = value@;
        members.insert(p, (name.to_owned(), value));
        assert(member_views(members@) =~= views.insert(p as int, (name@, v)));
    }
}

// ---------------------------------------------------------------------
// Reference tokens
// ---------------------------------------------------------------------

/// `s` with every `~` followed by `digit` turned into `with`, read from left
/// to right.
pub open spec fn tilde_replaced(s: Seq<char>, digit: char, with: char) -> Seq<char>
    decreases s.len(),
{
    if s.len() == 0 {
        s
    } else if s.len() >= 2 && s[0] == '~' && s[1] == digit {
        seq![with] + tilde_replaced(s.skip(2), digit, with)
    } else {
        seq![s[0]] + tilde_replaced(s.skip(1), digit, with)
    }
}

/// The name that a reference token stands for: first `~1` is read as `/`,
/// then `~0` as `~`.
pub open spec fn unescaped(token: Seq<char>) -> Seq<char> {
    tilde_replaced(tilde_replaced(token, '1', '/'), '0', '~')
}

fn replace_tilde(s: &str, digit: char, with: char) -> (r: String)
    ensures
        r@ == tilde_replaced(s@, digit, with),
{
    let chars = chars_of(s);
    let mut out = String::new();
    let mut i: usize = 0;
    assert(s@.skip(0) =~= s@);
    assert(out@ + tilde_replaced(s@, digit, with) =~= tilde_replaced(s@, digit, with));
    while i < chars.len()
        invariant
            chars@ == s@,
            i <= chars@.len(),
            out@ + tilde_replaced(s@.skip(i as int), digit, with) == tilde_replaced(
                s@,
                digit,
                with,
            ),
        decreases chars@.len() - i,
    {
        let ghost rest = s@.skip(i as int);
        let ghost done = out@;
        if chars.len() - i >= 2 && chars[i] == '~' && chars[i + 1] == digit {
            out.push(with);
            assert(rest.skip(2) =~= s@.skip(i + 2));
            assert(out@ + tilde_replaced(s@.skip(i + 2), digit, with) =~= done + (seq![with]
                + tilde_replaced(s@.skip(i + 2), digit, with)));
            i = i + 2;
        } else {
            out.push(chars[i]);
            assert(rest.skip(1) =~= s@.skip(i + 1));
            assert(out@ + tilde_replaced(s@.skip(i + 1), digit, with) =~= done + (seq![rest[0]]
                + tilde_replaced(s@.skip(i + 1), digit, with)));
            i = i + 1;
        }
    }
    assert(s@.skip(i as int) =~= Seq::<char>::empty());
    assert(out@ + Seq::<char>::empty() =~= out@);
    out
}

/// The name that a reference token stands for.
pub fn unescape_json_pointer_token(token: &str) -> (r: String)
    ensures
        r@ == unescaped(token@),
{
    let once = replace_tilde(token, '1', '/');
    replace_tilde(once.as_str(), '0', '~')
}

/// The token that names `name`: every `~` is written `~0` and every `/` is
/// written `~1`.
pub open spec fn escaped(name: Seq<char>) -> Seq<char>
    decreases name.len(),
{
    if name.len() == 0 {
        name
    } else if name[0] == '~' {
        seq!['~', '0'] + escaped(name.skip(1))
    } else if name[0] == '/' {
        seq!['~', '1'] + escaped(name.skip(1))
    } else {
        seq![name[0]] + escaped(name.skip(1))
    }
}

/// `name` with every `~` written `~0`, and with its slashes as they are.
spec fn half_escaped(name: Seq<char>) -> Seq<char>
    decreases name.len(),
{
    if name.len() == 0 {
        name
    } else if name[0] == '~' {
        seq!['~', '0'] + half_escaped(name.skip(1))
    } else {
        seq![name[0]] + half_escaped(name.skip(1))
    }
}

/// Reading an escaped name back gives the name.
pub proof fn unescape_undoes_escape(name: Seq<char>)
    ensures
        unescaped(escaped(name)) == name,
{
    slashes_read_back(name);
    tildes_read_back(name);
}

proof fn slashes_read_back(name: Seq<char>)
    ensures
        tilde_replaced(escaped(name), '1', '/') == half_escaped(name),
    decreases name.len(),
{
    if name.len() > 0 {
        let rest = name.skip(1);
        slashes_read_back(rest);
        let e = escaped(name);
        if name[0] == '~' {
            assert(e.skip(1) =~= seq!['0'] + escaped(rest));
            assert(e.skip(1).skip(1) =~= escaped(rest));
            assert(tilde_replaced(e.skip(1), '1', '/') == seq!['0'] + tilde_replaced(
                escaped(rest),
                '1',
                '/',
            ));
            assert(tilde_replaced(e, '1', '/') =~= half_escaped(name));
        } else if name[0] == '/' {
            assert(e.skip(2) =~= escaped(rest));
            assert(tilde_replaced(e, '1', '/') =~= half_escaped(name));
        } else {
            assert(e.skip(1) =~= escaped(rest));
            assert(tilde_replaced(e, '1', '/') =~= half_escaped(name));
        }
    }
}

proof fn tildes_read_back(name: Seq<char>)
    ensures
        tilde_replaced(half_escaped(name), '0', '~') == name,
    decreases name.len(),
{
    if name.len() > 0 {
        let rest = name.skip(1);
        tildes_read_back(rest);
        let e = half_escaped(name);
        if name[0] == '~' {
            assert(e.skip(2) =~= half_escaped(rest));
        } else {
            assert(e.skip(1) =~= half_escaped(rest));
        }
        assert(tilde_replaced(e, '0', '~') =~= name);
    }
}

/// The names and indexes that a pointer runs through.
pub open spec fn reference_tokens(pointer: Seq<char>) -> Seq<Seq<char>> {
    split_on(pointer.skip(1), '/').map_values(|t: Seq<char>| unescaped(t))
}

/// The names and indexes of a pointer that begins with `/`.
fn tokens_of(pointer: &str) -> (r: Vec<String>)
    requires
        pointer@.len() > 0,
    ensures
        texts(r@) == reference_tokens(pointer@),
        r@.len() > 0,
{
    let chars = chars_of(pointer);
    let reference = text_of(&chars, 1, chars.len());
    assert(reference@ =~= pointer@.skip(1));
    let pieces = split_text(reference.as_str(), '/');
    let mut out: Vec<String> = Vec::new();
    let mut i: usize = 0;
    while i < pieces.len()
        invariant
            i <= pieces@.len(),
            out@.len() == i,
            forall|j: int| 0 <= j < i ==> (#[trigger] out@[j])@ == unescaped(pieces@[j]@),
        decreases pieces@.len() - i,
    {
        let name = unescape_json_pointer_token(pieces[i].as_str());
        out.push(name);
        i = i + 1;
    }
    proof {
        assert(texts(pieces@) == split_on(pointer@.skip(1), '/'));
        assert forall|j: int| 0 <= j < out@.len() implies texts(out@)[j] == reference_tokens(
            pointer@,
        )[j] by {
            assert(texts(pieces@)[j] == pieces@[j]@);
        }
        assert(texts(out@).len() == texts(pieces@).len());
        assert(texts(out@) =~= reference_tokens(pointer@));
    }
    out
}

// ---------------------------------------------------------------------
// Array indexes
// ---------------------------------------------------------------------

/// Whether `s` holds decimal digits only, at least one.
pub open spec fn all_digits(s: Seq<char>) -> bool {
    s.len() > 0 && forall|i: int| 0 <= i < s.len() ==> is_digit(#[trigger] s[i])
}

/// The number that a run of decimal digits stands for.
pub open spec fn digits_value(s: Seq<char>) -> nat
    decreases s.len(),
{
    if s.len() == 0 {
        0
    } else {
        digits_value(s.drop_last()) * 10 + (s.last() as u32 - 48) as nat
    }
}

/// The digits of an unsigned number, without the plus sign that may stand
/// before them.
pub open spec fn unsigned_digits(s: Seq<char>) -> Seq<char> {
    if s.len() > 0 && s[0] == '+' {
        s.skip(1)
    } else {
        s
    }
}

/// The number that `s` writes: decimal digits behind an optional plus sign,
/// of a value that the machine word holds.
pub open spec fn unsigned_value(s: Seq<char>) -> Option<nat> {
    let d = unsigned_digits(s);
    if all_digits(d) && digits_value(d) <= usize::MAX {
        Some(digits_value(d))
    } else {
        None
    }
}

proof fn digits_value_grows(s: Seq<char>, n: int)
    requires
        0 <= n <= s.len(),
    ensures
        digits_value(s.take(n)) <= digits_value(s),
    decreases s.len() - n,
{
    if n < s.len() {
        digits_value_grows(s, n + 1);
        assert(s.take(n + 1).drop_last() =~= s.take(n));
    } else {
        assert(s.take(n) =~= s);
    }
}

/// The unsigned number that `s` writes.
pub fn parse_unsigned(s: &str) -> (r: Option<usize>)
    ensures
        match r {
            Some(n) => unsigned_value(s@) == Some(n as nat),
            None => unsigned_value(s@) is None,
        },
{
    let chars = chars_of(s);
    let start: usize = if chars.len() > 0 && chars[0] == '+' {
        1
    } else {
        0
    };
    let ghost d = unsigned_digits(s@);
    assert(d =~= s@.skip(start as int));
    if start == chars.len() {
        return None;
    }
    let mut value: usize = 0;
    let mut i: usize = start;
    while i < chars.len()
        invariant
            chars@ == s@,
            start <= i <= chars@.len(),
            d == s@.skip(start as int),
            d == unsigned_digits(s@),
            value == digits_value(d.take(i - start)),
            forall|j: int| 0 <= j < i - start ==> is_digit(#[trigger] d[j]),
        decreases chars@.len() - i,
    {
        let c = chars[i];
        assert(d[i - start] == c);
        if !digit_char(c) {
            return None;
        }
        let digit: usize = (c as u32 - 48) as usize;
        proof {
            assert(d.take(i - start + 1).drop_last() =~= d.take(i - start));
            digits_value_grows(d, i - start + 1);
        }
        if value > (usize::MAX - digit) / 10 {
            assert(value * 10 + digit > usize::MAX);
            return None;
        }
        value = value * 10 + digit;
        i = i + 1;
    }
    assert(d.take(i - start) =~= d);
    Some(value)
}

/// The message for a token that is no index, or the index it names.
pub open spec fn array_index(token: Seq<char>) -> Result<nat, Seq<char>> {
    if token == "-"@ {
        Err("`-` is append, not replace"@)
    } else {
        match unsigned_value(token) {
            Some(n) => Ok(n),
            None => Err("array index \""@ + token + "\" is not numeric"@),
        }
    }
}

/// The array index that a token names for a replacement.
pub fn parse_replace_array_index(token: &str) -> (r: Result<usize, String>)
    ensures
        match r {
            Ok(n) => array_index(token@) == Ok::<nat, Seq<char>>(n as nat),
            Err(e) => array_index(token@) == Err::<nat, Seq<char>>(e@),
        },
{
    if same_text(token, "-") {
        return Err("`-` is append, not replace".to_owned());
    }
    match parse_unsigned(token) {
        Some(n) => Ok(n),
        None => Err(concat3("array index \"", token, "\" is not numeric")),
    }
}

// ---------------------------------------------------------------------
// Replacing
// ---------------------------------------------------------------------

/// The name of a value's JSON type.
pub open spec fn type_label(v: JsonView) -> Seq<char> {
    match v {
        JsonView::Null => "null"@,
        JsonView::Bool(_) => "boolean"@,
        JsonView::Number(_) => "number"@,
        JsonView::Text(_) => "string"@,
        JsonView::Array(_) => "array"@,
        JsonView::Object(_) => "object"@,
    }
}

/// The name of a value's JSON type.
pub fn json_type_name(value: &Json) -> (r: &'static str)
    ensures
        r@ == type_label(value@),
{
    broadcast use view_by_variant;

    match value {
        Json::Null => "null",
        Json::Bool(_) => "boolean",
        Json::Number(_) => "number",
        Json::Text(_) => "string",
        Json::Array(_) => "array",
        Json::Object(_) => "object",
    }
}

/// The document with the value that the tokens lead to replaced. The last
/// token may name a member that is not there yet; every other one must lead
/// on.
pub open spec fn replaced_at(
    root: JsonView,
    tokens: Seq<Seq<char>>,
    value: JsonView,
) -> Result<JsonView, Seq<char>>
    decreases tokens.len(),
{
    if tokens.len() == 0 {
        Err("empty JSON Pointer"@)
    } else {
        let token = tokens[0];
        let rest = tokens.skip(1);
        match root {
            JsonView::Object(members) => {
                let i = member_at(members, token);
                if rest.len() == 0 {
                    Ok(JsonView::Object(member_set(members, token, value)))
                } else if 0 <= i < members.len() {
                    match replaced_at(members[i].1, rest, value) {
                        Ok(v) => Ok(JsonView::Object(members.update(i, (members[i].0, v)))),
                        Err(e) => Err(e),
                    }
                } else {
                    Err("missing intermediate object key \""@ + token + "\""@)
                }
            },
            JsonView::Array(items) => match array_index(token) {
                Err(e) => Err(e),
                Ok(i) => if i >= items.len() {
                    Err("array index "@ + decimal(i) + " out of range for replacement"@)
                } else if rest.len() == 0 {
                    Ok(JsonView::Array(items.update(i as int, value)))
                } else {
                    match replaced_at(items[i as int], rest, value) {
                        Ok(v) => Ok(JsonView::Array(items.update(i as int, v))),
                        Err(e) => Err(e),
                    }
                },
            },
            _ => Err(
                "cannot descend through "@ + type_label(root) + " at pointer segment \""@ + token
                    + "\""@,
            ),
        }
    }
}

/// The document with the value at `pointer` replaced.
pub open spec fn pointer_replaced(
    root: JsonView,
    pointer: Seq<char>,
    value: JsonView,
) -> Result<JsonView, Seq<char>> {
    if pointer.len() > 0 && pointer[0] == '/' {
        replaced_at(root, reference_tokens(pointer), value)
    } else {
        Err("not a JSON Pointer"@)
    }
}

/// What a replacement leaves behind: the new document, or the old one and
/// the reason.
pub open spec fn replacement_outcome(
    before: JsonView,
    after: JsonView,
    outcome: Result<JsonView, Seq<char>>,
    r: Result<(), String>,
) -> bool {
    match r {
        Ok(_) => outcome == Ok::<JsonView, Seq<char>>(after),
        Err(e) => outcome == Err::<JsonView, Seq<char>>(e@) && after == before,
    }
}

fn replace_from(root: &mut Json, tokens: &Vec<String>, at: usize, value: Json) -> (r: Result<
    (),
    String,
>)
    requires
        at < tokens@.len(),
    ensures
        replacement_outcome(
            old(root)@,
            final(root)@,
            replaced_at(old(root)@, texts(tokens@).skip(at as int), value@),
            r,
        ),
    decreases tokens@.len() - at,
{
    broadcast use view_by_variant;

    let ghost rest = texts(tokens@).skip(at as int);
    let token = tokens[at].as_str();
    let count: usize = tokens.len();
    let last = at == count - 1;
    proof {
        assert(rest[0] == token@);
        assert(rest.skip(1) =~= texts(tokens@).skip(at + 1));
    }
    let name = json_type_name(root);
    match root {
        Json::Object(members) => {
            if last {
                set_member(members, token, value);
                Ok(())
            } else {
                let i = find_member(members, token);
                if i < members.len() {
                    let ghost views = member_views(members@);
                    let (key, mut inner) = members.remove(i);
                    let ghost was = inner@;
                    let r = replace_from(&mut inner, tokens, at + 1, value);
                    let ghost now = inner@;
                    members.insert(i, (key, inner));
                    assert(member_views(members@) =~= views.update(i as int, (key@, now)));
                    assert(views.update(i as int, (key@, was)) =~= views);
                    r
                } else {
                    Err(concat3("missing intermediate object key \"", token, "\""))
                }
            }
        },
        Json::Array(items) => {
            let i = match parse_replace_array_index(token) {
                Ok(i) => i,
                Err(e) => {
                    return Err(e);
                },
            };
            if i >= items.len() {
                let number = decimal_text(i as u64);
                return Err(
                    concat3("array index ", number.as_str(), " out of range for replacement"),
                );
            }
            let ghost views = json_views(items@);
            let mut inner = items.remove(i);
            if last {
                let ghost v = value@;
                items.insert(i, value);
                assert(json_views(items@) =~= views.update(i as int, v));
                Ok(())
            } else {
                let ghost was = inner@;
                let r = replace_from(&mut inner, tokens, at + 1, value);
                let ghost now = inner@;
                items.insert(i, inner);
                assert(json_views(items@) =~= views.update(i as int, now));
                assert(views.update(i as int, was) =~= views);
                r
            }
        },
        _ => {
            let mut message = concat3("cannot descend through ", name, " at pointer segment \"");
            message.append(token);
            message.append("\"");
            Err(message)
        },
    }
}

/// Replaces the value that `pointer` leads to; a pointer that leads nowhere
/// leaves the document as it is.
pub fn apply_json_pointer_replacement(root: &mut Json, pointer: &str, replacement: Json) -> (r:
    Result<(), String>)
    ensures
        replacement_outcome(
            old(root)@,
            final(root)@,
            pointer_replaced(old(root)@, pointer@, replacement@),
            r,
        ),
{
    let chars = chars_of(pointer);
    if chars.len() == 0 || chars[0] != '/' {
        return Err("not a JSON Pointer".to_owned());
    }
    let tokens = tokens_of(pointer);
    assert(texts(tokens@).skip(0) =~= texts(tokens@));
    replace_from(root, &tokens, 0, replacement)
}

// ---------------------------------------------------------------------
// Reading
// ---------------------------------------------------------------------

/// The array index that a token names when a value is read: digits without
/// a sign and without a leading zero.
pub open spec fn read_index(token: Seq<char>) -> Option<nat> {
    if token.len() > 0 && (token[0] == '+' || (token[0] == '0' && token.len() != 1)) {
        None
    } else {
        unsigned_value(token)
    }
}

/// The value that the tokens lead to.
pub open spec fn value_at(root: JsonView, tokens: Seq<Seq<char>>) -> Option<JsonView>
    decreases tokens.len(),
{
    if tokens.len() == 0 {
        Some(root)
    } else {
        match root {
            JsonView::Object(members) => match member_value(members, tokens[0]) {
                Some(v) => value_at(v, tokens.skip(1)),
                None => None,
            },
            JsonView::Array(items) => match read_index(tokens[0]) {
                Some(i) => if i < items.len() {
                    value_at(items[i as int], tokens.skip(1))
                } else {
                    None
                },
                None => None,
            },
            _ => None,
        }
    }
}

/// The value that `pointer` leads to: the whole document for the empty
/// pointer.
pub open spec fn pointer_value(root: JsonView, pointer: Seq<char>) -> Option<JsonView> {
    if pointer.len() == 0 {
        Some(root)
    } else if pointer[0] != '/' {
        None
    } else {
        value_at(root, reference_tokens(pointer))
    }
}

fn parse_read_index(token: &str) -> (r: Option<usize>)
    ensures
        match r {
            Some(n) => read_index(token@) == Some(n as nat),
            None => read_index(token@) is None,
        },
{
    let chars = chars_of(token);
    if chars.len() > 0 && (chars[0] == '+' || (chars[0] == '0' && chars.len() != 1)) {
        return None;
    }
    parse_unsigned(token)
}

fn read_from<'a>(root: &'a Json, tokens: &Vec<String>, at: usize) -> (r: Option<&'a Json>)
    requires
        at <= tokens@.len(),
    ensures
        match r {
            Some(v) => value_at(root@, texts(tokens@).skip(at as int)) == Some(v@),
            None => value_at(root@, texts(tokens@).skip(at as int)) is None,
        },
    decreases tokens@.len() - at,
{
    broadcast use view_by_variant;

    let ghost rest = texts(tokens@).skip(at as int);
    if at == tokens.len() {
        return Some(root);
    }
    let token = tokens[at].as_str();
    proof {
        assert(rest[0] == token@);
        assert(rest.skip(1) =~= texts(tokens@).skip(at + 1));
    }
    match root {
        Json::Object(members) => {
            let i = find_member(members, token);
            if i < members.len() {
                read_from(&members[i].1, tokens, at + 1)
            } else {
                None
            }
        },
        Json::Array(items) => match parse_read_index(token) {
            Some(i) => if i < items.len() {
                read_from(&items[i], tokens, at + 1)
            } else {
                None
            },
            None => None,
        },
        _ => None,
    }
}

impl Json {
    /// The value that `pointer` leads to.
    pub fn pointer(&self, pointer: &str) -> (r: Option<&Json>)
        ensures
            match r {
                Some(v) => pointer_value(self@, pointer@) == Some(v@),
                None => pointer_value(self@, pointer@) is None,
            },
    {
        let chars = chars_of(pointer);
        if chars.len() == 0 {
            return Some(self);
        }
        if chars[0] != '/' {
            return None;
        }
        let tokens = tokens_of(pointer);
        assert(texts(tokens@).skip(0) =~= texts(tokens@));
        read_from(self, &tokens, 0)
    }
}

/// Whether no token that indexes an array carries a sign or a leading zero,
/// which a replacement accepts and a read does not.
pub open spec fn plain_indexes(root: JsonView, tokens: Seq<Seq<char>>) -> bool
    decreases tokens.len(),
{
    if tokens.len() == 0 {
        true
    } else {
        match root {
            JsonView::Object(members) => match member_value(members, tokens[0]) {
                Some(v) => plain_indexes(v, tokens.skip(1)),
                None => true,
            },
            JsonView::Array(items) => match array_index(tokens[0]) {
                Ok(i) => read_index(tokens[0]) == Some(i) && (i < items.len() ==> plain_indexes(
                    items[i as int],
                    tokens.skip(1),
                )),
                Err(_) => true,
            },
            _ => true,
        }
    }
}

proof fn replaced_then_read_at(root: JsonView, tokens: Seq<Seq<char>>, value: JsonView)
    requires
        plain_indexes(root, tokens),
        replaced_at(root, tokens, value) is Ok,
    ensures
        value_at(replaced_at(root, tokens, value)->Ok_0, tokens) == Some(value),
    decreases tokens.len(),
{
    let token = tokens[0];
    let rest = tokens.skip(1);
    match root {
        JsonView::Object(members) => {
            let i = member_at(members, token);
            member_from_bounds(members, 0, token);
            if rest.len() == 0 {
                set_then_read(members, token, value);
                assert(value_at(value, rest) == Some(value));
            } else {
                replaced_then_read_at(members[i].1, rest, value);
                let v = replaced_at(members[i].1, rest, value)->Ok_0;
                let after = members.update(i, (members[i].0, v));
                member_from_unique(after, 0, i, token);
            }
        },
        JsonView::Array(items) => {
            let i = array_index(token)->Ok_0 as int;
            if rest.len() > 0 {
                replaced_then_read_at(items[i], rest, value);
            } else {
                assert(value_at(value, rest) == Some(value));
            }
        },
        _ => {},
    }
}

/// A replacement is read back: after `pointer` was replaced, reading it
/// gives the new value.
pub proof fn replaced_then_read(root: JsonView, pointer: Seq<char>, value: JsonView)
    requires
        plain_indexes(root, reference_tokens(pointer)),
        pointer_replaced(root, pointer, value) is Ok,
    ensures
        pointer_value(pointer_replaced(root, pointer, value)->Ok_0, pointer) == Some(value),
{
    replaced_then_read_at(root, reference_tokens(pointer), value);
}

/// The later of two replacements of one location wins: it leaves what it
/// would have left alone.
pub proof fn later_replacement_wins(
    root: JsonView,
    pointer: Seq<char>,
    first: JsonView,
    second: JsonView,
)
    requires
        pointer_replaced(root, pointer, first) is Ok,
    ensures
        pointer_replaced(pointer_replaced(root, pointer, first)->Ok_0, pointer, second)
            == pointer_replaced(root, pointer, second),
{
    later_wins_at(root, reference_tokens(pointer), first, second);
}

proof fn later_wins_at(root: JsonView, tokens: Seq<Seq<char>>, first: JsonView, second: JsonView)
    requires
        replaced_at(root, tokens, first) is Ok,
    ensures
        replaced_at(replaced_at(root, tokens, first)->Ok_0, tokens, second) == replaced_at(
            root,
            tokens,
            second,
        ),
    decreases tokens.len(),
{
    let token = tokens[0];
    let rest = tokens.skip(1);
    match root {
        JsonView::Object(members) => {
            let i = member_at(members, token);
            member_from_bounds(members, 0, token);
            if rest.len() == 0 {
                let once = member_set(members, token, first);
                if i < members.len() {
                    member_from_unique(once, 0, i, token);
                    assert(once.update(i, (once[i].0, second)) =~= members.update(
                        i,
                        (members[i].0, second),
                    ));
                } else {
                    let p = member_place(members, 0, token);
                    member_place_bounds(members, 0, token);
                    assert forall|j: int| 0 <= j < p implies (#[trigger] once[j]).0 != token by {
                        assert(once[j] == members[j]);
                    }
                    member_from_unique(once, 0, p, token);
                    assert(once.update(p, (once[p].0, second)) =~= members.insert(
                        p,
                        (token, second),
                    ));
                }
            } else {
                later_wins_at(members[i].1, rest, first, second);
                let v = replaced_at(members[i].1, rest, first)->Ok_0;
                let once = members.update(i, (members[i].0, v));
                member_from_unique(once, 0, i, token);
                match replaced_at(members[i].1, rest, second) {
                    Ok(w) => {
                        assert(once.update(i, (once[i].0, w)) =~= members.update(
                            i,
                            (members[i].0, w),
                        ));
                    },
                    Err(_) => {},
                }
            }
        },
        JsonView::Array(items) => {
            let i = array_index(token)->Ok_0 as int;
            if rest.len() == 0 {
                assert(items.update(i, first).update(i, second) =~= items.update(i, second));
            } else {
                later_wins_at(items[i], rest, first, second);
                let v = replaced_at(items[i], rest, first)->Ok_0;
                match replaced_at(items[i], rest, second) {
                    Ok(w) => {
                        assert(items.update(i, v).update(i, w) =~= items.update(i, w));
                    },
                    Err(_) => {},
                }
            }
        },
        _ => {},
    }
}

} // verus!
