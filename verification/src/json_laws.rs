//! What holds of JSON values: when they are equal, and what their texts are.

use crate::action_laws::decimal_reads_back;
use crate::json::{JsonView, NumberView};
use crate::json_equal::{
    alike, float_is_finite, float_is_integer, floats_equal, instances_equal, parts_alike,
    same_values,
};
use crate::json_pointer::{all_digits, digits_value, member_value};
use crate::json_text::{escaped_chars, integer_text, json_text, number_text, part_texts, quoted};
use crate::text::{decimal, joined};
use vstd::prelude::*;
use vstd::string::*;

verus! {

// ---------------------------------------------------------------------
// Equality
// ---------------------------------------------------------------------

proof fn items_alike_each(a: JsonView, b: JsonView, exact: bool, n: nat)
    requires
        a matches JsonView::Array(x) && n <= x.len(),
        b matches JsonView::Array(y) && n <= y.len(),
    ensures
        parts_alike(a, b, exact, n) == forall|i: int|
            0 <= i < n ==> alike(#[trigger] a->Array_0[i], b->Array_0[i], exact),
    decreases n,
{
    if n > 0 {
        items_alike_each(a, b, exact, (n - 1) as nat);
        let x = a->Array_0;
        let y = b->Array_0;
        if parts_alike(a, b, exact, n) {
            assert forall|i: int| 0 <= i < n implies alike(
                #[trigger] a->Array_0[i],
                b->Array_0[i],
                exact,
            ) by {
                if i < n - 1 {
                    assert(alike(a->Array_0[i], b->Array_0[i], exact));
                }
            }
        }
        if forall|i: int| 0 <= i < n ==> alike(#[trigger] a->Array_0[i], b->Array_0[i], exact) {
            assert(alike(a->Array_0[n - 1], b->Array_0[n - 1], exact));
            assert forall|i: int| 0 <= i < n - 1 implies alike(
                #[trigger] a->Array_0[i],
                b->Array_0[i],
                exact,
            ) by {}
        }
    }
}

/// Whether an object has, for a member of another, one that is alike.
pub open spec fn has_alike(
    list: Seq<(Seq<char>, JsonView)>,
    member: (Seq<char>, JsonView),
    exact: bool,
) -> bool {
    member_value(list, member.0) matches Some(v) && alike(member.1, v, exact)
}

proof fn members_alike_each(a: JsonView, b: JsonView, exact: bool, n: nat)
    requires
        a matches JsonView::Object(x) && n <= x.len(),
        b is Object,
    ensures
        parts_alike(a, b, exact, n) == forall|i: int|
            0 <= i < n ==> has_alike(b->Object_0, #[trigger] a->Object_0[i], exact),
    decreases n,
{
    if n > 0 {
        members_alike_each(a, b, exact, (n - 1) as nat);
        if parts_alike(a, b, exact, n) {
            assert forall|i: int| 0 <= i < n implies has_alike(
                b->Object_0,
                #[trigger] a->Object_0[i],
                exact,
            ) by {
                if i < n - 1 {
                    assert(has_alike(b->Object_0, a->Object_0[i], exact));
                }
            }
        }
        if forall|i: int|
            0 <= i < n ==> has_alike(b->Object_0, #[trigger] a->Object_0[i], exact) {
            assert(has_alike(b->Object_0, a->Object_0[n - 1], exact));
        }
    }
}

/// Whether two doubles are the same number: the same bits, or zero of either
/// sign, and no infinity or what is no number.
pub open spec fn same_double(x: u64, y: u64) -> bool {
    let is_number = |b: u64| b < 0x7ff0_0000_0000_0000 || (0x8000_0000_0000_0000 <= b && b
        < 0xfff0_0000_0000_0000);
    is_number(x) && is_number(y) && (x == y || ((x == 0 || x == 0x8000_0000_0000_0000) && (y == 0
        || y == 0x8000_0000_0000_0000)))
}

proof fn doubles_are_the_same(x: u64, y: u64)
    ensures
        floats_equal(x, y) == same_double(x, y),
{
    doubles_are_finite(x);
    doubles_are_finite(y);
    assert((x % 0x8000_0000_0000_0000 == 0) == (x == 0 || x == 0x8000_0000_0000_0000));
    assert((y % 0x8000_0000_0000_0000 == 0) == (y == 0 || y == 0x8000_0000_0000_0000));
}

proof fn doubles_are_finite(b: u64)
    ensures
        float_is_finite(b) == (b < 0x7ff0_0000_0000_0000 || (0x8000_0000_0000_0000 <= b && b
            < 0xfff0_0000_0000_0000)),
{
    assert(((b / 0x10_0000_0000_0000) % 0x800 != 0x7ff) == (b < 0x7ff0_0000_0000_0000 || (
    0x8000_0000_0000_0000 <= b && b < 0xfff0_0000_0000_0000))) by (bit_vector);
}

/// Two values are equal only where they are of one kind: texts and booleans
/// where they are the same, lists item for item, objects member for member
/// whatever their order, and integers by their value.
pub proof fn values_are_equal_part_by_part(a: JsonView, b: JsonView)
    ensures
        a is Null ==> instances_equal(a, b) == b is Null,
        a matches JsonView::Bool(x) ==> instances_equal(a, b) == (b matches JsonView::Bool(y) && x
            == y),
        a matches JsonView::Text(x) ==> instances_equal(a, b) == (b matches JsonView::Text(y) && x
            == y),
        a matches JsonView::Array(x) ==> instances_equal(a, b) == (b matches JsonView::Array(y)
            && x.len() == y.len() && forall|i: int|
            0 <= i < x.len() ==> instances_equal(#[trigger] x[i], y[i])),
        a matches JsonView::Object(x) ==> instances_equal(a, b) == (b matches JsonView::Object(y)
            && x.len() == y.len() && forall|i: int|
            0 <= i < x.len() ==> has_alike(y, #[trigger] x[i], false)),
        a is Number && !(b is Number) ==> !instances_equal(a, b),
        a matches JsonView::Number(NumberView::PosInt(x)) ==> {
            &&& b matches JsonView::Number(NumberView::PosInt(y)) ==> instances_equal(a, b) == (x
                == y)
            &&& b matches JsonView::Number(NumberView::NegInt(y)) ==> instances_equal(a, b) == (x
                == y)
            &&& b matches JsonView::Number(NumberView::Float { bits, text }) ==> instances_equal(
                a,
                b,
            ) == float_is_integer(bits, x as int)
        },
        a matches JsonView::Number(NumberView::NegInt(x)) ==> {
            &&& b matches JsonView::Number(NumberView::PosInt(y)) ==> instances_equal(a, b) == (x
                == y)
            &&& b matches JsonView::Number(NumberView::NegInt(y)) ==> instances_equal(a, b) == (x
                == y)
            &&& b matches JsonView::Number(NumberView::Float { bits, text }) ==> instances_equal(
                a,
                b,
            ) == float_is_integer(bits, x as int)
        },
        a matches JsonView::Number(NumberView::Float { bits: x, text: s }) ==> (
        b matches JsonView::Number(NumberView::Float { bits: y, text: t }) ==> instances_equal(a, b)
            == same_double(x, y)),
{
    if let JsonView::Number(NumberView::Float { bits: x, text: s }) = a {
        if let JsonView::Number(NumberView::Float { bits: y, text: t }) = b {
            doubles_are_the_same(x, y);
        }
    }
    if let JsonView::Array(x) = a {
        if let JsonView::Array(y) = b {
            if x.len() == y.len() {
                items_alike_each(a, b, false, x.len());
            }
        }
    }
    if let JsonView::Object(x) = a {
        if let JsonView::Object(y) = b {
            if x.len() == y.len() {
                members_alike_each(a, b, false, x.len());
            }
        }
    }
}

/// Two values are the same only where they are of one kind, part by part.
pub proof fn values_are_the_same_part_by_part(a: JsonView, b: JsonView)
    ensures
        a is Null ==> same_values(a, b) == b is Null,
        a matches JsonView::Bool(x) ==> same_values(a, b) == (b matches JsonView::Bool(y) && x
            == y),
        a matches JsonView::Text(x) ==> same_values(a, b) == (b matches JsonView::Text(y) && x
            == y),
        a matches JsonView::Array(x) ==> same_values(a, b) == (b matches JsonView::Array(y)
            && x.len() == y.len() && forall|i: int|
            0 <= i < x.len() ==> same_values(#[trigger] x[i], y[i])),
        a matches JsonView::Object(x) ==> same_values(a, b) == (b matches JsonView::Object(y)
            && x.len() == y.len() && forall|i: int|
            0 <= i < x.len() ==> has_alike(y, #[trigger] x[i], true)),
        a is Number && !(b is Number) ==> !same_values(a, b),
        a matches JsonView::Number(NumberView::PosInt(x)) ==> same_values(a, b) == (
        b matches JsonView::Number(NumberView::PosInt(y)) && x == y),
        a matches JsonView::Number(NumberView::NegInt(x)) ==> same_values(a, b) == (
        b matches JsonView::Number(NumberView::NegInt(y)) && x == y),
        a matches JsonView::Number(NumberView::Float { bits: x, text: s }) ==> same_values(a, b) == (
        b matches JsonView::Number(NumberView::Float { bits: y, text: t }) && same_double(x, y)),
{
    if let JsonView::Number(NumberView::Float { bits: x, text: s }) = a {
        if let JsonView::Number(NumberView::Float { bits: y, text: t }) = b {
            doubles_are_the_same(x, y);
        }
    }
    if let JsonView::Array(x) = a {
        if let JsonView::Array(y) = b {
            if x.len() == y.len() {
                items_alike_each(a, b, true, x.len());
            }
        }
    }
    if let JsonView::Object(x) = a {
        if let JsonView::Object(y) = b {
            if x.len() == y.len() {
                members_alike_each(a, b, true, x.len());
            }
        }
    }
}

// ---------------------------------------------------------------------
// Texts
// ---------------------------------------------------------------------

/// A text is escaped character by character.
pub proof fn escapes_join(a: Seq<char>, b: Seq<char>)
    ensures
        escaped_chars(a + b) == escaped_chars(a) + escaped_chars(b),
    decreases b.len(),
{
    if b.len() == 0 {
        assert(a + b =~= a);
        assert(escaped_chars(a) + escaped_chars(b) =~= escaped_chars(a));
    } else {
        escapes_join(a, b.drop_last());
        assert((a + b).drop_last() =~= a + b.drop_last());
        assert(escaped_chars(a + b) =~= escaped_chars(a) + escaped_chars(b));
    }
}

/// What ends a JSON string is escaped in it, every other character that may
/// stand in one stays, and no control character does.
pub proof fn strings_hold_together(c: char)
    ensures
        c == '"' ==> escaped_chars(seq![c]) == seq!['\\', '"'],
        c == '\\' ==> escaped_chars(seq![c]) == seq!['\\', '\\'],
        c == '\n' ==> escaped_chars(seq![c]) == seq!['\\', 'n'],
        c == '\r' ==> escaped_chars(seq![c]) == seq!['\\', 'r'],
        c == '\t' ==> escaped_chars(seq![c]) == seq!['\\', 't'],
        c >= ' ' && c != '"' && c != '\\' ==> escaped_chars(seq![c]) == seq![c],
        c < ' ' ==> escaped_chars(seq![c]).len() > 1 && escaped_chars(seq![c])[0] == '\\',
{
    reveal_with_fuel(escaped_chars, 2);
    assert(seq![c].drop_last() =~= Seq::<char>::empty());
    let e = crate::json_text::escaped_char(c);
    assert(escaped_chars(seq![c]) =~= e);
}

proof fn part_texts_are_parts(v: JsonView, n: nat)
    requires
        match v {
            JsonView::Array(items) => n <= items.len(),
            JsonView::Object(members) => n <= members.len(),
            _ => false,
        },
    ensures
        part_texts(v, n).len() == n,
        forall|i: int|
            0 <= i < n ==> #[trigger] part_texts(v, n)[i] == (match v {
                JsonView::Array(items) => json_text(items[i]),
                JsonView::Object(members) => quoted(members[i].0) + ":"@ + json_text(members[i].1),
                _ => Seq::empty(),
            }),
    decreases n,
{
    if n > 0 {
        part_texts_are_parts(v, (n - 1) as nat);
    }
}

/// The JSON text of a value: its name, its number, its string in quotes, and of
/// a list or an object the texts of its parts in order, with commas between
/// them. `parts` are those texts.
pub proof fn values_are_written_part_by_part(v: JsonView, parts: Seq<Seq<char>>)
    requires
        v matches JsonView::Array(items) ==> parts.len() == items.len() && forall|i: int|
            0 <= i < items.len() ==> #[trigger] parts[i] == json_text(items[i]),
        v matches JsonView::Object(members) ==> parts.len() == members.len() && forall|i: int|
            0 <= i < members.len() ==> #[trigger] parts[i] == seq!['"'] + escaped_chars(
                members[i].0,
            ) + seq!['"'] + ":"@ + json_text(members[i].1),
    ensures
        v is Null ==> json_text(v) == "null"@,
        v matches JsonView::Bool(b) ==> json_text(v) == (if b {
            "true"@
        } else {
            "false"@
        }),
        v matches JsonView::Text(s) ==> json_text(v) == seq!['"'] + escaped_chars(s) + seq!['"'],
        v is Array ==> json_text(v) == "["@ + joined(parts, ","@) + "]"@,
        v is Object ==> json_text(v) == "{"@ + joined(parts, ","@) + "}"@,
{
    match v {
        JsonView::Array(items) => {
            part_texts_are_parts(v, items.len());
            assert(part_texts(v, items.len()) =~= parts);
        },
        JsonView::Object(members) => {
            part_texts_are_parts(v, members.len());
            assert forall|i: int| 0 <= i < members.len() implies part_texts(v, members.len())[i]
                == parts[i] by {
                assert(parts[i] == seq!['"'] + escaped_chars(members[i].0) + seq!['"'] + ":"@
                    + json_text(members[i].1));
            }
            assert(part_texts(v, members.len()) =~= parts);
        },
        _ => {},
    }
}

/// The text of an integer reads back as the integer.
pub proof fn integers_read_back(n: NumberView)
    ensures
        n matches NumberView::PosInt(k) ==> all_digits(number_text(n)) && digits_value(
            number_text(n),
        ) == k,
        n matches NumberView::NegInt(k) ==> (k < 0 ==> number_text(n).len() > 1 && number_text(n)[0]
            == '-' && all_digits(number_text(n).skip(1)) && digits_value(number_text(n).skip(1))
            == -k),
{
    match n {
        NumberView::PosInt(k) => {
            decimal_reads_back(k as nat);
        },
        NumberView::NegInt(k) => {
            if k < 0 {
                decimal_reads_back((-k) as nat);
                reveal_strlit("-");
                assert(integer_text(k as int).skip(1) =~= decimal((-k) as nat));
            }
        },
        _ => {},
    }
}

} // verus!
