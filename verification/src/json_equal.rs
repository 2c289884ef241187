//! When two JSON values are the same instance: numbers compare by their
//! mathematical value, whatever form they are held in.

use crate::json::{json_views, member_views, view_by_variant, Json, JsonNumber, JsonView, NumberView};
use crate::json_pointer::{find_member, member_value};
use crate::text::same_text;
use vstd::arithmetic::power2::{
    lemma2_to64, lemma2_to64_rest, lemma_pow2, lemma_pow2_pos, lemma_pow2_strictly_increases, lemma_pow2_unfold, pow2};
use vstd::prelude::*;

verus! {

// ---------------------------------------------------------------------
// Floating-point numbers by their bits
// ---------------------------------------------------------------------

/// The significand of a double: its magnitude is this times two to the power
/// of [`float_exponent`].
pub open spec fn float_significand(bits: u64) -> nat {
    let e = (bits / 0x10_0000_0000_0000) % 0x800;
    let f = bits % 0x10_0000_0000_0000;
    if e == 0 {
        f as nat
    } else {
        (f + 0x10_0000_0000_0000) as nat
    }
}

pub open spec fn float_exponent(bits: u64) -> int {
    let e = (bits / 0x10_0000_0000_0000) % 0x800;
    if e == 0 {
        -1074
    } else {
        e - 1075
    }
}

pub open spec fn float_is_negative(bits: u64) -> bool {
    bits >= 0x8000_0000_0000_0000
}

pub open spec fn float_is_finite(bits: u64) -> bool {
    (bits / 0x10_0000_0000_0000) % 0x800 != 0x7ff
}

/// Whether the magnitude of a double is the natural number `n`.
pub open spec fn float_magnitude_is(bits: u64, n: nat) -> bool {
    let x = float_exponent(bits);
    if x >= 0 {
        float_significand(bits) * pow2(x as nat) == n
    } else {
        float_significand(bits) == n * pow2((-x) as nat)
    }
}

/// Whether a double is the integer `n`.
pub open spec fn float_is_integer(bits: u64, n: int) -> bool {
    &&& float_is_finite(bits)
    &&& if n < 0 {
        float_is_negative(bits) && float_magnitude_is(bits, (-n) as nat)
    } else {
        (n == 0 || !float_is_negative(bits)) && float_magnitude_is(bits, n as nat)
    }
}

/// Whether two doubles are the same number: the same bits, or the two zeros.
pub open spec fn floats_equal(a: u64, b: u64) -> bool {
    &&& float_is_finite(a)
    &&& float_is_finite(b)
    &&& a == b || (a % 0x8000_0000_0000_0000 == 0 && b % 0x8000_0000_0000_0000 == 0)
}

/// Two to the power of `k`.
fn two_to(k: u32) -> (r: u128)
    requires
        k < 64,
    ensures
        r == pow2(k as nat),
        0 < r <= 0x8000_0000_0000_0000,
{
    let mut p: u128 = 1;
    let mut i: u32 = 0;
    proof {
        lemma_pow2(0);
        lemma2_to64();
                lemma2_to64_rest();
    }
    while i < k
        invariant
            i <= k < 64,
            p == pow2(i as nat),
            pow2(63) == 0x8000_0000_0000_0000,
        decreases k - i,
    {
        proof {
            lemma_pow2_unfold((i + 1) as nat);
            if i + 1 < 63 {
                lemma_pow2_strictly_increases((i + 1) as nat, 63);
            }
        }
        p = p * 2;
        i = i + 1;
    }
    proof {
        lemma2_to64();
                lemma2_to64_rest();
        lemma_pow2_pos(k as nat);
        if k < 63 {
            lemma_pow2_strictly_increases(k as nat, 63);
        }
    }
    p
}

fn float_has_magnitude(bits: u64, n: u64) -> (r: bool)
    requires
        float_is_finite(bits),
    ensures
        r == float_magnitude_is(bits, n as nat),
{
    let e: u64 = (bits / 0x10_0000_0000_0000) % 0x800;
    let f: u64 = bits % 0x10_0000_0000_0000;
    let m: u64 = if e == 0 {
        f
    } else {
        f + 0x10_0000_0000_0000
    };
    let x: i64 = if e == 0 {
        -1074
    } else {
        e as i64 - 1075
    };
    if x >= 0 {
        if x >= 13 {
            proof {
                lemma2_to64();
                lemma2_to64_rest();
                if x > 13 {
                    lemma_pow2_strictly_increases(13, x as nat);
                }
                let p = pow2(x as nat);
                assert(m * p >= 0x10_0000_0000_0000 * 8192) by (nonlinear_arith)
                    requires
                        m >= 0x10_0000_0000_0000,
                        p >= 8192,
                ;
            }
            return false;
        }
        let p = two_to(x as u32);
        assert(m * p <= 0x20_0000_0000_0000 * 0x8000_0000_0000_0000) by (nonlinear_arith)
            requires
                m <= 0x20_0000_0000_0000,
                p <= 0x8000_0000_0000_0000,
        ;
        (m as u128) * p == n as u128
    } else {
        let k: i64 = -x;
        if n == 0 {
            assert(0 * pow2(k as nat) == 0) by (nonlinear_arith);
            return m == 0;
        }
        if k >= 54 {
            proof {
                lemma2_to64();
                lemma2_to64_rest();
                if k > 54 {
                    lemma_pow2_strictly_increases(54, k as nat);
                }
                let p = pow2(k as nat);
                assert(n * p >= 0x40_0000_0000_0000) by (nonlinear_arith)
                    requires
                        n >= 1,
                        p >= 0x40_0000_0000_0000,
                ;
            }
            return false;
        }
        let p = two_to(k as u32);
        assert(n * p <= 0xffff_ffff_ffff_ffff * 0x8000_0000_0000_0000) by (nonlinear_arith)
            requires
                n <= 0xffff_ffff_ffff_ffff,
                p <= 0x8000_0000_0000_0000,
        ;
        m as u128 == (n as u128) * p
    }
}

fn float_finite(bits: u64) -> (r: bool)
    ensures
        r == float_is_finite(bits),
{
    (bits / 0x10_0000_0000_0000) % 0x800 != 0x7ff
}

/// Whether a double is the signed integer `integer`.
pub fn float_equals_i64(bits: u64, integer: i64) -> (r: bool)
    ensures
        r == float_is_integer(bits, integer as int),
{
    if !float_finite(bits) {
        return false;
    }
    let negative = bits >= 0x8000_0000_0000_0000;
    if integer < 0 {
        negative && float_has_magnitude(bits, (-(integer as i128)) as u64)
    } else {
        (integer == 0 || !negative) && float_has_magnitude(bits, integer as u64)
    }
}

/// Whether a double is the unsigned integer `integer`.
pub fn float_equals_u64(bits: u64, integer: u64) -> (r: bool)
    ensures
        r == float_is_integer(bits, integer as int),
{
    if !float_finite(bits) {
        return false;
    }
    let negative = bits >= 0x8000_0000_0000_0000;
    (integer == 0 || !negative) && float_has_magnitude(bits, integer)
}

// ---------------------------------------------------------------------
// Numbers
// ---------------------------------------------------------------------

/// Whether two numbers have the same mathematical value.
pub open spec fn numbers_equal(a: NumberView, b: NumberView) -> bool {
    match (a, b) {
        (NumberView::Float { bits: x, .. }, NumberView::Float { bits: y, .. }) => floats_equal(
            x,
            y,
        ),
        (NumberView::Float { bits, .. }, _) => float_is_integer(bits, integer_value(b)),
        (_, NumberView::Float { bits, .. }) => float_is_integer(bits, integer_value(a)),
        _ => integer_value(a) == integer_value(b),
    }
}

/// The value of a number that is held as an integer.
pub open spec fn integer_value(n: NumberView) -> int {
    match n {
        NumberView::PosInt(k) => k as int,
        NumberView::NegInt(k) => k as int,
        NumberView::Float { .. } => 0,
    }
}

/// How a number is held: as a signed integer where one holds it, else as an
/// unsigned one, else as a double.
pub enum JsonNumberKind {
    I64(i64),
    U64(u64),
    F64(u64),
}

/// How `value` is held.
pub fn json_number_kind(value: &JsonNumber) -> (r: JsonNumberKind)
    ensures
        match value@ {
            NumberView::PosInt(k) => r == (if k <= i64::MAX {
                JsonNumberKind::I64(k as i64)
            } else {
                JsonNumberKind::U64(k)
            }),
            NumberView::NegInt(k) => r == JsonNumberKind::I64(k),
            NumberView::Float { bits, text } => r == JsonNumberKind::F64(bits),
        },
{
    match value {
        JsonNumber::PosInt(n) => if *n <= i64::MAX as u64 {
            JsonNumberKind::I64(*n as i64)
        } else {
            JsonNumberKind::U64(*n)
        },
        JsonNumber::NegInt(n) => JsonNumberKind::I64(*n),
        JsonNumber::Float { bits, text: _ } => JsonNumberKind::F64(*bits),
    }
}

/// Whether two numbers have the same mathematical value.
pub fn json_numbers_equal(left: &JsonNumber, right: &JsonNumber) -> (r: bool)
    ensures
        r == numbers_equal(left@, right@),
{
    match json_number_kind(left) {
        JsonNumberKind::I64(a) => match json_number_kind(right) {
            JsonNumberKind::I64(b) => a == b,
            JsonNumberKind::U64(b) => a >= 0 && a as u64 == b,
            JsonNumberKind::F64(b) => float_equals_i64(b, a),
        },
        JsonNumberKind::U64(a) => match json_number_kind(right) {
            JsonNumberKind::I64(b) => b >= 0 && a == b as u64,
            JsonNumberKind::U64(b) => a == b,
            JsonNumberKind::F64(b) => float_equals_u64(b, a),
        },
        JsonNumberKind::F64(a) => match json_number_kind(right) {
            JsonNumberKind::I64(b) => float_equals_i64(a, b),
            JsonNumberKind::U64(b) => float_equals_u64(a, b),
            JsonNumberKind::F64(b) => float_finite(a) && float_finite(b) && (a == b || (a
                % 0x8000_0000_0000_0000 == 0 && b % 0x8000_0000_0000_0000 == 0)),
        },
    }
}

// ---------------------------------------------------------------------
// Values
// ---------------------------------------------------------------------

/// Whether two numbers have the same form and the same value.
pub open spec fn numbers_same(a: NumberView, b: NumberView) -> bool {
    match (a, b) {
        (NumberView::PosInt(x), NumberView::PosInt(y)) => x == y,
        (NumberView::NegInt(x), NumberView::NegInt(y)) => x == y,
        (
            NumberView::Float { bits: x, text: s },
            NumberView::Float { bits: y, text: t },
        ) => floats_equal(x, y),
        _ => false,
    }
}

fn same_number(a: &JsonNumber, b: &JsonNumber) -> (r: bool)
    ensures
        r == numbers_same(a@, b@),
{
    match (a, b) {
        (JsonNumber::PosInt(x), JsonNumber::PosInt(y)) => *x == *y,
        (JsonNumber::NegInt(x), JsonNumber::NegInt(y)) => *x == *y,
        (JsonNumber::Float { bits: x, text: _ }, JsonNumber::Float { bits: y, text: _ }) =>
            float_finite(*x) && float_finite(*y) && (*x == *y || (*x % 0x8000_0000_0000_0000 == 0
            && *y % 0x8000_0000_0000_0000 == 0)),
        _ => false,
    }
}

/// Whether two values are alike: arrays item by item, objects member by member
/// whatever the order, numbers by value or, where `exact` is asked for, also
/// by form.
pub open spec fn alike(a: JsonView, b: JsonView, exact: bool) -> bool
    decreases a, 1int, 0int,
{
    match (a, b) {
        (JsonView::Null, JsonView::Null) => true,
        (JsonView::Bool(x), JsonView::Bool(y)) => x == y,
        (JsonView::Text(x), JsonView::Text(y)) => x == y,
        (JsonView::Number(x), JsonView::Number(y)) => if exact {
            numbers_same(x, y)
        } else {
            numbers_equal(x, y)
        },
        (JsonView::Array(x), JsonView::Array(y)) => x.len() == y.len() && parts_alike(
            a,
            b,
            exact,
            x.len(),
        ),
        (JsonView::Object(x), JsonView::Object(y)) => x.len() == y.len() && parts_alike(
            a,
            b,
            exact,
            x.len(),
        ),
        _ => false,
    }
}

/// Whether the first `n` parts of `a` have their equals in `b`: the item at
/// the same position, or the member of the same name.
pub open spec fn parts_alike(a: JsonView, b: JsonView, exact: bool, n: nat) -> bool
    decreases a, 0int, n,
{
    if n == 0 {
        true
    } else {
        let i = n - 1;
        &&& parts_alike(a, b, exact, i as nat)
        &&& match (a, b) {
            (JsonView::Array(x), JsonView::Array(y)) => i < x.len() && i < y.len()
                && alike(x[i], y[i], exact),
            (JsonView::Object(x), JsonView::Object(y)) => i < x.len() && (match member_value(
                y,
                x[i].0,
            ) {
                Some(v) => alike(x[i].1, v, exact),
                None => false,
            }),
            _ => false,
        }
    }
}

proof fn unequal_part_decides(a: JsonView, b: JsonView, exact: bool, m: nat, n: nat)
    requires
        m <= n,
        !parts_alike(a, b, exact, m),
    ensures
        !parts_alike(a, b, exact, n),
    decreases n,
{
    if m < n {
        unequal_part_decides(a, b, exact, m, (n - 1) as nat);
    }
}

/// Whether two values are the same instance.
pub open spec fn instances_equal(a: JsonView, b: JsonView) -> bool {
    alike(a, b, false)
}

/// Whether two values are the same instance.
pub fn json_schema_instance_equal(left: &Json, right: &Json) -> (r: bool)
    ensures
        r == instances_equal(left@, right@),
{
    json_alike(left, right, false)
}

/// Whether two values are the same: numbers have to be of the same form too.
pub open spec fn same_values(a: JsonView, b: JsonView) -> bool {
    alike(a, b, true)
}

/// Whether two values are the same.
pub fn same_json(left: &Json, right: &Json) -> (r: bool)
    ensures
        r == same_values(left@, right@),
{
    json_alike(left, right, true)
}

fn json_alike(left: &Json, right: &Json, exact: bool) -> (r: bool)
    ensures
        r == alike(left@, right@, exact),
    decreases left,
{
    broadcast use view_by_variant;

    match (left, right) {
        (Json::Null, Json::Null) => true,
        (Json::Bool(a), Json::Bool(b)) => *a == *b,
        (Json::Text(a), Json::Text(b)) => same_text(a.as_str(), b.as_str()),
        (Json::Number(a), Json::Number(b)) => if exact {
            same_number(a, b)
        } else {
            json_numbers_equal(a, b)
        },
        (Json::Array(a), Json::Array(b)) => a.len() == b.len() && items_alike(a, b, exact),
        (Json::Object(a), Json::Object(b)) => a.len() == b.len() && members_alike(a, b, exact),
        _ => false,
    }
}

fn items_alike(a: &Vec<Json>, b: &Vec<Json>, exact: bool) -> (r: bool)
    requires
        a@.len() == b@.len(),
    ensures
        r == parts_alike(
            JsonView::Array(json_views(a@)),
            JsonView::Array(json_views(b@)),
            exact,
            a@.len(),
        ),
    decreases a,
{
    let ghost x = JsonView::Array(json_views(a@));
    let ghost y = JsonView::Array(json_views(b@));
    let mut i: usize = 0;
    while i < a.len()
        invariant
            i <= a@.len(),
            a@.len() == b@.len(),
            x == JsonView::Array(json_views(a@)),
            y == JsonView::Array(json_views(b@)),
            parts_alike(x, y, exact, i as nat),
        decreases a@.len() - i,
    {
        assert(decreases_to!(a => a[i as int]));
        if !json_alike(&a[i], &b[i], exact) {
            proof {
                assert(!parts_alike(x, y, exact, (i + 1) as nat));
                unequal_part_decides(x, y, exact, (i + 1) as nat, a@.len());
            }
            return false;
        }
        i = i + 1;
    }
    true
}

fn members_alike(a: &Vec<(String, Json)>, b: &Vec<(String, Json)>, exact: bool) -> (r: bool)
    ensures
        r == parts_alike(
            JsonView::Object(member_views(a@)),
            JsonView::Object(member_views(b@)),
            exact,
            a@.len(),
        ),
    decreases a,
{
    let ghost x = JsonView::Object(member_views(a@));
    let ghost y = JsonView::Object(member_views(b@));
    let mut i: usize = 0;
    while i < a.len()
        invariant
            i <= a@.len(),
            x == JsonView::Object(member_views(a@)),
            y == JsonView::Object(member_views(b@)),
            parts_alike(x, y, exact, i as nat),
        decreases a@.len() - i,
    {
        assert(decreases_to!(a => a[i as int]));
        let at = find_member(b, a[i].0.as_str());
        if at >= b.len() || !json_alike(&a[i].1, &b[at].1, exact) {
            proof {
                assert(!parts_alike(x, y, exact, (i + 1) as nat));
                unequal_part_decides(x, y, exact, (i + 1) as nat, a@.len());
            }
            return false;
        }
        i = i + 1;
    }
    true
}

} // verus!
