//! Which XPath expressions can be evaluated in any document: shallow ones
//! that hand `substring` no numbers but small ones.

use crate::text::{
    alpha_char, chars_of, digit_char, find_char, first_of, is_alpha, is_digit, is_space, same_text,
    space_char, text_of,
};
use vstd::prelude::*;
use vstd::string::*;

verus! {

// ---------------------------------------------------------------------
// Tokens
// ---------------------------------------------------------------------

/// What a token of an expression is, as far as numbers are concerned.
#[derive(Debug, Clone, Copy, PartialEq, Eq, Structural)]
pub enum XPathToken {
    Open,
    Close,
    OpenPredicate,
    ClosePredicate,
    Comma,
    /// `+` or `-`.
    Sign,
    Mod,
    /// Any other operator, or what may be one.
    Operator,
    /// A number, with the characters that it takes.
    Number(usize),
    /// The name `substring`.
    Substring,
    /// The name of a function that measures or counts what there is.
    Measure,
    /// The name of a function that rounds a number.
    Rounding,
    Other,
}

pub open spec fn is_name_start(c: char) -> bool {
    is_alpha(c) || c == '_'
}

pub open spec fn is_name_char(c: char) -> bool {
    is_alpha(c) || is_digit(c) || c == '_' || c == '-' || c == '.'
}

/// The position behind the characters of a name, from `from` on.
pub open spec fn name_end(s: Seq<char>, from: int) -> int
    decreases s.len() - from,
{
    if 0 <= from < s.len() && is_name_char(s[from]) {
        name_end(s, from + 1)
    } else {
        from
    }
}

/// The position behind the digits, and the dots where they count, from `from`
/// on.
pub open spec fn number_end(s: Seq<char>, from: int, dots: bool) -> int
    decreases s.len() - from,
{
    if 0 <= from < s.len() && (is_digit(s[from]) || (dots && s[from] == '.')) {
        number_end(s, from + 1, dots)
    } else {
        from
    }
}

/// The position behind a text in quotes that begins at `from`; the end where
/// nothing closes it.
pub open spec fn quote_end(s: Seq<char>, from: int) -> int {
    let close = first_of(s, from + 1, seq![s[from]]);
    if close < s.len() {
        close + 1
    } else {
        s.len() as int
    }
}

pub open spec fn is_dot_number(s: Seq<char>, at: int) -> bool {
    s[at] == '.' && at + 1 < s.len() && is_digit(s[at + 1])
}

/// The position behind the token that begins at `at`.
pub open spec fn token_end(s: Seq<char>, at: int) -> int {
    if s[at] == '"' || s[at] == '\'' {
        quote_end(s, at)
    } else if is_digit(s[at]) {
        number_end(s, at, true)
    } else if is_dot_number(s, at) {
        number_end(s, at + 1, false)
    } else if s[at] == '.' && at + 1 < s.len() && s[at + 1] == '.' {
        at + 2
    } else if is_name_start(s[at]) {
        name_end(s, at)
    } else {
        at + 1
    }
}

/// What a name is.
pub open spec fn name_token(name: Seq<char>) -> XPathToken {
    if name == "substring"@ {
        XPathToken::Substring
    } else if name == "string-length"@ || name == "count"@ || name == "position"@ || name
        == "last"@ {
        XPathToken::Measure
    } else if name == "floor"@ || name == "ceiling"@ || name == "round"@ {
        XPathToken::Rounding
    } else if name == "mod"@ {
        XPathToken::Mod
    } else if name == "and"@ || name == "or"@ || name == "div"@ {
        XPathToken::Operator
    } else {
        XPathToken::Other
    }
}

/// The token that begins at `at`.
pub open spec fn token_at(s: Seq<char>, at: int) -> XPathToken {
    let c = s[at];
    if is_digit(c) || is_dot_number(s, at) {
        XPathToken::Number((token_end(s, at) - at) as usize)
    } else if is_name_start(c) {
        name_token(s.subrange(at, token_end(s, at)))
    } else if c == '(' {
        XPathToken::Open
    } else if c == ')' {
        XPathToken::Close
    } else if c == '[' {
        XPathToken::OpenPredicate
    } else if c == ']' {
        XPathToken::ClosePredicate
    } else if c == ',' {
        XPathToken::Comma
    } else if c == '+' || c == '-' {
        XPathToken::Sign
    } else if c == '=' || c == '<' || c == '>' || c == '*' || c == '|' {
        XPathToken::Operator
    } else {
        XPathToken::Other
    }
}

/// The tokens of an expression from `from` on.
pub open spec fn tokens_from(s: Seq<char>, from: int) -> Seq<XPathToken>
    decreases s.len() - from,
{
    if from < 0 || from >= s.len() {
        Seq::empty()
    } else if is_space(s[from]) {
        tokens_from(s, from + 1)
    } else if from < token_end(s, from) <= s.len() {
        seq![token_at(s, from)] + tokens_from(s, token_end(s, from))
    } else {
        Seq::empty()
    }
}

/// Where the tokens of an expression begin, from `from` on.
pub open spec fn starts_from(s: Seq<char>, from: int) -> Seq<int>
    decreases s.len() - from,
{
    if from < 0 || from >= s.len() {
        Seq::empty()
    } else if is_space(s[from]) {
        starts_from(s, from + 1)
    } else if from < token_end(s, from) <= s.len() {
        seq![from] + starts_from(s, token_end(s, from))
    } else {
        Seq::empty()
    }
}

/// Positions as integers.
pub open spec fn positions(list: Seq<usize>) -> Seq<int> {
    list.map_values(|p: usize| p as int)
}

proof fn name_end_bounds(s: Seq<char>, from: int)
    requires
        0 <= from <= s.len(),
    ensures
        from <= name_end(s, from) <= s.len(),
    decreases s.len() - from,
{
    if from < s.len() && is_name_char(s[from]) {
        name_end_bounds(s, from + 1);
    }
}

proof fn number_end_bounds(s: Seq<char>, from: int, dots: bool)
    requires
        0 <= from <= s.len(),
    ensures
        from <= number_end(s, from, dots) <= s.len(),
    decreases s.len() - from,
{
    if from < s.len() && (is_digit(s[from]) || (dots && s[from] == '.')) {
        number_end_bounds(s, from + 1, dots);
    }
}

fn find_name_end(chars: &Vec<char>, from: usize) -> (r: usize)
    requires
        from <= chars@.len(),
    ensures
        r == name_end(chars@, from as int),
        from <= r <= chars@.len(),
{
    let mut i: usize = from;
    while i < chars.len() && (alpha_char(chars[i]) || digit_char(chars[i]) || chars[i] == '_'
        || chars[i] == '-' || chars[i] == '.')
        invariant
            from <= i <= chars@.len(),
            name_end(chars@, from as int) == name_end(chars@, i as int),
        decreases chars@.len() - i,
    {
        i = i + 1;
    }
    i
}

fn find_number_end(chars: &Vec<char>, from: usize, dots: bool) -> (r: usize)
    requires
        from <= chars@.len(),
    ensures
        r == number_end(chars@, from as int, dots),
        from <= r <= chars@.len(),
{
    let mut i: usize = from;
    while i < chars.len() && (digit_char(chars[i]) || (dots && chars[i] == '.'))
        invariant
            from <= i <= chars@.len(),
            number_end(chars@, from as int, dots) == number_end(chars@, i as int, dots),
        decreases chars@.len() - i,
    {
        i = i + 1;
    }
    i
}

fn read_name(name: &str) -> (r: XPathToken)
    ensures
        r == name_token(name@),
{
    if same_text(name, "substring") {
        XPathToken::Substring
    } else if same_text(name, "string-length") || same_text(name, "count") || same_text(
        name,
        "position",
    ) || same_text(name, "last") {
        XPathToken::Measure
    } else if same_text(name, "floor") || same_text(name, "ceiling") || same_text(name, "round") {
        XPathToken::Rounding
    } else if same_text(name, "mod") {
        XPathToken::Mod
    } else if same_text(name, "and") || same_text(name, "or") || same_text(name, "div") {
        XPathToken::Operator
    } else {
        XPathToken::Other
    }
}

/// Reads the token that begins at `at`, and finds where it ends.
fn read_token(chars: &Vec<char>, at: usize) -> (r: (XPathToken, usize))
    requires
        at < chars@.len(),
        !is_space(chars@[at as int]),
    ensures
        r.0 == token_at(chars@, at as int),
        r.1 == token_end(chars@, at as int),
        at < r.1 <= chars@.len(),
{
    let count: usize = chars.len();
    let c: char = chars[at];
    if c == '"' || c == '\'' {
        let close = find_char(chars, at + 1, c);
        return (
            XPathToken::Other,
            if close < chars.len() {
                close + 1
            } else {
                chars.len()
            },
        );
    }
    if digit_char(c) {
        proof {
            number_end_bounds(chars@, at + 1, true);
            assert(number_end(chars@, at as int, true) == number_end(chars@, at + 1, true));
        }
        let end = find_number_end(chars, at, true);
        return (XPathToken::Number(end - at), end);
    }
    if c == '.' && at < count - 1 && digit_char(chars[at + 1]) {
        proof {
            number_end_bounds(chars@, at + 1, false);
        }
        let end = find_number_end(chars, at + 1, false);
        return (XPathToken::Number(end - at), end);
    }
    if c == '.' && at < count - 1 && chars[at + 1] == '.' {
        return (XPathToken::Other, at + 2);
    }
    if alpha_char(c) || c == '_' {
        proof {
            name_end_bounds(chars@, at + 1);
            assert(name_end(chars@, at as int) == name_end(chars@, at + 1));
        }
        let end = find_name_end(chars, at);
        let name = text_of(chars, at, end);
        return (read_name(name.as_str()), end);
    }
    let token = if c == '(' {
        XPathToken::Open
    } else if c == ')' {
        XPathToken::Close
    } else if c == '[' {
        XPathToken::OpenPredicate
    } else if c == ']' {
        XPathToken::ClosePredicate
    } else if c == ',' {
        XPathToken::Comma
    } else if c == '+' || c == '-' {
        XPathToken::Sign
    } else if c == '=' || c == '<' || c == '>' || c == '*' || c == '|' {
        XPathToken::Operator
    } else {
        XPathToken::Other
    };
    (token, at + 1)
}

/// The tokens of an expression, and where each begins.
pub struct XPathTokens {
    pub tokens: Vec<XPathToken>,
    pub starts: Vec<usize>,
}

/// Reads the tokens of an expression.
pub fn read_tokens(expr: &str) -> (r: XPathTokens)
    ensures
        r.tokens@ == tokens_from(expr@, 0),
        positions(r.starts@) == starts_from(expr@, 0),
        r.tokens@.len() == r.starts@.len(),
        forall|i: int, j: int|
            0 <= i <= j < r.starts@.len() ==> #[trigger] r.starts@[i] <= #[trigger] r.starts@[j]
                < expr@.len(),
{
    let chars = chars_of(expr);
    let mut tokens: Vec<XPathToken> = Vec::new();
    let mut starts: Vec<usize> = Vec::new();
    let mut at: usize = 0;
    assert(tokens@ + tokens_from(expr@, 0) =~= tokens_from(expr@, 0));
    assert(positions(starts@) + starts_from(expr@, 0) =~= starts_from(expr@, 0));
    while at < chars.len()
        invariant
            at <= chars@.len(),
            chars@ == expr@,
            tokens@ + tokens_from(expr@, at as int) == tokens_from(expr@, 0),
            positions(starts@) + starts_from(expr@, at as int) == starts_from(expr@, 0),
            tokens@.len() == starts@.len(),
            forall|i: int| 0 <= i < starts@.len() ==> #[trigger] starts@[i] < at,
            forall|i: int, j: int|
                0 <= i <= j < starts@.len() ==> #[trigger] starts@[i] <= #[trigger] starts@[j],
        decreases chars@.len() - at,
    {
        if space_char(chars[at]) {
            at = at + 1;
        } else {
            let ghost before = tokens@;
            let ghost begun = starts@;
            let (token, end) = read_token(&chars, at);
            tokens.push(token);
            starts.push(at);
            assert(tokens@ + tokens_from(expr@, end as int) =~= before + (seq![token]
                + tokens_from(expr@, end as int)));
            assert(positions(starts@) =~= positions(begun).push(at as int));
            assert(positions(starts@) + starts_from(expr@, end as int) =~= positions(begun) + (
            seq![at as int] + starts_from(expr@, end as int)));
            at = end;
        }
    }
    assert(tokens@ + tokens_from(expr@, at as int) =~= tokens@);
    assert(positions(starts@) + starts_from(expr@, at as int) =~= positions(starts@));
    XPathTokens { tokens, starts }
}

// ---------------------------------------------------------------------
// Numbers that are handed to `substring`
// ---------------------------------------------------------------------

/// The characters that a number may take. What follows from them is a number
/// that a machine word holds many times over.
pub open spec fn number_limit() -> nat {
    if usize::BITS == 64 {
        15
    } else {
        8
    }
}

/// How many numbers may go into the arguments of one call.
pub const MAX_NUMBERS: usize = 16;

/// How many measures may go into the arguments of one call. Each is below
/// half of what a machine word holds, and on a machine with long words far
/// below.
pub open spec fn measure_limit() -> nat {
    if usize::BITS == 64 {
        16
    } else {
        1
    }
}

/// The position behind the token that closes what is open, `depth` times, at
/// `at`; the end where nothing does.
pub open spec fn group_end(t: Seq<XPathToken>, at: int, depth: nat) -> int
    decreases t.len() - at,
{
    if at < 0 || at >= t.len() {
        t.len() as int
    } else {
        match t[at] {
            XPathToken::Open => group_end(t, at + 1, depth + 1),
            XPathToken::Close => if depth <= 1 {
                at + 1
            } else {
                group_end(t, at + 1, (depth - 1) as nat)
            },
            _ => group_end(t, at + 1, depth),
        }
    }
}

/// The position behind the first comma of a call whose arguments begin at
/// `at`, which is open `depth` times there; the end where it has none.
pub open spec fn first_comma(t: Seq<XPathToken>, at: int, depth: nat) -> int
    decreases t.len() - at,
{
    if at < 0 || at >= t.len() {
        t.len() as int
    } else {
        match t[at] {
            XPathToken::Open => first_comma(t, at + 1, depth + 1),
            XPathToken::Close => if depth <= 1 {
                t.len() as int
            } else {
                first_comma(t, at + 1, (depth - 1) as nat)
            },
            XPathToken::Comma => if depth <= 1 {
                at + 1
            } else {
                first_comma(t, at + 1, depth)
            },
            _ => first_comma(t, at + 1, depth),
        }
    }
}

/// Whether a name stands before an open bracket, which makes a call of it.
pub open spec fn is_call(t: Seq<XPathToken>, at: int) -> bool {
    0 <= at && at + 1 < t.len() && t[at + 1] == XPathToken::Open
}

/// Whether the arguments of a call, from `at` on, are made of short numbers,
/// measures, signs and `mod`, rounded or not. What a measure is taken of does
/// not matter. `numbers` and `measures` say how many more there may be.
pub open spec fn small_numbers(
    t: Seq<XPathToken>,
    at: int,
    depth: nat,
    numbers: nat,
    measures: nat,
) -> bool
    decreases t.len() - at,
{
    if at < 0 || at >= t.len() {
        true
    } else {
        match t[at] {
            XPathToken::Open => small_numbers(t, at + 1, depth + 1, numbers, measures),
            XPathToken::Close => depth <= 1 || small_numbers(
                t,
                at + 1,
                (depth - 1) as nat,
                numbers,
                measures,
            ),
            XPathToken::Comma => small_numbers(t, at + 1, depth, numbers, measures),
            XPathToken::Sign => small_numbers(t, at + 1, depth, numbers, measures),
            XPathToken::Mod => small_numbers(t, at + 1, depth, numbers, measures),
            XPathToken::Rounding => is_call(t, at) && small_numbers(
                t,
                at + 1,
                depth,
                numbers,
                measures,
            ),
            XPathToken::Number(n) => n <= number_limit() && numbers > 0 && small_numbers(
                t,
                at + 1,
                depth,
                (numbers - 1) as nat,
                measures,
            ),
            XPathToken::Measure => is_call(t, at) && measures > 0 && at < group_end(t, at + 1, 0)
                <= t.len() && small_numbers(
                t,
                group_end(t, at + 1, 0),
                depth,
                numbers,
                (measures - 1) as nat,
            ),
            _ => false,
        }
    }
}

/// Whether the numbers of a call of `substring` at `at`, if there is one, are
/// small.
pub open spec fn call_is_small(t: Seq<XPathToken>, at: int) -> bool {
    t[at] == XPathToken::Substring && is_call(t, at) ==> small_numbers(
        t,
        first_comma(t, at + 2, 1),
        1,
        MAX_NUMBERS as nat,
        measure_limit(),
    )
}

/// How many levels an expression may have.
pub const MAX_LEVELS: usize = 64;

/// Whether a token may put what stands beside it one level down: an operator
/// its operands, a call its arguments, a path its predicates.
pub open spec fn makes_a_level(t: XPathToken) -> bool {
    match t {
        XPathToken::Open => true,
        XPathToken::OpenPredicate => true,
        XPathToken::Sign => true,
        XPathToken::Mod => true,
        XPathToken::Operator => true,
        _ => false,
    }
}

/// How many levels an expression has at most.
pub open spec fn levels(t: Seq<XPathToken>) -> nat
    decreases t.len(),
{
    if t.len() == 0 {
        0
    } else if makes_a_level(t.last()) {
        levels(t.drop_last()) + 1
    } else {
        levels(t.drop_last())
    }
}

/// Whether an expression has few levels.
pub open spec fn is_shallow(expr: Seq<char>) -> bool {
    levels(tokens_from(expr, 0)) <= MAX_LEVELS
}

/// Whether an expression can be evaluated in any document: it is shallow,
/// and no call of `substring` in it is handed a number that may be too large.
pub open spec fn always_returns(expr: Seq<char>) -> bool {
    let t = tokens_from(expr, 0);
    is_shallow(expr) && forall|at: int| 0 <= at < t.len() ==> #[trigger] call_is_small(t, at)
}

proof fn group_end_bounds(t: Seq<XPathToken>, at: int, depth: nat)
    requires
        0 <= at <= t.len(),
    ensures
        at <= group_end(t, at, depth) <= t.len(),
    decreases t.len() - at,
{
    if at < t.len() {
        match t[at] {
            XPathToken::Open => {
                group_end_bounds(t, at + 1, depth + 1);
            },
            XPathToken::Close => {
                if depth > 1 {
                    group_end_bounds(t, at + 1, (depth - 1) as nat);
                }
            },
            _ => {
                group_end_bounds(t, at + 1, depth);
            },
        }
    }
}

fn find_group_end(t: &Vec<XPathToken>, from: usize) -> (r: usize)
    requires
        from <= t@.len(),
    ensures
        r == group_end(t@, from as int, 0),
        from <= r <= t@.len(),
{
    proof {
        group_end_bounds(t@, from as int, 0);
    }
    let mut at: usize = from;
    let mut depth: usize = 0;
    while at < t.len()
        invariant
            from <= at <= t@.len(),
            depth <= at - from,
            group_end(t@, from as int, 0) == group_end(t@, at as int, depth as nat),
        decreases t@.len() - at,
    {
        match t[at] {
            XPathToken::Open => {
                depth = depth + 1;
            },
            XPathToken::Close => {
                if depth <= 1 {
                    return at + 1;
                }
                depth = depth - 1;
            },
            _ => {},
        }
        at = at + 1;
    }
    at
}

pub(crate) fn find_first_comma(t: &Vec<XPathToken>, from: usize) -> (r: usize)
    requires
        0 < from <= t@.len(),
    ensures
        r == first_comma(t@, from as int, 1),
        r <= t@.len(),
{
    let mut at: usize = from;
    let mut depth: usize = 1;
    while at < t.len()
        invariant
            from <= at <= t@.len(),
            0 < from,
            depth <= at - from + 1,
            first_comma(t@, from as int, 1) == first_comma(t@, at as int, depth as nat),
        decreases t@.len() - at,
    {
        match t[at] {
            XPathToken::Open => {
                depth = depth + 1;
            },
            XPathToken::Close => {
                if depth <= 1 {
                    return t.len();
                }
                depth = depth - 1;
            },
            XPathToken::Comma => {
                if depth <= 1 {
                    return at + 1;
                }
            },
            _ => {},
        }
        at = at + 1;
    }
    at
}

fn opens(t: &Vec<XPathToken>, at: usize) -> (r: bool)
    requires
        at < t@.len(),
    ensures
        r == is_call(t@, at as int),
{
    at < t.len() - 1 && t[at + 1] == XPathToken::Open
}

fn numbers_are_small(t: &Vec<XPathToken>, from: usize) -> (r: bool)
    requires
        0 < from <= t@.len(),
    ensures
        r == small_numbers(t@, from as int, 1, MAX_NUMBERS as nat, measure_limit()),
{
    let limit: usize = if usize::BITS == 64 {
        15
    } else {
        8
    };
    let mut measures: usize = if usize::BITS == 64 {
        16
    } else {
        1
    };
    let mut numbers: usize = MAX_NUMBERS;
    let mut depth: usize = 1;
    let mut at: usize = from;
    while at < t.len()
        invariant
            from <= at <= t@.len(),
            0 < from,
            depth <= at - from + 1,
            limit == number_limit(),
            small_numbers(t@, from as int, 1, MAX_NUMBERS as nat, measure_limit()) == small_numbers(
                t@,
                at as int,
                depth as nat,
                numbers as nat,
                measures as nat,
            ),
        decreases t@.len() - at,
    {
        match t[at] {
            XPathToken::Open => {
                depth = depth + 1;
                at = at + 1;
            },
            XPathToken::Close => {
                if depth <= 1 {
                    return true;
                }
                depth = depth - 1;
                at = at + 1;
            },
            XPathToken::Comma => {
                at = at + 1;
            },
            XPathToken::Sign => {
                at = at + 1;
            },
            XPathToken::Mod => {
                at = at + 1;
            },
            XPathToken::Rounding => {
                if !opens(t, at) {
                    return false;
                }
                at = at + 1;
            },
            XPathToken::Number(n) => {
                if n > limit || numbers == 0 {
                    return false;
                }
                numbers = numbers - 1;
                at = at + 1;
            },
            XPathToken::Measure => {
                if !opens(t, at) || measures == 0 {
                    return false;
                }
                measures = measures - 1;
                at = find_group_end(t, at + 1);
            },
            _ => {
                return false;
            },
        }
    }
    true
}

/// How many levels an expression has at most.
pub fn count_levels(t: &Vec<XPathToken>) -> (r: usize)
    ensures
        r == levels(t@),
{
    let mut count: usize = 0;
    let mut i: usize = 0;
    assert(t@.take(0) =~= Seq::<XPathToken>::empty());
    while i < t.len()
        invariant
            i <= t@.len(),
            count <= i,
            count == levels(t@.take(i as int)),
        decreases t@.len() - i,
    {
        assert(t@.take(i + 1).drop_last() =~= t@.take(i as int));
        match t[i] {
            XPathToken::Open
            | XPathToken::OpenPredicate
            | XPathToken::Sign
            | XPathToken::Mod
            | XPathToken::Operator => {
                count = count + 1;
            },
            _ => {},
        }
        i = i + 1;
    }
    assert(t@.take(i as int) =~= t@);
    count
}

/// Whether the numbers of a call of `substring` at a token, if there is one,
/// are small.
pub fn call_numbers_are_small(t: &Vec<XPathToken>, at: usize) -> (r: bool)
    requires
        at < t@.len(),
    ensures
        r == call_is_small(t@, at as int),
{
    let count: usize = t.len();
    if t[at] == XPathToken::Substring && at < count - 1 && opens(t, at) {
        let from = find_first_comma(t, at + 2);
        assert(from > 0) by {
            first_comma_bounds(t@, at + 2, 1);
        }
        numbers_are_small(t, from)
    } else {
        true
    }
}

/// Whether an expression can be evaluated in any document.
pub fn can_be_evaluated(expr: &str) -> (r: bool)
    ensures
        r == always_returns(expr@),
{
    let t = read_tokens(expr).tokens;
    if count_levels(&t) > MAX_LEVELS {
        return false;
    }
    let mut at: usize = 0;
    while at < t.len()
        invariant
            at <= t@.len(),
            t@ == tokens_from(expr@, 0),
            is_shallow(expr@),
            forall|k: int| 0 <= k < at ==> #[trigger] call_is_small(t@, k),
        decreases t@.len() - at,
    {
        if !call_numbers_are_small(&t, at) {
            assert(!call_is_small(t@, at as int));
            return false;
        }
        at = at + 1;
    }
    true
}

proof fn first_comma_bounds(t: Seq<XPathToken>, at: int, depth: nat)
    requires
        0 < at <= t.len(),
    ensures
        0 < first_comma(t, at, depth) <= t.len(),
    decreases t.len() - at,
{
    if at < t.len() {
        match t[at] {
            XPathToken::Open => {
                first_comma_bounds(t, at + 1, depth + 1);
            },
            XPathToken::Close => {
                if depth > 1 {
                    first_comma_bounds(t, at + 1, (depth - 1) as nat);
                }
            },
            XPathToken::Comma => {
                if depth > 1 {
                    first_comma_bounds(t, at + 1, depth);
                }
            },
            _ => {
                first_comma_bounds(t, at + 1, depth);
            },
        }
    }
}

// ---------------------------------------------------------------------
// Laws
// ---------------------------------------------------------------------

/// A shallow expression that does not name `substring` can be evaluated in any
/// document.
pub proof fn other_expressions_can_be_evaluated(expr: Seq<char>)
    requires
        is_shallow(expr),
        !tokens_from(expr, 0).contains(XPathToken::Substring),
    ensures
        always_returns(expr),
{
    let t = tokens_from(expr, 0);
    assert forall|at: int| 0 <= at < t.len() implies #[trigger] call_is_small(t, at) by {
        assert(t[at] != XPathToken::Substring);
    }
}

} // verus!
