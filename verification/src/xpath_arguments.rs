//! Which XPath expressions can be evaluated in a given document: the numbers
//! that they hand to `substring` are looked up where they are not plain to see.

use crate::text::{chars_of, concat3, text_of};
use crate::xpath::{
    document_history, evaluate, float_is_nan, namespace_views, open_answer, xpath_answer,
    AnswerView, Namespace, XPathAnswer, XmlHistory,
};
use crate::xpath_calls::{
    always_returns, call_is_small, call_numbers_are_small, can_be_evaluated, count_levels, find_first_comma,
    first_comma, is_shallow, positions, read_tokens, starts_from, tokens_from, XPathToken, MAX_LEVELS,
};
use vstd::prelude::*;
use vstd::string::*;

verus! {

/// What is said of an expression that is too deep to be evaluated.
pub const DEEP_EXPRESSION: &'static str = "the expression has more operators than can be evaluated";

/// What is said of an expression that cannot be evaluated for its numbers.
pub const LARGE_NUMBER: &'static str = "substring() is given a number that may be out of range";

// ---------------------------------------------------------------------
// Numbers
// ---------------------------------------------------------------------

/// The exponents, as a double holds them, that are too large: two numbers
/// below them have a sum that a machine word holds.
pub open spec fn large_exponent() -> u64 {
    if usize::BITS == 64 {
        1073
    } else {
        1053
    }
}

/// Whether a double is a small number, or none.
pub open spec fn is_small_double(bits: u64) -> bool {
    (bits / 0x10_0000_0000_0000) % 0x800 < large_exponent() || float_is_nan(bits)
}

/// Whether an answer is a small number, or there is none.
pub open spec fn is_small_answer(a: Result<AnswerView, Seq<char>>) -> bool {
    match a {
        Ok(AnswerView::Number { bits, text, json }) => is_small_double(bits),
        Ok(_) => false,
        Err(_) => true,
    }
}

/// The expression that stands for an argument as a number.
pub open spec fn number_of(argument: Seq<char>) -> Seq<char> {
    "number("@ + argument + ")"@
}

/// Whether an argument is a small number in a document, and can be looked up
/// there.
pub open spec fn argument_is_small(
    h: XmlHistory,
    namespaces: Seq<(Seq<char>, Seq<char>)>,
    argument: Seq<char>,
) -> bool {
    always_returns(number_of(argument)) && is_small_answer(
        xpath_answer(h, namespaces, number_of(argument)),
    )
}

// ---------------------------------------------------------------------
// Calls
// ---------------------------------------------------------------------

/// The position of the comma or bracket that ends an argument, which is open
/// `depth` times at `at`; the end where nothing does.
pub open spec fn argument_end(t: Seq<XPathToken>, at: int, depth: nat) -> int
    decreases t.len() - at,
{
    if at < 0 || at >= t.len() {
        t.len() as int
    } else {
        match t[at] {
            XPathToken::Open => argument_end(t, at + 1, depth + 1),
            XPathToken::Close => if depth <= 1 {
                at
            } else {
                argument_end(t, at + 1, (depth - 1) as nat)
            },
            XPathToken::Comma => if depth <= 1 {
                at
            } else {
                argument_end(t, at + 1, depth)
            },
            _ => argument_end(t, at + 1, depth),
        }
    }
}

/// Whether the arguments of a call, from the token at `at` on, are small
/// numbers in a document.
pub open spec fn arguments_are_small(
    h: XmlHistory,
    namespaces: Seq<(Seq<char>, Seq<char>)>,
    expr: Seq<char>,
    at: int,
) -> bool
    decreases tokens_from(expr, 0).len() - at,
{
    let t = tokens_from(expr, 0);
    let starts = starts_from(expr, 0);
    let end = argument_end(t, at, 1);
    if 0 <= at <= end && end < t.len() {
        argument_is_small(h, namespaces, expr.subrange(starts[at], starts[end])) && (t[end]
            == XPathToken::Comma ==> arguments_are_small(h, namespaces, expr, end + 1))
    } else {
        true
    }
}

/// How many predicates are open before a token.
pub open spec fn open_predicates(t: Seq<XPathToken>, at: int) -> int
    decreases at,
{
    if at <= 0 || at > t.len() {
        0
    } else {
        open_predicates(t, at - 1) + match t[at - 1] {
            XPathToken::OpenPredicate => 1int,
            XPathToken::ClosePredicate => -1int,
            _ => 0int,
        }
    }
}

/// Whether a call of `substring` at a token, if there is one, is handed small
/// numbers in a document: they are plain to see, or the call is in no
/// predicate and its arguments come to small numbers at the root.
pub open spec fn call_returns(
    h: XmlHistory,
    namespaces: Seq<(Seq<char>, Seq<char>)>,
    expr: Seq<char>,
    at: int,
) -> bool {
    let t = tokens_from(expr, 0);
    call_is_small(t, at) || (open_predicates(t, at) == 0 && arguments_are_small(
        h,
        namespaces,
        expr,
        first_comma(t, at + 2, 1),
    ))
}

/// Whether an expression can be evaluated in a document: it is shallow, and its
/// calls of `substring` are handed small numbers.
pub open spec fn evaluation_returns(
    h: XmlHistory,
    namespaces: Seq<(Seq<char>, Seq<char>)>,
    expr: Seq<char>,
) -> bool {
    is_shallow(expr) && forall|at: int|
        0 <= at < tokens_from(expr, 0).len() ==> #[trigger] call_returns(h, namespaces, expr, at)
}

/// Why an expression is not evaluated in a document; nothing where it is.
pub open spec fn evaluation_problem(
    h: XmlHistory,
    namespaces: Seq<(Seq<char>, Seq<char>)>,
    expr: Seq<char>,
) -> Option<Seq<char>> {
    if !is_shallow(expr) {
        Some(DEEP_EXPRESSION@)
    } else if !evaluation_returns(h, namespaces, expr) {
        Some(LARGE_NUMBER@)
    } else {
        None
    }
}

// ---------------------------------------------------------------------
// Looking numbers up
// ---------------------------------------------------------------------

fn small_double(bits: u64) -> (r: bool)
    ensures
        r == is_small_double(bits),
{
    let limit: u64 = if usize::BITS == 64 {
        1073
    } else {
        1053
    };
    let exponent: u64 = (bits / 0x10_0000_0000_0000) % 0x800;
    exponent < limit || (exponent == 0x7ff && bits % 0x10_0000_0000_0000 != 0)
}

fn look_up(doc: &uppsala::Document<'static>, namespaces: &Vec<Namespace>, argument: &str) -> (r: bool)
    ensures
        r == argument_is_small(document_history(*doc), namespace_views(namespaces@), argument@),
{
    let number = concat3("number(", argument, ")");
    if !can_be_evaluated(number.as_str()) {
        return false;
    }
    proof {
        always_returning_returns(
            document_history(*doc),
            namespace_views(namespaces@),
            number@,
        );
    }
    match evaluate(doc, namespaces, number.as_str()) {
        Ok(v) => match open_answer(v) {
            XPathAnswer::Number { bits, text, json } => small_double(bits),
            _ => false,
        },
        Err(_) => true,
    }
}

fn find_argument_end(t: &Vec<XPathToken>, from: usize) -> (r: usize)
    requires
        from <= t@.len(),
    ensures
        r == argument_end(t@, from as int, 1),
        from <= r <= t@.len(),
{
    let mut at: usize = from;
    let mut depth: usize = 0;
    while at < t.len()
        invariant
            from <= at <= t@.len(),
            depth <= at - from,
            argument_end(t@, from as int, 1) == argument_end(t@, at as int, (depth + 1) as nat),
        decreases t@.len() - at,
    {
        match t[at] {
            XPathToken::Open => {
                depth = depth + 1;
            },
            XPathToken::Close => {
                if depth == 0 {
                    return at;
                }
                depth = depth - 1;
            },
            XPathToken::Comma => {
                if depth == 0 {
                    return at;
                }
            },
            _ => {},
        }
        at = at + 1;
    }
    at
}

/// Looks the arguments of a call up, from the token at `from` on.
fn look_arguments_up(
    doc: &uppsala::Document<'static>,
    namespaces: &Vec<Namespace>,
    expr: &str,
    chars: &Vec<char>,
    tokens: &Vec<XPathToken>,
    starts: &Vec<usize>,
    from: usize,
) -> (r: bool)
    requires
        chars@ == expr@,
        tokens@ == tokens_from(expr@, 0),
        positions(starts@) == starts_from(expr@, 0),
        tokens@.len() == starts@.len(),
        forall|i: int, j: int|
            0 <= i <= j < starts@.len() ==> #[trigger] starts@[i] <= #[trigger] starts@[j]
                < expr@.len(),
        from <= tokens@.len(),
    ensures
        r == arguments_are_small(
            document_history(*doc),
            namespace_views(namespaces@),
            expr@,
            from as int,
        ),
{
    let ghost h = document_history(*doc);
    let ghost ns = namespace_views(namespaces@);
    let mut at: usize = from;
    loop
        invariant
            h == document_history(*doc),
            ns == namespace_views(namespaces@),
            chars@ == expr@,
            tokens@ == tokens_from(expr@, 0),
            positions(starts@) == starts_from(expr@, 0),
            tokens@.len() == starts@.len(),
            forall|i: int, j: int|
                0 <= i <= j < starts@.len() ==> #[trigger] starts@[i] <= #[trigger] starts@[j]
                    < expr@.len(),
            at <= tokens@.len(),
            arguments_are_small(h, ns, expr@, from as int) == arguments_are_small(
                h,
                ns,
                expr@,
                at as int,
            ),
        decreases tokens@.len() - at,
    {
        let end = find_argument_end(tokens, at);
        if end >= tokens.len() {
            return true;
        }
        proof {
            assert(positions(starts@)[at as int] == starts@[at as int]);
            assert(positions(starts@)[end as int] == starts@[end as int]);
        }
        let argument = text_of(chars, starts[at], starts[end]);
        if !look_up(doc, namespaces, argument.as_str()) {
            return false;
        }
        if tokens[end] != XPathToken::Comma {
            return true;
        }
        at = end + 1;
    }
}

/// Finds out why an expression is not evaluated in a document.
pub(crate) fn find_problem(
    doc: &uppsala::Document<'static>,
    namespaces: &Vec<Namespace>,
    expr: &str,
) -> (r: Option<String>)
    ensures
        (match r {
            Some(e) => Some(e@),
            None => None,
        }) == evaluation_problem(document_history(*doc), namespace_views(namespaces@), expr@),
{
    let ghost h = document_history(*doc);
    let ghost ns = namespace_views(namespaces@);
    let read = read_tokens(expr);
    let chars = chars_of(expr);
    let count: usize = read.tokens.len();
    if count_levels(&read.tokens) > MAX_LEVELS {
        return Some(DEEP_EXPRESSION.to_owned());
    }
    let mut opened: usize = 0;
    let mut closed: usize = 0;
    let mut at: usize = 0;
    while at < count
        invariant
            h == document_history(*doc),
            ns == namespace_views(namespaces@),
            at <= count,
            is_shallow(expr@),
            count == read.tokens@.len(),
            opened <= at,
            closed <= at,
            opened - closed == open_predicates(read.tokens@, at as int),
            chars@ == expr@,
            read.tokens@ == tokens_from(expr@, 0),
            positions(read.starts@) == starts_from(expr@, 0),
            read.tokens@.len() == read.starts@.len(),
            forall|i: int, j: int|
                0 <= i <= j < read.starts@.len() ==> #[trigger] read.starts@[i]
                    <= #[trigger] read.starts@[j] < expr@.len(),
            forall|k: int| 0 <= k < at ==> #[trigger] call_returns(h, ns, expr@, k),
        decreases count - at,
    {
        if !call_numbers_are_small(&read.tokens, at) {
            let from = find_first_comma(&read.tokens, at + 2);
            if opened != closed || !look_arguments_up(
                doc,
                namespaces,
                expr,
                &chars,
                &read.tokens,
                &read.starts,
                from,
            ) {
                assert(!call_returns(h, ns, expr@, at as int));
                return Some(LARGE_NUMBER.to_owned());
            }
        }
        assert(call_returns(h, ns, expr@, at as int));
        match read.tokens[at] {
            XPathToken::OpenPredicate => {
                opened = opened + 1;
            },
            XPathToken::ClosePredicate => {
                closed = closed + 1;
            },
            _ => {},
        }
        at = at + 1;
    }
    None
}

// ---------------------------------------------------------------------
// Laws
// ---------------------------------------------------------------------

/// What can be evaluated in any document can be evaluated in each.
pub proof fn always_returning_returns(
    h: XmlHistory,
    namespaces: Seq<(Seq<char>, Seq<char>)>,
    expr: Seq<char>,
)
    requires
        always_returns(expr),
    ensures
        evaluation_returns(h, namespaces, expr),
        evaluation_problem(h, namespaces, expr) is None,
{
    let t = tokens_from(expr, 0);
    assert forall|at: int| 0 <= at < t.len() implies #[trigger] call_returns(
        h,
        namespaces,
        expr,
        at,
    ) by {
        assert(call_is_small(t, at));
    }
}

} // verus!
