//! What holds of XPath selections and replacements.

use crate::criteria::{output_question, output_value};
use crate::json::{JsonView, NumberView};
use crate::json_equal::float_is_integer;
use crate::outcome::Response;
use crate::payload::{json_path_of, Answers};
use crate::text::stands_at;
use crate::xpath::{
    AnswerView, XmlEdit, XmlHistory, bound_prefixes, children_of, children_removed,
    declared_namespaces, deep_text_of, document_answer, document_problem, document_text, edited,
    extracted, float_is_nan, is_small_integer, node_of, node_replaced, nodes_replaced, number_value,
    parent_shape_of, small_integer_is_unique, text_selection, unedited, version_rejection,
    xml_replaced, xpath_answer,
};
use crate::xpath_arguments::always_returning_returns;
use crate::xpath_calls::always_returns;
use vstd::prelude::*;
use vstd::string::*;
use vstd::utf8::{decode_utf8, valid_utf8};

verus! {

/// The text that a selected node stands for: the value of an attribute, else
/// all the text in it.
pub open spec fn text_of_node(h: XmlHistory, node: usize) -> Seq<char> {
    if node_of(h, node) is Attribute {
        node_of(h, node)->Attribute_0
    } else {
        deep_text_of(h, node)
    }
}

/// Only XPath 1.0 is evaluated, and only where it is asked for.
pub proof fn only_one_version_is_taken(version: Option<Seq<char>>)
    ensures
        version_rejection(version) is None == (version == Some("xpath-10"@)),
{
}

/// What nodes come to: their number, whether there are any, and their texts;
/// none are `null`, one is its text, and more are the list of their texts in
/// order.
pub proof fn nodes_come_to_their_texts(xml: Seq<char>, expr: Seq<char>, nodes: Seq<usize>, i: int)
    requires
        document_problem(xml) is None,
        document_answer(xml, expr) == Ok::<AnswerView, Seq<char>>(AnswerView::Nodes(nodes)),
    ensures
        text_selection(xml, expr) matches Ok(s) && {
            let h = unedited(xml);
            &&& s.match_count == nodes.len()
            &&& s.truthy == (nodes.len() > 0)
            &&& nodes.len() == 0 ==> s.value == Ok::<JsonView, Seq<char>>(JsonView::Null)
            &&& nodes.len() == 1 ==> s.value == Ok::<JsonView, Seq<char>>(
                JsonView::Text(text_of_node(h, nodes[0])),
            )
            &&& nodes.len() > 1 ==> (s.value matches Ok(JsonView::Array(list)) && list.len()
                == nodes.len() && (0 <= i < nodes.len() ==> list[i] == JsonView::Text(
                text_of_node(h, nodes[i]),
            )))
        },
{
}

/// What a text, a boolean or a number comes to: itself, once. A text is true
/// unless it is empty, and a number unless it is zero or none.
pub proof fn plain_answers_come_to_themselves(xml: Seq<char>, expr: Seq<char>, a: AnswerView)
    requires
        document_problem(xml) is None,
        document_answer(xml, expr) == Ok::<AnswerView, Seq<char>>(a),
    ensures
        text_selection(xml, expr) matches Ok(s) && {
            &&& a matches AnswerView::Text(t) ==> s.match_count == 1 && s.truthy == (t.len() > 0)
                && s.value == Ok::<JsonView, Seq<char>>(JsonView::Text(t))
            &&& a matches AnswerView::Boolean(b) ==> s.match_count == 1 && s.truthy == b && s.value
                == Ok::<JsonView, Seq<char>>(JsonView::Bool(b))
            &&& a matches AnswerView::Number { bits, text, json } ==> s.match_count == 1 && s.truthy
                == (bits != 0 && bits != 0x8000_0000_0000_0000 && !float_is_nan(bits))
        },
{
    if let AnswerView::Number { bits, text, json } = a {
        assert((bits % 0x8000_0000_0000_0000 == 0) == (bits == 0 || bits == 0x8000_0000_0000_0000));
    }
}

/// A number that is an integer comes to that integer, as far as doubles are
/// exact; any other number to itself, where JSON has a form for it.
pub proof fn integers_come_to_integers(bits: u64, text: Seq<char>, json: Option<Seq<char>>, n: int)
    ensures
        float_is_integer(bits, n) && 0 <= n <= 9_007_199_254_740_992 ==> number_value(
            bits,
            text,
            json,
        ) == Ok::<JsonView, Seq<char>>(JsonView::Number(NumberView::PosInt(n as u64))),
        float_is_integer(bits, n) && -9_007_199_254_740_992 <= n < 0 ==> number_value(
            bits,
            text,
            json,
        ) == Ok::<JsonView, Seq<char>>(JsonView::Number(NumberView::NegInt(n as i64))),
        (forall|k: int|
            -9_007_199_254_740_992 <= k <= 9_007_199_254_740_992 ==> !(#[trigger] float_is_integer(
                bits,
                k,
            ))) ==> (json matches Some(t) ==> number_value(bits, text, json) == Ok::<
            JsonView,
            Seq<char>,
        >(JsonView::Number(NumberView::Float { bits, text: t }))),
{
    if float_is_integer(bits, n) && -9_007_199_254_740_992 <= n <= 9_007_199_254_740_992 {
        assert(is_small_integer(bits, n));
        small_integer_is_unique(bits, n, choose|k: int| is_small_integer(bits, k));
    }
    if exists|k: int| is_small_integer(bits, k) {
        let k = choose|k: int| is_small_integer(bits, k);
        assert(float_is_integer(bits, k));
    }
}

/// A bare XPath extracts what it selects, and `null` where the body is no text,
/// no XML, or nothing can be selected in it.
pub proof fn extraction_never_fails(body: Seq<u8>, expr: Seq<char>)
    ensures
        valid_utf8(body) ==> (text_selection(decode_utf8(body), expr) matches Ok(s) ==> (
        s.value matches Ok(v) ==> extracted(body, expr) == v)),
        !valid_utf8(body) ==> extracted(body, expr) is Null,
        valid_utf8(body) && text_selection(decode_utf8(body), expr) is Err ==> extracted(body, expr)
            is Null,
{
}

/// An output that is an XPath reads the body of the response; an expression
/// reads what it came to; and any other text is a path in the body.
pub proof fn outputs_read_what_they_name(
    expr: Seq<char>,
    a: Answers,
    response: Option<Response>,
)
    requires
        expr.len() > 0,
    ensures
        expr[0] == '/' ==> (response matches Some(r) ==> (valid_utf8(r.body@) ==> (text_selection(
            decode_utf8(r.body@),
            expr,
        ) matches Ok(s) ==> (s.value matches Ok(v) ==> output_value(expr, a, response).value
            == v)))),
        expr[0] == '/' && response is None ==> output_value(expr, a, response).value is Null
            && output_value(expr, a, response).warnings.len() == 1,
        expr[0] == '$' && a.contexts@.contains_key(expr) ==> output_value(expr, a, response).value
            == a.contexts@[expr].value@,
        expr[0] != '$' && !stands_at(expr, 0, "$response.body"@) ==> output_question(expr)
            == "$response.body."@ + expr,
{
    reveal_strlit("$response.body");
    reveal_strlit("$response.body.");
    if expr[0] != '$' {
        if stands_at(expr, 0, "$response.body."@) {
            assert(expr.subrange(0, 15)[0] == '$');
        }
        if stands_at(expr, 0, "$response.body"@) {
            assert(expr.subrange(0, 14)[0] == '$');
        }
    }
}

/// A node is replaced as what it is: a text by one edit of it, an attribute by
/// one edit of its value, and an element is left with the text alone.
pub proof fn nodes_are_replaced_as_what_they_are(h: XmlHistory, node: usize, text: Seq<char>)
    ensures
        node_of(h, node) is Text || node_of(h, node) is CData ==> node_replaced(h, node, text)
            == Ok::<XmlHistory, Seq<char>>(edited(h, XmlEdit::TextSet { node, text })),
        node_of(h, node) is Attribute && parent_shape_of(h, node) is Element ==> node_replaced(
            h,
            node,
            text,
        ) == Ok::<XmlHistory, Seq<char>>(edited(h, XmlEdit::AttributeSet { node, text })),
        node_of(h, node) is Element ==> (node_replaced(h, node, text) matches Ok(after)
            && after.edits.len() == h.edits.len() + children_of(h, node).len() + 1
            && after.edits.last() == (XmlEdit::TextAppended { parent: node, text })
            && after.edits.take(h.edits.len() as int) == h.edits && forall|k: int|
            0 <= k < children_of(h, node).len() ==> #[trigger] after.edits[h.edits.len() + k] == (
            XmlEdit::ChildRemoved { parent: node, child: children_of(h, node)[k] })),
        node_of(h, node) is Other || node_of(h, node) is Missing ==> node_replaced(h, node, text)
            is Err,
{
    if node_of(h, node) is Element {
        children_are_removed(h, node, children_of(h, node));
        let gone = children_removed(h, node, children_of(h, node));
        let after = node_replaced(h, node, text)->Ok_0;
        assert(after.edits.take(h.edits.len() as int) =~= h.edits) by {
            assert forall|k: int| 0 <= k < h.edits.len() implies after.edits[k] == h.edits[k] by {
                assert(gone.edits[k] == h.edits[k]);
            }
        }
        assert forall|k: int| 0 <= k < children_of(h, node).len() implies #[trigger] after.edits[
        h.edits.len() + k] == (XmlEdit::ChildRemoved {
            parent: node,
            child: children_of(h, node)[k],
        }) by {
            assert(gone.edits[h.edits.len() + k] == (XmlEdit::ChildRemoved {
                parent: node,
                child: children_of(h, node)[k],
            }));
        }
    }
}

proof fn children_are_removed(h: XmlHistory, parent: usize, gone: Seq<usize>)
    ensures
        ({
            let after = children_removed(h, parent, gone);
            &&& after.edits.len() == h.edits.len() + gone.len()
            &&& forall|k: int| 0 <= k < h.edits.len() ==> #[trigger] after.edits[k] == h.edits[k]
            &&& forall|k: int|
                0 <= k < gone.len() ==> #[trigger] after.edits[h.edits.len() + k] == (
                XmlEdit::ChildRemoved { parent, child: gone[k] })
        }),
    decreases gone.len(),
{
    if gone.len() > 0 {
        children_are_removed(h, parent, gone.drop_last());
        let before = children_removed(h, parent, gone.drop_last());
        let after = children_removed(h, parent, gone);
        assert forall|k: int| 0 <= k < gone.len() implies #[trigger] after.edits[h.edits.len() + k]
            == (XmlEdit::ChildRemoved { parent, child: gone[k] }) by {
            if k < gone.len() - 1 {
                assert(after.edits[h.edits.len() + k] == before.edits[h.edits.len() + k]);
            }
        }
    }
}

/// Replacing in an XML text replaces every selected node in turn and gives the
/// text of what is left; where nothing is selected, or no nodes, it fails.
pub proof fn every_selected_node_is_replaced(
    xml: Seq<char>,
    target: Seq<char>,
    text: Seq<char>,
    nodes: Seq<usize>,
    after: XmlHistory,
)
    requires
        document_problem(xml) is None,
    ensures
        document_answer(xml, target) == Ok::<AnswerView, Seq<char>>(AnswerView::Nodes(nodes))
            && nodes.len() > 0 && nodes_replaced(unedited(xml), nodes, text) == Ok::<
            XmlHistory,
            Seq<char>,
        >(after) ==> xml_replaced(xml, target, Some("xpath-10"@), text) == Ok::<
            Seq<char>,
            Seq<char>,
        >(document_text(after)),
        document_answer(xml, target) == Ok::<AnswerView, Seq<char>>(AnswerView::Nodes(nodes))
            && nodes.len() == 0 ==> xml_replaced(xml, target, Some("xpath-10"@), text) is Err,
        (document_answer(xml, target) matches Ok(a) && !(a is Nodes)) ==> xml_replaced(
            xml,
            target,
            Some("xpath-10"@),
            text,
        ) is Err,
        document_answer(xml, target) is Err ==> xml_replaced(xml, target, Some("xpath-10"@), text)
            is Err,
{
}

/// Replacing nodes one by one is replacing those before and then those behind.
pub proof fn replacing_goes_on(h: XmlHistory, a: Seq<usize>, b: Seq<usize>, one: usize, text: Seq<char>)
    ensures
        nodes_replaced(h, a + b, text) == (match nodes_replaced(h, a, text) {
            Ok(m) => nodes_replaced(m, b, text),
            Err(e) => Err(e),
        }),
        nodes_replaced(h, seq![one], text) == node_replaced(h, one, text),
        nodes_replaced(h, Seq::empty(), text) == Ok::<XmlHistory, Seq<char>>(h),
    decreases b.len(),
{
    reveal_with_fuel(nodes_replaced, 2);
    assert(seq![one].drop_last() =~= Seq::<usize>::empty());
    assert(seq![one].last() == one);
    if b.len() == 0 {
        assert(a + b =~= a);
    } else {
        replacing_goes_on(h, a, b.drop_last(), one, text);
        assert((a + b).drop_last() =~= a + b.drop_last());
        assert((a + b).last() == b.last());
    }
}

proof fn prefixes_are_bound(list: Seq<(Seq<char>, Seq<char>)>, pair: (Seq<char>, Seq<char>))
    ensures
        bound_prefixes(list).contains(pair) == (list.contains(pair) && pair.0.len() > 0),
    decreases list.len(),
{
    if list.len() > 0 {
        let rest = list.drop_last();
        prefixes_are_bound(rest, pair);
        let before = bound_prefixes(rest);
        let now = bound_prefixes(list);
        if rest.contains(pair) {
            assert(list[rest.index_of(pair)] == pair);
        }
        if list.contains(pair) {
            let at = list.index_of(pair);
            if at < rest.len() {
                assert(rest[at] == pair);
            }
        }
        if before.contains(pair) {
            assert(now[before.index_of(pair)] == pair);
        }
        if now.contains(pair) {
            let at = now.index_of(pair);
            if at < before.len() {
                assert(before[at] == pair);
            }
        }
        if list.last().0.len() > 0 {
            assert(now[now.len() - 1] == list.last());
            assert(list[list.len() - 1] == list.last());
        }
    }
}

/// An expression is evaluated in the document as it was read, with every prefix
/// bound that the document element declares, and no other; the default
/// namespace is no prefix.
pub proof fn expressions_know_the_prefixes(
    xml: Seq<char>,
    expr: Seq<char>,
    pair: (Seq<char>, Seq<char>),
)
    ensures
        ({
            let declared = declared_namespaces(unedited(xml));
            let bound = bound_prefixes(declared);
            &&& bound.contains(pair) == (declared.contains(pair) && pair.0.len() > 0)
            &&& always_returns(expr) ==> document_answer(xml, expr) == xpath_answer(
                unedited(xml),
                bound,
                expr,
            )
        }),
{
    prefixes_are_bound(declared_namespaces(unedited(xml)), pair);
    if always_returns(expr) {
        always_returning_returns(
            unedited(xml),
            bound_prefixes(declared_namespaces(unedited(xml))),
            expr,
        );
    }
}

/// A text that is no XML is refused, whatever is asked of it, and says why.
pub proof fn only_xml_is_selected_in(xml: Seq<char>, expr: Seq<char>)
    ensures
        document_problem(xml) matches Some(p) ==> text_selection(xml, expr) == Err::<
            crate::xpath::SelectionView,
            Seq<char>,
        >("invalid XML: "@ + p),
        document_problem(xml) is None ==> text_selection(xml, expr) is Ok == document_answer(
            xml,
            expr,
        ) is Ok,
{
}

/// The path in a body that an expression stands for is what follows the body,
/// and a text that does not speak of the body is such a path itself.
pub proof fn paths_follow_the_body(path: Seq<char>)
    ensures
        json_path_of("$response.body."@ + path) == path,
        !stands_at(path, 0, "$response.body"@) ==> json_path_of(path) == path,
        json_path_of("$response.body"@) == Seq::<char>::empty(),
{
    reveal_strlit("$response.body.");
    reveal_strlit("$response.body");
    let with_dot = "$response.body."@ + path;
    assert(with_dot.subrange(0, 15) =~= "$response.body."@);
    assert(with_dot.skip(15) =~= path);
    if stands_at(path, 0, "$response.body."@) {
        assert(path.subrange(0, 14) =~= "$response.body"@) by {
            assert forall|k: int| 0 <= k < 14 implies path[k] == "$response.body"@[k] by {
                assert(path.subrange(0, 15)[k] == "$response.body."@[k]);
            }
        }
    }
    let bare = "$response.body"@;
    assert(bare.len() == 14);
    assert(bare.subrange(0, 14) =~= bare);
    assert(bare.skip(14) =~= Seq::<char>::empty());
}

} // verus!
