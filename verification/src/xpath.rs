//! XPath 1.0 over XML texts: selecting values, and replacing nodes.

use crate::json::{view_by_variant, Json, JsonNumber, JsonView, NumberView};
use crate::json_equal::{
    float_exponent, float_is_finite, float_is_integer, float_magnitude_is, float_significand,
};
use crate::text::{concat2, concat3, concat4, same_text};
use crate::xml_limits::{can_be_read, document_returns, LARGE_DECLARATIONS};
use crate::xpath_arguments::{evaluation_problem, evaluation_returns, find_problem};
use vstd::arithmetic::power2::{
    lemma2_to64, lemma2_to64_rest, lemma_pow2_pos, lemma_pow2_strictly_increases, pow2,
};
use vstd::prelude::*;
use vstd::string::*;
use vstd::utf8::{
    decode_utf8, encode_utf8, encode_utf8_decode_utf8, encode_utf8_valid_utf8, valid_utf8,
};

verus! {

// ---------------------------------------------------------------------
// Documents
// ---------------------------------------------------------------------

/// An XML document as `uppsala` holds it.
#[verifier::external_type_specification]
#[verifier::external_body]
pub struct ExDocument<'a>(uppsala::Document<'a>);

/// One edit of a document. Nodes go by their number in it.
#[verifier::ext_equal]
pub enum XmlEdit {
    ChildRemoved { parent: usize, child: usize },
    TextAppended { parent: usize, text: Seq<char> },
    AttributeSet { node: usize, text: Seq<char> },
    TextSet { node: usize, text: Seq<char> },
}

/// What a document holds: the text it was read from, and the edits since.
#[verifier::ext_equal]
pub struct XmlHistory {
    pub xml: Seq<char>,
    pub edits: Seq<XmlEdit>,
}

/// A document that was read and not edited.
pub open spec fn unedited(xml: Seq<char>) -> XmlHistory {
    XmlHistory { xml, edits: Seq::empty() }
}

/// A document with one edit more.
pub open spec fn edited(h: XmlHistory, e: XmlEdit) -> XmlHistory {
    XmlHistory { xml: h.xml, edits: h.edits.push(e) }
}

/// What a document holds.
pub uninterp spec fn document_history(d: uppsala::Document<'static>) -> XmlHistory;

/// Why a text is no XML document; nothing where it is one.
pub uninterp spec fn xml_problem(xml: Seq<char>) -> Option<Seq<char>>;

/// `uppsala::parse`, the document prepared for XPath: it is read from the
/// text alone, and where that fails the text of the error depends on it alone.
/// Elements inside elements it takes only so deep, but for every bracket in
/// the declaration of an element and for every entity that stands for another
/// it goes one call deeper, so the text may hold only so many of these; and
/// the markup of an entity it reads inside the elements around it, so there
/// may be only so many of these where an entity holds any.
#[verifier::external_body]
fn read_document(xml: &str) -> (r: Result<uppsala::Document<'static>, String>)
    requires
        document_returns(xml@),
    ensures
        match r {
            Ok(d) => document_history(d) == unedited(xml@) && xml_problem(xml@) is None,
            Err(e) => xml_problem(xml@) == Some(e@),
        },
{
    match uppsala::parse(xml) {
        Ok(doc) => {
            let mut doc = doc.into_static();
            doc.prepare_xpath();
            Ok(doc)
        },
        Err(e) => Err(e.to_string()),
    }
}

/// Why a text is not taken as an XML document; nothing where it is.
pub open spec fn document_problem(xml: Seq<char>) -> Option<Seq<char>> {
    if document_returns(xml) {
        xml_problem(xml)
    } else {
        Some(LARGE_DECLARATIONS@)
    }
}

/// Reads a document from a text that can be read, and refuses the others.
fn open_document(xml: &str) -> (r: Result<uppsala::Document<'static>, String>)
    ensures
        match r {
            Ok(d) => document_history(d) == unedited(xml@) && document_problem(xml@) is None,
            Err(e) => document_problem(xml@) == Some(e@),
        },
{
    if can_be_read(xml) {
        read_document(xml)
    } else {
        Err(LARGE_DECLARATIONS.to_owned())
    }
}

/// A namespace prefix and the URI it is bound to.
pub struct Namespace {
    pub prefix: String,
    pub uri: String,
}

/// The contents of a list of namespaces.
pub open spec fn namespace_views(list: Seq<Namespace>) -> Seq<(Seq<char>, Seq<char>)> {
    list.map_values(|n: Namespace| (n.prefix@, n.uri@))
}

/// The namespaces that the document element declares, in order.
pub uninterp spec fn declared_namespaces(h: XmlHistory) -> Seq<(Seq<char>, Seq<char>)>;

/// The `namespace_declarations` of `uppsala`'s document element: a prefix and
/// a URI each, and none without a document element.
#[verifier::external_body]
fn root_namespaces(doc: &uppsala::Document<'static>) -> (r: Vec<Namespace>)
    ensures
        namespace_views(r@) == declared_namespaces(document_history(*doc)),
{
    match doc.document_element().and_then(|id| doc.element(id)) {
        Some(e) => e.namespace_declarations.iter().map(
            |n| Namespace { prefix: n.0.to_string(), uri: n.1.to_string() },
        ).collect(),
        None => Vec::new(),
    }
}

// ---------------------------------------------------------------------
// Evaluation
// ---------------------------------------------------------------------

/// Whether a double is no number.
pub open spec fn float_is_nan(bits: u64) -> bool {
    !float_is_finite(bits) && bits % 0x10_0000_0000_0000 != 0
}

/// The bits of a double, those of every double that is no number being one and
/// the same.
pub open spec fn settled_bits(bits: u64) -> u64 {
    if float_is_nan(bits) {
        0x7ff8_0000_0000_0000
    } else {
        bits
    }
}

/// What an XPath expression comes to. A number goes by its bits, its text and
/// its JSON text where it has one; nodes go by their numbers.
pub enum XPathAnswer {
    Text(String),
    Boolean(bool),
    Number { bits: u64, text: String, json: Option<String> },
    Nodes(Vec<usize>),
}

/// The content of an answer.
#[verifier::ext_equal]
pub enum AnswerView {
    Text(Seq<char>),
    Boolean(bool),
    Number { bits: u64, text: Seq<char>, json: Option<Seq<char>> },
    Nodes(Seq<usize>),
}

impl View for XPathAnswer {
    type V = AnswerView;

    open spec fn view(&self) -> AnswerView {
        match *self {
            XPathAnswer::Text(s) => AnswerView::Text(s@),
            XPathAnswer::Boolean(b) => AnswerView::Boolean(b),
            XPathAnswer::Number { bits, text, json } => AnswerView::Number {
                bits: settled_bits(bits),
                text: text@,
                json: match json {
                    Some(j) => Some(j@),
                    None => None,
                },
            },
            XPathAnswer::Nodes(n) => AnswerView::Nodes(n@),
        }
    }
}

/// A result as `uppsala` holds it.
#[verifier::external_type_specification]
#[verifier::external_body]
pub struct ExXPathValue(uppsala::XPathValue);

/// What a result of `uppsala` holds.
pub uninterp spec fn answer_content(v: uppsala::XPathValue) -> AnswerView;

/// What an expression comes to in a document, with prefixes bound.
pub uninterp spec fn xpath_answer(
    h: XmlHistory,
    namespaces: Seq<(Seq<char>, Seq<char>)>,
    expr: Seq<char>,
) -> Result<AnswerView, Seq<char>>;

/// `uppsala::XPathEvaluator::evaluate` at the root of a document, with the
/// given prefixes bound: the result, or the text of the error, depends on the
/// document, the prefixes and the expression alone. It goes one call deeper
/// for each operator of a chain, each call and each predicate, so there may be
/// only so many of these. The numbers that the expression hands to
/// `substring` have to be small: it adds the second and the third argument in
/// a `usize`, and a sum that no `usize` holds makes it panic. Outside
/// predicates an argument is evaluated at the root, as `number` of it is when
/// it is evaluated by itself.
#[verifier::external_body]
pub(crate) fn evaluate(doc: &uppsala::Document<'static>, namespaces: &Vec<Namespace>, expr: &str) -> (r: Result<
    uppsala::XPathValue,
    String,
>)
    requires
        evaluation_returns(document_history(*doc), namespace_views(namespaces@), expr@),
    ensures
        match r {
            Ok(v) => xpath_answer(
                document_history(*doc),
                namespace_views(namespaces@),
                expr@,
            ) == Ok::<AnswerView, Seq<char>>(answer_content(v)),
            Err(e) => xpath_answer(
                document_history(*doc),
                namespace_views(namespaces@),
                expr@,
            ) == Err::<AnswerView, Seq<char>>(e@),
        },
{
    let mut eval = uppsala::XPathEvaluator::new();
    namespaces.iter().for_each(|n| eval.add_namespace(n.prefix.clone(), n.uri.clone()));
    eval.evaluate(doc, doc.root(), expr).map_err(|e| e.to_string())
}

/// The variants of `uppsala::XPathValue`: each is handed out with its field, a
/// number by its bits, its text, and its text as a JSON number where it has
/// one.
#[verifier::external_body]
pub(crate) fn open_answer(v: uppsala::XPathValue) -> (r: XPathAnswer)
    ensures
        r@ == answer_content(v),
{
    match v {
        uppsala::XPathValue::String(s) => XPathAnswer::Text(s),
        uppsala::XPathValue::Boolean(b) => XPathAnswer::Boolean(b),
        uppsala::XPathValue::Number(n) => XPathAnswer::Number {
            bits: n.to_bits(),
            text: n.to_string(),
            json: serde_json::Number::from_f64(n).map(|j| j.to_string()),
        },
        uppsala::XPathValue::NodeSet(n) => XPathAnswer::Nodes(
            n.iter().map(|i| i.index()).collect(),
        ),
    }
}

/// What kind of node a node is; of an attribute, also its value.
#[derive(Debug)]
pub enum XmlNode {
    Element,
    Attribute(String),
    Text,
    CData,
    Other,
    Missing,
}

/// The content of a node.
#[verifier::ext_equal]
pub enum NodeView {
    Element,
    Attribute(Seq<char>),
    Text,
    CData,
    Other,
    Missing,
}

impl View for XmlNode {
    type V = NodeView;

    open spec fn view(&self) -> NodeView {
        match *self {
            XmlNode::Element => NodeView::Element,
            XmlNode::Attribute(value) => NodeView::Attribute(value@),
            XmlNode::Text => NodeView::Text,
            XmlNode::CData => NodeView::CData,
            XmlNode::Other => NodeView::Other,
            XmlNode::Missing => NodeView::Missing,
        }
    }
}

/// What kind of node a node is.
pub uninterp spec fn node_of(h: XmlHistory, node: usize) -> NodeView;

/// `uppsala::Document::node_kind`: the variant of the node, and the value of
/// an attribute.
#[verifier::external_body]
fn open_node(doc: &uppsala::Document<'static>, node: usize) -> (r: XmlNode)
    ensures
        r@ == node_of(document_history(*doc), node),
{
    match doc.node_kind(uppsala::NodeId::new(node)) {
        Some(uppsala::NodeKind::Element(_)) => XmlNode::Element,
        Some(uppsala::NodeKind::Attribute(_, value)) => XmlNode::Attribute(value.to_string()),
        Some(uppsala::NodeKind::Text(_)) => XmlNode::Text,
        Some(uppsala::NodeKind::CData(_)) => XmlNode::CData,
        Some(_) => XmlNode::Other,
        None => XmlNode::Missing,
    }
}

/// The text of a node and everything in it.
pub uninterp spec fn deep_text_of(h: XmlHistory, node: usize) -> Seq<char>;

/// `uppsala::Document::text_content_deep`: the text of the node and of all
/// that is in it.
#[verifier::external_body]
fn deep_text(doc: &uppsala::Document<'static>, node: usize) -> (r: String)
    ensures
        r@ == deep_text_of(document_history(*doc), node),
{
    doc.text_content_deep(uppsala::NodeId::new(node))
}

// ---------------------------------------------------------------------
// Texts
// ---------------------------------------------------------------------

/// A text in quotes, as it is shown for debugging.
pub uninterp spec fn debug_quoted(s: Seq<char>) -> Seq<char>;

/// The `Debug` form of a string slice: in double quotes, with what is not
/// printable escaped. The escapes are left unsaid.
#[verifier::external_body]
pub(crate) fn debug_quote(s: &str) -> (r: String)
    ensures
        r@ == debug_quoted(s@),
{
    format!("{:?}", s)
}

/// Why some bytes are no UTF-8.
pub uninterp spec fn utf8_problem(bytes: Seq<u8>) -> Seq<char>;

/// `std::str::from_utf8`: the text whose encoding the bytes are; where they
/// are none, the text of the error depends on the bytes alone.
#[verifier::external_body]
pub(crate) fn utf8_text(bytes: &[u8]) -> (r: Result<String, String>)
    ensures
        match r {
            Ok(s) => encode_utf8(s@) == bytes@,
            Err(e) => !valid_utf8(bytes@) && e@ == utf8_problem(bytes@),
        },
{
    match std::str::from_utf8(bytes) {
        Ok(s) => Ok(s.to_owned()),
        Err(e) => Err(e.to_string()),
    }
}

// ---------------------------------------------------------------------
// Versions
// ---------------------------------------------------------------------

/// Why a declared XPath version is refused: all but `xpath-10` are.
pub open spec fn version_rejection(version: Option<Seq<char>>) -> Option<Seq<char>> {
    match version {
        None => Some(
            "XPath target version is omitted and defaults to \"xpath-31\" (XML Path Language 3.1), which this runtime does not implement; declare version \"xpath-10\" to evaluate with the XPath 1.0 engine"@,
        ),
        Some(v) => if v == "xpath-10"@ {
            None
        } else if v == "xpath-20"@ || v == "xpath-30"@ || v == "xpath-31"@ {
            Some(
                "XPath version "@ + debug_quoted(v)
                    + " is valid Arazzo metadata but is not implemented by this runtime; declare version \"xpath-10\" to evaluate with the XPath 1.0 engine"@,
            )
        } else {
            Some("unsupported XPath version "@ + debug_quoted(v))
        },
    }
}

/// The content of an optional text.
pub open spec fn opt_text(s: Option<&str>) -> Option<Seq<char>> {
    match s {
        Some(t) => Some(t@),
        None => None,
    }
}

/// Why a declared XPath version is refused.
pub fn xpath_version_rejection(version: Option<&str>) -> (r: Option<String>)
    ensures
        match r {
            Some(m) => version_rejection(opt_text(version)) == Some(m@),
            None => version_rejection(opt_text(version)) is None,
        },
{
    match version {
        None => Some(
            "XPath target version is omitted and defaults to \"xpath-31\" (XML Path Language 3.1), which this runtime does not implement; declare version \"xpath-10\" to evaluate with the XPath 1.0 engine".to_owned(),
        ),
        Some(v) => if same_text(v, "xpath-10") {
            None
        } else if same_text(v, "xpath-20") || same_text(v, "xpath-30") || same_text(v, "xpath-31") {
            let quoted = debug_quote(v);
            Some(
                concat3(
                    "XPath version ",
                    quoted.as_str(),
                    " is valid Arazzo metadata but is not implemented by this runtime; declare version \"xpath-10\" to evaluate with the XPath 1.0 engine",
                ),
            )
        } else {
            let quoted = debug_quote(v);
            Some(concat2("unsupported XPath version ", quoted.as_str()))
        },
    }
}

// ---------------------------------------------------------------------
// Answers as JSON
// ---------------------------------------------------------------------

/// The greatest integer up to which doubles hold every integer.
pub const MAX_LOSSLESS_INTEGER: u64 = 9_007_199_254_740_992;

/// Whether a double is an integer that is small enough to be exact.
pub open spec fn is_small_integer(bits: u64, n: int) -> bool {
    -MAX_LOSSLESS_INTEGER <= n <= MAX_LOSSLESS_INTEGER && float_is_integer(bits, n)
}

/// An integer as a JSON number.
pub open spec fn json_integer(n: int) -> JsonView {
    if n < 0 {
        JsonView::Number(NumberView::NegInt(n as i64))
    } else {
        JsonView::Number(NumberView::PosInt(n as u64))
    }
}

/// A number as JSON: an integer where it is one and exact, else the number
/// itself, and nothing where JSON has no form for it.
pub open spec fn number_value(bits: u64, text: Seq<char>, json: Option<Seq<char>>) -> Result<
    JsonView,
    Seq<char>,
> {
    if exists|n: int| is_small_integer(bits, n) {
        Ok(json_integer(choose|n: int| is_small_integer(bits, n)))
    } else {
        match json {
            Some(t) => Ok(JsonView::Number(NumberView::Float { bits, text: t })),
            None => Err("XPath number result "@ + text + " has no JSON representation"@),
        }
    }
}

/// A double is one integer at most.
pub proof fn small_integer_is_unique(bits: u64, m: int, n: int)
    requires
        is_small_integer(bits, m),
        is_small_integer(bits, n),
    ensures
        m == n,
{
    let a: nat = if m < 0 {
        (-m) as nat
    } else {
        m as nat
    };
    let b: nat = if n < 0 {
        (-n) as nat
    } else {
        n as nat
    };
    assert(float_magnitude_is(bits, a));
    assert(float_magnitude_is(bits, b));
    let x = float_exponent(bits);
    if x < 0 {
        let p = pow2((-x) as nat);
        lemma_pow2_pos((-x) as nat);
        assert(a * p == b * p);
        assert(a == b) by (nonlinear_arith)
            requires
                a * p == b * p,
                p > 0,
        ;
    }
}

/// The natural number that the magnitude of a finite double is, up to
/// [`MAX_LOSSLESS_INTEGER`].
fn small_magnitude(bits: u64) -> (r: Option<u64>)
    requires
        float_is_finite(bits),
    ensures
        match r {
            Some(n) => n <= MAX_LOSSLESS_INTEGER && float_magnitude_is(bits, n as nat),
            None => forall|n: nat|
                n <= MAX_LOSSLESS_INTEGER ==> !(#[trigger] float_magnitude_is(bits, n)),
        },
{
    let e: u64 = (bits / 0x10_0000_0000_0000) % 0x800;
    let f: u64 = bits % 0x10_0000_0000_0000;
    let m: u64 = if e == 0 {
        f
    } else {
        f + 0x10_0000_0000_0000
    };
    assert(m == float_significand(bits));
    assert(m < 0x20_0000_0000_0000);
    proof {
        lemma2_to64();
        lemma2_to64_rest();
    }
    if e >= 1075 {
        let x: u64 = e - 1075;
        assert(float_exponent(bits) == x);
        if x == 0 {
            assert(m * pow2(0) == m) by (nonlinear_arith)
                requires
                    pow2(0) == 1,
            ;
            return Some(m);
        }
        if x == 1 && m == 0x10_0000_0000_0000 {
            assert(m * pow2(1) == MAX_LOSSLESS_INTEGER) by (nonlinear_arith)
                requires
                    m == 0x10_0000_0000_0000,
                    pow2(1) == 2,
                    MAX_LOSSLESS_INTEGER == 0x20_0000_0000_0000,
            ;
            return Some(MAX_LOSSLESS_INTEGER);
        }
        proof {
            let p = pow2(x as nat);
            if x > 1 {
                lemma_pow2_strictly_increases(1, x as nat);
            }
            if x == 1 {
                assert(m * p > MAX_LOSSLESS_INTEGER) by (nonlinear_arith)
                    requires
                        m > 0x10_0000_0000_0000,
                        p == 2,
                        MAX_LOSSLESS_INTEGER == 0x20_0000_0000_0000,
                ;
            } else {
                assert(p >= 3);
                assert(m * p > MAX_LOSSLESS_INTEGER) by (nonlinear_arith)
                    requires
                        m >= 0x10_0000_0000_0000,
                        p >= 3,
                        MAX_LOSSLESS_INTEGER == 0x20_0000_0000_0000,
                ;
            }
        }
        None
    } else {
        let k: u64 = if e == 0 {
            1074
        } else {
            1075 - e
        };
        assert(float_exponent(bits) == -(k as int));
        if m == 0 {
            assert(0 * pow2(k as nat) == 0) by (nonlinear_arith);
            return Some(0);
        }
        let ghost p = pow2(k as nat);
        proof {
            lemma_pow2_pos(k as nat);
            assert forall|n: nat| n <= MAX_LOSSLESS_INTEGER && #[trigger] float_magnitude_is(bits, n)
                implies m == n * p by {}
        }
        if k >= 53 {
            proof {
                if k > 53 {
                    lemma_pow2_strictly_increases(53, k as nat);
                }
                assert forall|n: nat| n <= MAX_LOSSLESS_INTEGER implies !(
                #[trigger] float_magnitude_is(bits, n)) by {
                    if n == 0 {
                        assert(0 * p == 0) by (nonlinear_arith);
                    } else {
                        assert(n * p >= 0x20_0000_0000_0000) by (nonlinear_arith)
                            requires
                                n >= 1,
                                p >= 0x20_0000_0000_0000,
                        ;
                    }
                }
            }
            return None;
        }
        let power: u64 = power_of_two(k);
        if m % power == 0 {
            let q: u64 = m / power;
            assert(m == q * power) by (nonlinear_arith)
                requires
                    m % power == 0,
                    q == m / power,
                    power > 0,
            ;
            Some(q)
        } else {
            proof {
                assert forall|n: nat| n <= MAX_LOSSLESS_INTEGER implies !(
                #[trigger] float_magnitude_is(bits, n)) by {
                    if m == n * p {
                        assert(m as int % power as int == 0) by (nonlinear_arith)
                            requires
                                m == n * power,
                                power > 0,
                        ;
                    }
                }
            }
            None
        }
    }
}

fn power_of_two(k: u64) -> (r: u64)
    requires
        k < 53,
    ensures
        r == pow2(k as nat),
        r > 0,
        r <= 0x10_0000_0000_0000,
{
    let mut p: u64 = 1;
    let mut i: u64 = 0;
    proof {
        lemma2_to64();
        lemma2_to64_rest();
    }
    while i < k
        invariant
            i <= k < 53,
            p == pow2(i as nat),
            0 < p <= 0x10_0000_0000_0000,
            pow2(52) == 0x10_0000_0000_0000,
        decreases k - i,
    {
        proof {
            vstd::arithmetic::power2::lemma_pow2_unfold((i + 1) as nat);
            if i + 1 < 52 {
                lemma_pow2_strictly_increases((i + 1) as nat, 52);
            }
        }
        p = p * 2;
        i = i + 1;
    }
    p
}

/// A number as JSON.
pub fn finite_number_value(bits: u64, text: &str, json: Option<String>) -> (r: Result<Json, String>)
    ensures
        value_view(r) == number_value(
            bits,
            text@,
            match json {
                Some(j) => Some(j@),
                None => None,
            },
        ),
{
    broadcast use view_by_variant;

    let finite = (bits / 0x10_0000_0000_0000) % 0x800 != 0x7ff;
    if finite {
        match small_magnitude(bits) {
            Some(n) => {
                let negative = bits >= 0x8000_0000_0000_0000;
                if negative && n > 0 {
                    let value = Json::Number(JsonNumber::NegInt(-(n as i64)));
                    assert(is_small_integer(bits, -(n as int)));
                    proof {
                        small_integer_is_unique(
                            bits,
                            -(n as int),
                            choose|k: int| is_small_integer(bits, k),
                        );
                    }
                    return Ok(value);
                }
                let value = Json::Number(JsonNumber::PosInt(n));
                assert(is_small_integer(bits, n as int));
                proof {
                    small_integer_is_unique(
                        bits,
                        n as int,
                        choose|k: int| is_small_integer(bits, k),
                    );
                }
                return Ok(value);
            },
            None => {
                assert forall|n: int| !is_small_integer(bits, n) by {
                    if is_small_integer(bits, n) {
                        if n < 0 {
                            assert(float_magnitude_is(bits, (-n) as nat));
                        } else {
                            assert(float_magnitude_is(bits, n as nat));
                        }
                    }
                }
            },
        }
    }
    match json {
        Some(t) => Ok(Json::Number(JsonNumber::Float { bits, text: t })),
        None => Err(concat3("XPath number result ", text, " has no JSON representation")),
    }
}

/// The text of a selected node: the value of an attribute, else the text of
/// all that is in it.
pub open spec fn node_text_of(h: XmlHistory, node: usize) -> Seq<char> {
    match node_of(h, node) {
        NodeView::Attribute(v) => v,
        _ => deep_text_of(h, node),
    }
}

fn node_text(doc: &uppsala::Document<'static>, node: usize) -> (r: String)
    ensures
        r@ == node_text_of(document_history(*doc), node),
{
    match open_node(doc, node) {
        XmlNode::Attribute(v) => v,
        _ => deep_text(doc, node),
    }
}

/// What a selection comes to.
#[derive(Debug, PartialEq)]
pub struct XPathSelection {
    /// Whether the raw result counts as true: a boolean by itself, a number
    /// unless it is zero or no number, a text unless it is empty, nodes
    /// unless there are none.
    pub truthy: bool,
    /// The number of nodes; one for a result that is no node set.
    pub match_count: usize,
    pub value: Result<Json, String>,
}

/// Whether an answer counts as true.
pub open spec fn answer_truth(a: AnswerView) -> bool {
    match a {
        AnswerView::Boolean(b) => b,
        AnswerView::Number { bits, text, json } => bits % 0x8000_0000_0000_0000 != 0
            && !float_is_nan(bits),
        AnswerView::Text(s) => s.len() > 0,
        AnswerView::Nodes(n) => n.len() > 0,
    }
}

/// How many matches an answer stands for.
pub open spec fn answer_count(a: AnswerView) -> nat {
    match a {
        AnswerView::Nodes(n) => n.len(),
        _ => 1,
    }
}

/// The texts of selected nodes, as JSON.
pub open spec fn node_values(h: XmlHistory, nodes: Seq<usize>) -> Seq<JsonView> {
    nodes.map_values(|n: usize| JsonView::Text(node_text_of(h, n)))
}

/// An answer as JSON: no nodes are `null`, one is its text, more are a list
/// of texts; everything else keeps its type.
pub open spec fn answer_value(h: XmlHistory, a: AnswerView) -> Result<JsonView, Seq<char>> {
    match a {
        AnswerView::Text(s) => Ok(JsonView::Text(s)),
        AnswerView::Boolean(b) => Ok(JsonView::Bool(b)),
        AnswerView::Number { bits, text, json } => number_value(bits, text, json),
        AnswerView::Nodes(n) => Ok(
            if n.len() == 0 {
                JsonView::Null
            } else if n.len() == 1 {
                JsonView::Text(node_text_of(h, n[0]))
            } else {
                JsonView::Array(node_values(h, n))
            },
        ),
    }
}

/// The content of a JSON result.
pub open spec fn value_view(r: Result<Json, String>) -> Result<JsonView, Seq<char>> {
    match r {
        Ok(v) => Ok(v@),
        Err(e) => Err(e@),
    }
}

/// The content of a selection.
#[verifier::ext_equal]
pub struct SelectionView {
    pub truthy: bool,
    pub match_count: nat,
    pub value: Result<JsonView, Seq<char>>,
}

impl View for XPathSelection {
    type V = SelectionView;

    open spec fn view(&self) -> SelectionView {
        SelectionView {
            truthy: self.truthy,
            match_count: self.match_count as nat,
            value: value_view(self.value),
        }
    }
}

/// What an answer comes to.
pub open spec fn selection_of(h: XmlHistory, a: AnswerView) -> SelectionView {
    SelectionView {
        truthy: answer_truth(a),
        match_count: answer_count(a),
        value: answer_value(h, a),
    }
}

/// What an answer comes to.
fn normalize(doc: &uppsala::Document<'static>, answer: XPathAnswer) -> (r: XPathSelection)
    ensures
        r@ == selection_of(document_history(*doc), answer@),
{
    broadcast use view_by_variant;

    match answer {
        XPathAnswer::Text(s) => {
            let truthy = !s.as_str().is_empty();
            XPathSelection { truthy, match_count: 1, value: Ok(Json::Text(s)) }
        },
        XPathAnswer::Boolean(b) => XPathSelection {
            truthy: b,
            match_count: 1,
            value: Ok(Json::Bool(b)),
        },
        XPathAnswer::Number { bits, text, json } => {
            let nan = (bits / 0x10_0000_0000_0000) % 0x800 == 0x7ff && bits % 0x10_0000_0000_0000
                != 0;
            let truthy = bits % 0x8000_0000_0000_0000 != 0 && !nan;
            let bits: u64 = if nan {
                0x7ff8_0000_0000_0000
            } else {
                bits
            };
            let value = finite_number_value(bits, text.as_str(), json);
            XPathSelection { truthy, match_count: 1, value }
        },
        XPathAnswer::Nodes(nodes) => {
            let count: usize = nodes.len();
            let ghost h = document_history(*doc);
            let value = if count == 0 {
                Json::Null
            } else if count == 1 {
                Json::Text(node_text(doc, nodes[0]))
            } else {
                let mut list: Vec<Json> = Vec::new();
                let mut i: usize = 0;
                while i < count
                    invariant
                        i <= count,
                        count == nodes@.len(),
                        h == document_history(*doc),
                        list@.len() == i,
                        forall|j: int|
                            0 <= j < i ==> (#[trigger] list@[j])@ == JsonView::Text(
                                node_text_of(h, nodes@[j]),
                            ),
                    decreases count - i,
                {
                    let item = Json::Text(node_text(doc, nodes[i]));
                    proof {
                        view_by_variant(item);
                    }
                    list.push(item);
                    i = i + 1;
                }
                assert(crate::json::json_views(list@) =~= node_values(h, nodes@));
                Json::Array(list)
            };
            XPathSelection { truthy: count > 0, match_count: count, value: Ok(value) }
        },
    }
}

// ---------------------------------------------------------------------
// Selecting
// ---------------------------------------------------------------------

/// The prefixes that are bound for an expression: those that the document
/// element declares, without the default namespace.
pub open spec fn bound_prefixes(declared: Seq<(Seq<char>, Seq<char>)>) -> Seq<
    (Seq<char>, Seq<char>),
>
    decreases declared.len(),
{
    if declared.len() == 0 {
        declared
    } else {
        let before = bound_prefixes(declared.drop_last());
        if declared.last().0.len() == 0 {
            before
        } else {
            before.push(declared.last())
        }
    }
}

fn bound_namespaces(declared: Vec<Namespace>) -> (r: Vec<Namespace>)
    ensures
        namespace_views(r@) == bound_prefixes(namespace_views(declared@)),
{
    let ghost given = namespace_views(declared@);
    let ghost list = declared@;
    let mut out: Vec<Namespace> = Vec::new();
    assert(namespace_views(out@) =~= bound_prefixes(given.take(0)));
    for n in it: declared
        invariant
            it.seq() == list,
            given == namespace_views(list),
            namespace_views(out@) == bound_prefixes(given.take(it.index() as int)),
    {
        let ghost i = it.index() as int;
        assert(given.take(i + 1).drop_last() =~= given.take(i));
        assert(given[i] == (n.prefix@, n.uri@));
        let ghost before = namespace_views(out@);
        if !n.prefix.as_str().is_empty() {
            let ghost pair = (n.prefix@, n.uri@);
            out.push(n);
            assert(namespace_views(out@) =~= before.push(pair));
        }
    }
    assert(given.take(given.len() as int) =~= given);
    out
}

/// What an expression comes to in a document, or why it is not evaluated.
pub open spec fn checked_answer(
    h: XmlHistory,
    namespaces: Seq<(Seq<char>, Seq<char>)>,
    expr: Seq<char>,
) -> Result<AnswerView, Seq<char>> {
    match evaluation_problem(h, namespaces, expr) {
        Some(p) => Err(p),
        None => xpath_answer(h, namespaces, expr),
    }
}

/// What an expression comes to in an XML text, prefixes bound by its document
/// element.
pub open spec fn document_answer(xml: Seq<char>, expr: Seq<char>) -> Result<AnswerView, Seq<char>> {
    checked_answer(unedited(xml), bound_prefixes(declared_namespaces(unedited(xml))), expr)
}

/// Evaluates an expression that can be evaluated, and refuses the others.
fn answer(doc: &uppsala::Document<'static>, namespaces: &Vec<Namespace>, expr: &str) -> (r: Result<
    XPathAnswer,
    String,
>)
    ensures
        (match r {
            Ok(a) => Ok(a@),
            Err(e) => Err(e@),
        }) == checked_answer(document_history(*doc), namespace_views(namespaces@), expr@),
{
    match find_problem(doc, namespaces, expr) {
        Some(e) => Err(e),
        None => match evaluate(doc, namespaces, expr) {
            Ok(v) => Ok(open_answer(v)),
            Err(e) => Err(e),
        },
    }
}

/// The content of an attempt to select.
pub open spec fn selected_view(r: Result<XPathSelection, String>) -> Result<
    SelectionView,
    Seq<char>,
> {
    match r {
        Ok(s) => Ok(s@),
        Err(e) => Err(e@),
    }
}

/// What selecting in an XML text with an accepted version comes to.
pub open spec fn text_selection(xml: Seq<char>, expr: Seq<char>) -> Result<
    SelectionView,
    Seq<char>,
> {
    match document_problem(xml) {
        Some(p) => Err("invalid XML: "@ + p),
        None => match document_answer(xml, expr) {
            Ok(a) => Ok(selection_of(unedited(xml), a)),
            Err(p) => Err("invalid XPath selector "@ + debug_quoted(expr) + ": "@ + p),
        },
    }
}

/// What selecting in XML bytes under a declared version comes to.
pub open spec fn bytes_selection(
    body: Seq<u8>,
    expr: Seq<char>,
    version: Option<Seq<char>>,
) -> Result<SelectionView, Seq<char>> {
    match version_rejection(version) {
        Some(m) => Err(m),
        None => if valid_utf8(body) {
            text_selection(decode_utf8(body), expr)
        } else {
            Err("XML is not UTF-8: "@ + utf8_problem(body))
        },
    }
}

/// Evaluates an expression over an XML text, prefixes bound by its document
/// element.
pub fn select_in_text(xml: &str, expr: &str) -> (r: Result<XPathSelection, String>)
    ensures
        selected_view(r) == text_selection(xml@, expr@),
{
    let doc = match open_document(xml) {
        Ok(d) => d,
        Err(e) => {
            return Err(concat2("invalid XML: ", e.as_str()));
        },
    };
    let namespaces = bound_namespaces(root_namespaces(&doc));
    match answer(&doc, &namespaces, expr) {
        Ok(a) => Ok(normalize(&doc, a)),
        Err(e) => {
            let quoted = debug_quote(expr);
            Err(concat4("invalid XPath selector ", quoted.as_str(), ": ", e.as_str()))
        },
    }
}

/// Evaluates an expression over XML bytes under a declared version. A version
/// that is refused is refused before anything is read.
pub fn select_xpath(body: &[u8], expr: &str, version: Option<&str>) -> (r: Result<
    XPathSelection,
    String,
>)
    ensures
        selected_view(r) == bytes_selection(body@, expr@, opt_text(version)),
{
    match xpath_version_rejection(version) {
        Some(m) => {
            return Err(m);
        },
        None => {},
    }
    match utf8_text(body) {
        Ok(text) => {
            let r = select_in_text(text.as_str(), expr);
            proof {
                encode_utf8_valid_utf8(text@);
                encode_utf8_decode_utf8(text@);
            }
            r
        },
        Err(e) => Err(concat2("XML is not UTF-8: ", e.as_str())),
    }
}

/// The value that a bare XPath expression selects; `null` where it fails.
pub open spec fn extracted(body: Seq<u8>, expr: Seq<char>) -> JsonView {
    match bytes_selection(body, expr, Some("xpath-10"@)) {
        Ok(s) => match s.value {
            Ok(v) => v,
            Err(_) => JsonView::Null,
        },
        Err(_) => JsonView::Null,
    }
}

/// The value of an XPath 1.0 selection; `null` where there is none.
pub fn extract_xpath(body: &[u8], expr: &str) -> (r: Json)
    ensures
        r@ == extracted(body@, expr@),
{
    broadcast use view_by_variant;

    match select_xpath(body, expr, Some("xpath-10")) {
        Ok(selection) => match selection.value {
            Ok(v) => v,
            Err(_) => Json::Null,
        },
        Err(_) => Json::Null,
    }
}

// ---------------------------------------------------------------------
// Replacing
// ---------------------------------------------------------------------

/// The children of a node, in order.
pub uninterp spec fn children_of(h: XmlHistory, node: usize) -> Seq<usize>;

/// `uppsala::Document::children`: the children of the node, in order.
#[verifier::external_body]
fn children(doc: &uppsala::Document<'static>, node: usize) -> (r: Vec<usize>)
    ensures
        r@ == children_of(document_history(*doc), node),
{
    doc.children(uppsala::NodeId::new(node)).iter().map(|c| c.index()).collect()
}

/// `uppsala::Document::remove_child`: takes the child out of its parent. The
/// nodes themselves stay, each of its kind.
#[verifier::external_body]
fn remove_child(doc: &mut uppsala::Document<'static>, parent: usize, child: usize)
    ensures
        document_history(*final(doc)) == edited(
            document_history(*old(doc)),
            XmlEdit::ChildRemoved { parent, child },
        ),
        forall|n: usize|
            #![trigger node_of(document_history(*final(doc)), n)]
            node_of(document_history(*final(doc)), n) == node_of(
                document_history(*old(doc)),
                n,
            ),
{
    doc.remove_child(uppsala::NodeId::new(parent), uppsala::NodeId::new(child));
}

/// `uppsala::Document::append_child` of a new text node: the text stands
/// behind the other children of its parent, which has to be there.
#[verifier::external_body]
fn append_text(doc: &mut uppsala::Document<'static>, parent: usize, text: &str)
    requires
        node_of(document_history(*old(doc)), parent) == NodeView::Element,
    ensures
        document_history(*final(doc)) == edited(
            document_history(*old(doc)),
            XmlEdit::TextAppended { parent, text: text@ },
        ),
{
    let node = doc.create_text(text.to_owned());
    doc.append_child(uppsala::NodeId::new(parent), node);
}

/// What the parent of a node is.
#[derive(Debug, Clone, Copy, PartialEq, Eq, Structural)]
pub enum ParentShape {
    Element,
    NotAnElement,
    Missing,
}

/// What the parent of a node is.
pub uninterp spec fn parent_shape_of(h: XmlHistory, node: usize) -> ParentShape;

/// `uppsala::Document::parent`: whether there is one, and whether it is an
/// element.
#[verifier::external_body]
fn parent_shape(doc: &uppsala::Document<'static>, node: usize) -> (r: ParentShape)
    ensures
        r == parent_shape_of(document_history(*doc), node),
{
    match doc.parent(uppsala::NodeId::new(node)).map(|p| doc.element(p).is_some()) {
        Some(true) => ParentShape::Element,
        Some(false) => ParentShape::NotAnElement,
        None => ParentShape::Missing,
    }
}

/// `uppsala::Element::set_attribute` on the parent of an attribute node, under
/// the name of the node.
#[verifier::external_body]
fn set_attribute(doc: &mut uppsala::Document<'static>, node: usize, text: &str)
    ensures
        document_history(*final(doc)) == edited(
            document_history(*old(doc)),
            XmlEdit::AttributeSet { node, text: text@ },
        ),
{
    let id = uppsala::NodeId::new(node);
    if let Some(uppsala::NodeKind::Attribute(name, _)) = doc.node_kind(id).cloned() {
        if let Some(element) = doc.parent(id).and_then(|p| doc.element_mut(p)) {
            element.set_attribute(name, text.to_owned().into());
        }
    }
}

/// `uppsala::Document::node_kind_mut`: sets the text of a text node or of a
/// CDATA section.
#[verifier::external_body]
fn set_text(doc: &mut uppsala::Document<'static>, node: usize, text: &str)
    ensures
        document_history(*final(doc)) == edited(
            document_history(*old(doc)),
            XmlEdit::TextSet { node, text: text@ },
        ),
{
    match doc.node_kind_mut(uppsala::NodeId::new(node)) {
        Some(uppsala::NodeKind::Text(t)) => *t = text.to_owned().into(),
        Some(uppsala::NodeKind::CData(t)) => *t = text.to_owned().into(),
        _ => {},
    }
}

/// The text of a document.
pub uninterp spec fn document_text(h: XmlHistory) -> Seq<char>;

/// `uppsala::Document::to_xml`: the text of the document.
#[verifier::external_body]
fn to_xml(doc: &uppsala::Document<'static>) -> (r: String)
    ensures
        r@ == document_text(document_history(*doc)),
{
    doc.to_xml()
}

/// A document with children of a node taken out, one after the other.
pub open spec fn children_removed(h: XmlHistory, parent: usize, gone: Seq<usize>) -> XmlHistory
    decreases gone.len(),
{
    if gone.len() == 0 {
        h
    } else {
        edited(
            children_removed(h, parent, gone.drop_last()),
            XmlEdit::ChildRemoved { parent, child: gone.last() },
        )
    }
}

/// A document with one node replaced: an element gets the text as its only
/// child, an attribute, a text and a CDATA section get it as their value, and
/// no other node can be replaced.
pub open spec fn node_replaced(h: XmlHistory, node: usize, text: Seq<char>) -> Result<
    XmlHistory,
    Seq<char>,
> {
    match node_of(h, node) {
        NodeView::Missing => Err("xpath target node no longer exists"@),
        NodeView::Element => Ok(
            edited(
                children_removed(h, node, children_of(h, node)),
                XmlEdit::TextAppended { parent: node, text },
            ),
        ),
        NodeView::Attribute(_) => match parent_shape_of(h, node) {
            ParentShape::Missing => Err("xpath attribute target has no parent element"@),
            ParentShape::NotAnElement => Err("xpath attribute parent is not an element"@),
            ParentShape::Element => Ok(edited(h, XmlEdit::AttributeSet { node, text })),
        },
        NodeView::Text => Ok(edited(h, XmlEdit::TextSet { node, text })),
        NodeView::CData => Ok(edited(h, XmlEdit::TextSet { node, text })),
        NodeView::Other => Err("xpath target node kind is not replaceable"@),
    }
}

/// A document with nodes replaced in turn; the first that cannot be replaced
/// stops it.
pub open spec fn nodes_replaced(h: XmlHistory, nodes: Seq<usize>, text: Seq<char>) -> Result<
    XmlHistory,
    Seq<char>,
>
    decreases nodes.len(),
{
    if nodes.len() == 0 {
        Ok(h)
    } else {
        match nodes_replaced(h, nodes.drop_last(), text) {
            Ok(before) => node_replaced(before, nodes.last(), text),
            Err(e) => Err(e),
        }
    }
}

/// What replacing in an XML text comes to.
pub open spec fn xml_replaced(
    xml: Seq<char>,
    target: Seq<char>,
    version: Option<Seq<char>>,
    text: Seq<char>,
) -> Result<Seq<char>, Seq<char>> {
    match version_rejection(version) {
        Some(m) => Err(m),
        None => match document_problem(xml) {
            Some(p) => Err("invalid XML: "@ + p),
            None => match document_answer(xml, target) {
                Err(p) => Err("invalid XPath target: "@ + p),
                Ok(AnswerView::Nodes(nodes)) => if nodes.len() == 0 {
                    Err("xpath target matched no nodes"@)
                } else {
                    match nodes_replaced(unedited(xml), nodes, text) {
                        Ok(h) => Ok(document_text(h)),
                        Err(e) => Err(e),
                    }
                },
                Ok(_) => Err("xpath did not resolve to a node set"@),
            },
        },
    }
}

fn replace_node(doc: &mut uppsala::Document<'static>, node: usize, text: &str) -> (r: Result<
    (),
    String,
>)
    ensures
        match r {
            Ok(_) => node_replaced(document_history(*old(doc)), node, text@) == Ok::<
                XmlHistory,
                Seq<char>,
            >(document_history(*final(doc))),
            Err(e) => node_replaced(document_history(*old(doc)), node, text@) == Err::<
                XmlHistory,
                Seq<char>,
            >(e@),
        },
{
    match open_node(doc, node) {
        XmlNode::Missing => Err("xpath target node no longer exists".to_owned()),
        XmlNode::Element => {
            let gone = children(doc, node);
            let ghost h = document_history(*doc);
            let mut i: usize = 0;
            assert(gone@.take(0) =~= Seq::<usize>::empty());
            while i < gone.len()
                invariant
                    i <= gone@.len(),
                    document_history(*doc) == children_removed(h, node, gone@.take(i as int)),
                    node_of(document_history(*doc), node) == NodeView::Element,
                decreases gone@.len() - i,
            {
                assert(gone@.take(i + 1).drop_last() =~= gone@.take(i as int));
                remove_child(doc, node, gone[i]);
                i = i + 1;
            }
            assert(gone@.take(i as int) =~= gone@);
            append_text(doc, node, text);
            Ok(())
        },
        XmlNode::Attribute(_) => match parent_shape(doc, node) {
            ParentShape::Missing => Err("xpath attribute target has no parent element".to_owned()),
            ParentShape::NotAnElement => Err("xpath attribute parent is not an element".to_owned()),
            ParentShape::Element => {
                set_attribute(doc, node, text);
                Ok(())
            },
        },
        XmlNode::Text => {
            set_text(doc, node, text);
            Ok(())
        },
        XmlNode::CData => {
            set_text(doc, node, text);
            Ok(())
        },
        XmlNode::Other => Err("xpath target node kind is not replaceable".to_owned()),
    }
}

/// Replaces the nodes that an expression selects in an XML text.
pub fn replace_xpath(xml: &str, target: &str, version: Option<&str>, replacement_text: &str) -> (r:
    Result<String, String>)
    ensures
        match r {
            Ok(text) => xml_replaced(xml@, target@, opt_text(version), replacement_text@) == Ok::<
                Seq<char>,
                Seq<char>,
            >(text@),
            Err(e) => xml_replaced(xml@, target@, opt_text(version), replacement_text@) == Err::<
                Seq<char>,
                Seq<char>,
            >(e@),
        },
{
    match xpath_version_rejection(version) {
        Some(m) => {
            return Err(m);
        },
        None => {},
    }
    let mut doc = match open_document(xml) {
        Ok(d) => d,
        Err(e) => {
            return Err(concat2("invalid XML: ", e.as_str()));
        },
    };
    let namespaces = bound_namespaces(root_namespaces(&doc));
    let nodes = match answer(&doc, &namespaces, target) {
        Ok(XPathAnswer::Nodes(nodes)) => nodes,
        Ok(_) => {
            return Err("xpath did not resolve to a node set".to_owned());
        },
        Err(e) => {
            return Err(concat2("invalid XPath target: ", e.as_str()));
        },
    };
    if nodes.len() == 0 {
        return Err("xpath target matched no nodes".to_owned());
    }
    let ghost h = unedited(xml@);
    let mut i: usize = 0;
    assert(nodes@.take(0) =~= Seq::<usize>::empty());
    while i < nodes.len()
        invariant
            i <= nodes@.len(),
            nodes@.len() > 0,
            h == unedited(xml@),
            version_rejection(opt_text(version)) is None,
            document_problem(xml@) is None,
            document_answer(xml@, target@) == Ok::<AnswerView, Seq<char>>(AnswerView::Nodes(nodes@)),
            nodes_replaced(h, nodes@.take(i as int), replacement_text@) == Ok::<
                XmlHistory,
                Seq<char>,
            >(document_history(doc)),
        decreases nodes@.len() - i,
    {
        assert(nodes@.take(i + 1).drop_last() =~= nodes@.take(i as int));
        match replace_node(&mut doc, nodes[i], replacement_text) {
            Ok(_) => {},
            Err(e) => {
                proof {
                    stopped_early(h, nodes@, i + 1, replacement_text@);
                }
                return Err(e);
            },
        }
        i = i + 1;
    }
    assert(nodes@.take(i as int) =~= nodes@);
    Ok(to_xml(&doc))
}

/// Replacing stops at the first node that cannot be replaced.
proof fn stopped_early(h: XmlHistory, nodes: Seq<usize>, n: int, text: Seq<char>)
    requires
        0 <= n <= nodes.len(),
        nodes_replaced(h, nodes.take(n), text) is Err,
    ensures
        nodes_replaced(h, nodes, text) == nodes_replaced(h, nodes.take(n), text),
    decreases nodes.len(),
{
    if n == nodes.len() {
        assert(nodes.take(n) =~= nodes);
    } else {
        assert(nodes.drop_last().take(n) =~= nodes.take(n));
        stopped_early(h, nodes.drop_last(), n, text);
    }
}

} // verus!
