//! What holds of JSON Pointers, of replacements in a body, and of selectors.

use crate::action_laws::decimal_reads_back;
use crate::criterion_laws::trimming_takes_white_space;
use crate::json::JsonView;
use crate::json_pointer::{
    all_digits, array_index, digits_value, escaped, member_at, member_from, member_place, member_set, member_value, pointer_replaced, pointer_value,
    read_index, reference_tokens, set_keeps_others, set_then_read, unescape_undoes_escape,
    unsigned_digits, value_at,
};
use crate::model::{Replacement, SelectorObject, SelectorType};
use crate::payload::{
    answers_query, inferred_kind, query_from, replacement_applied, replacements_applied, resolved,
    selector_resolved, Answers, QueryAnswer, ResolutionView, TargetKind,
};
use crate::text::{
    decimal, first_of, first_of_is_least, is_digit, is_space, lower_text, occurs_in, split_on,
};
use crate::json_text::plain_text;
use crate::text::text_before;
use crate::text_map::{text_before_total, text_before_transitive};
use crate::xpath::{text_selection, xml_replaced};
use vstd::prelude::*;
use vstd::string::*;

verus! {

// ---------------------------------------------------------------------
// Pointers
// ---------------------------------------------------------------------

proof fn escaped_has_no_slash(name: Seq<char>, i: int)
    requires
        0 <= i < escaped(name).len(),
    ensures
        escaped(name)[i] != '/',
    decreases name.len(),
{
    let rest = escaped(name.skip(1));
    if name[0] == '~' || name[0] == '/' {
        if i >= 2 {
            escaped_has_no_slash(name.skip(1), i - 2);
            assert(escaped(name)[i] == rest[i - 2]);
        }
    } else if i >= 1 {
        escaped_has_no_slash(name.skip(1), i - 1);
        assert(escaped(name)[i] == rest[i - 1]);
    }
}

/// Whether a text may follow a step of a pointer: nothing, or another step.
pub open spec fn goes_on(rest: Seq<char>) -> bool {
    rest.len() == 0 || rest[0] == '/'
}

proof fn tokens_come_apart(name: Seq<char>, rest: Seq<char>)
    requires
        goes_on(rest),
    ensures
        ({
            let p = "/"@ + escaped(name) + rest;
            &&& p.len() > 0
            &&& p[0] == '/'
            &&& reference_tokens(p) == (if rest.len() == 0 {
                seq![name]
            } else {
                seq![name] + reference_tokens(rest)
            })
        }),
{
    reveal_strlit("/");
    let e = escaped(name);
    let p = "/"@ + e + rest;
    let s = p.skip(1);
    assert(s =~= e + rest);
    unescape_undoes_escape(name);
    first_of_is_least(s, 0, seq!['/']);
    let f = first_of(s, 0, seq!['/']);
    if f < e.len() {
        escaped_has_no_slash(name, f);
        assert(seq!['/'].contains(s[f]));
        assert(s[f] == e[f]);
    }
    if rest.len() == 0 {
        assert(f == s.len());
        assert(s =~= e);
        assert(reference_tokens(p) =~= seq![name]);
    } else {
        assert(s[e.len() as int] == '/');
        assert(seq!['/'][0] == '/');
        if f > e.len() {
            assert(!seq!['/'].contains(s[e.len() as int]));
        }
        assert(s.take(f) =~= e);
        assert(s.skip(f + 1) =~= rest.skip(1));
        assert(split_on(s, '/') == seq![e] + split_on(rest.skip(1), '/'));
        assert(reference_tokens(p) =~= seq![name] + reference_tokens(rest));
    }
}

proof fn index_comes_back(i: nat)
    requires
        i <= usize::MAX,
    ensures
        read_index(decimal(i)) == Some(i),
        array_index(decimal(i)) == Ok::<nat, Seq<char>>(i),
{
    decimal_reads_back(i);
    let d = decimal(i);
    reveal_strlit("-");
    assert(is_digit(d[0]));
    assert(unsigned_digits(d) == d);
    assert("-"@[0] == '-');
    assert(d != "-"@);
    no_leading_zero(i);
}

proof fn no_leading_zero(i: nat)
    ensures
        decimal(i).len() == 1 || decimal(i)[0] != '0',
        decimal(i).len() > 0,
        i > 0 ==> decimal(i)[0] != '0',
    decreases i,
{
    if i < 10 {
        let c: u32 = (48 + i) as u32;
        assert((c as char) as u32 == c);
    } else {
        no_leading_zero(i / 10);
        assert(decimal(i)[0] == decimal(i / 10)[0]);
    }
}

/// A pointer is read step by step: a name leads to the member of an object, a
/// number to the item of a list, nothing to the value itself, and anything
/// else nowhere.
pub proof fn pointers_lead_step_by_step(root: JsonView, name: Seq<char>, i: nat, rest: Seq<char>)
    requires
        goes_on(rest),
        i <= usize::MAX,
    ensures
        pointer_value(root, Seq::empty()) == Some(root),
        root matches JsonView::Object(members) ==> pointer_value(root, "/"@ + escaped(name) + rest)
            == (match member_value(members, name) {
            Some(v) => pointer_value(v, rest),
            None => None,
        }),
        root matches JsonView::Array(items) ==> pointer_value(
            root,
            "/"@ + escaped(decimal(i)) + rest,
        ) == (if i < items.len() {
            pointer_value(items[i as int], rest)
        } else {
            None
        }),
        !(root is Object) && !(root is Array) ==> pointer_value(root, "/"@ + escaped(name) + rest)
            is None,
{
    tokens_come_apart(name, rest);
    tokens_come_apart(decimal(i), rest);
    index_comes_back(i);
    let t = reference_tokens("/"@ + escaped(name) + rest);
    let u = reference_tokens("/"@ + escaped(decimal(i)) + rest);
    reveal_with_fuel(value_at, 2);
    if rest.len() == 0 {
        assert(t.skip(1) =~= Seq::<Seq<char>>::empty());
        assert(u.skip(1) =~= Seq::<Seq<char>>::empty());
        assert(rest =~= Seq::<char>::empty());
    } else {
        assert(t.skip(1) =~= reference_tokens(rest));
        assert(u.skip(1) =~= reference_tokens(rest));
    }
}

proof fn first_member(members: Seq<(Seq<char>, JsonView)>, from: int, name: Seq<char>)
    requires
        0 <= from <= members.len(),
    ensures
        from <= member_from(members, from, name) <= members.len(),
        member_from(members, from, name) < members.len() ==> members[member_from(
            members,
            from,
            name,
        )].0 == name,
        forall|j: int|
            from <= j < member_from(members, from, name) ==> (#[trigger] members[j]).0 != name,
    decreases members.len() - from,
{
    if from < members.len() && members[from].0 != name {
        first_member(members, from + 1, name);
    }
}

proof fn update_keeps_place(
    members: Seq<(Seq<char>, JsonView)>,
    at: int,
    v: JsonView,
    from: int,
    name: Seq<char>,
)
    requires
        0 <= at < members.len(),
        0 <= from <= members.len(),
    ensures
        member_from(members.update(at, (members[at].0, v)), from, name) == member_from(
            members,
            from,
            name,
        ),
    decreases members.len() - from,
{
    let after = members.update(at, (members[at].0, v));
    if from < members.len() {
        assert(after[from].0 == members[from].0);
        if members[from].0 != name {
            update_keeps_place(members, at, v, from + 1, name);
        }
    }
}

/// A replacement changes what its pointer leads to and nothing else: in an
/// object the member of the name, which is added where it is missing, and in a
/// list the item of the number, which has to be there.
pub proof fn replacements_change_one_place(
    root: JsonView,
    name: Seq<char>,
    other: Seq<char>,
    i: nat,
    j: int,
    value: JsonView,
)
    requires
        other != name,
        i <= usize::MAX,
    ensures
        root matches JsonView::Object(members) ==> (pointer_replaced(
            root,
            "/"@ + escaped(name),
            value,
        ) matches Ok(JsonView::Object(after)) && member_value(after, name) == Some(value)
            && member_value(after, other) == member_value(members, other)),
        root matches JsonView::Array(items) ==> {
            &&& i < items.len() ==> (pointer_replaced(
                root,
                "/"@ + escaped(decimal(i)),
                value,
            ) matches Ok(JsonView::Array(after)) && after.len() == items.len() && after[i as int]
                == value && (0 <= j < items.len() && j != i ==> after[j] == items[j]))
            &&& i >= items.len() ==> pointer_replaced(root, "/"@ + escaped(decimal(i)), value)
                is Err
        },
        !(root is Object) && !(root is Array) ==> pointer_replaced(
            root,
            "/"@ + escaped(name),
            value,
        ) is Err,
{
    let none = Seq::<char>::empty();
    tokens_come_apart(name, none);
    tokens_come_apart(decimal(i), none);
    index_comes_back(i);
    assert("/"@ + escaped(name) + none =~= "/"@ + escaped(name));
    assert("/"@ + escaped(decimal(i)) + none =~= "/"@ + escaped(decimal(i)));
    let t = reference_tokens("/"@ + escaped(name));
    let u = reference_tokens("/"@ + escaped(decimal(i)));
    assert(t.skip(1).len() == 0);
    assert(u.skip(1).len() == 0);
    if let JsonView::Object(members) = root {
        set_then_read(members, name, value);
        set_keeps_others(members, name, value, other);
    }
}

/// A longer pointer replaces inside what its first step leads to, and leaves
/// the rest alone; where the first step leads nowhere there is nothing to
/// replace.
pub proof fn replacements_go_deeper(
    root: JsonView,
    name: Seq<char>,
    other: Seq<char>,
    rest: Seq<char>,
    value: JsonView,
)
    requires
        goes_on(rest),
        rest.len() > 0,
        root is Object,
        other != name,
    ensures
        ({
            let members = root->Object_0;
            let r = pointer_replaced(root, "/"@ + escaped(name) + rest, value);
            match member_value(members, name) {
                None => r is Err,
                Some(v) => match pointer_replaced(v, rest, value) {
                    Err(_) => r is Err,
                    Ok(w) => r matches Ok(JsonView::Object(after)) && member_value(after, name)
                        == Some(w) && member_value(after, other) == member_value(members, other),
                },
            }
        }),
{
    tokens_come_apart(name, rest);
    let members = root->Object_0;
    let t = reference_tokens("/"@ + escaped(name) + rest);
    assert(t[0] == name);
    assert(t.skip(1) =~= reference_tokens(rest));
    let at = member_at(members, name);
    first_member(members, 0, name);
    tokens_are_some(rest);
    if at < members.len() {
        if let Ok(w) = pointer_replaced(members[at].1, rest, value) {
            update_keeps_place(members, at, w, 0, name);
            update_keeps_place(members, at, w, 0, other);
            first_member(members, 0, other);
        }
    }
}

proof fn tokens_are_some(p: Seq<char>)
    requires
        p.len() > 0,
    ensures
        reference_tokens(p).len() > 0,
{
    let s = p.skip(1);
    first_of_is_least(s, 0, seq!['/']);
}

// ---------------------------------------------------------------------
// Replacements in a body
// ---------------------------------------------------------------------

/// Whether a replacement goes by a JSON Pointer: it says so, or it says nothing
/// and the body is JSON by its media type.
pub open spec fn goes_by_pointer(r: Replacement, content_type: Seq<char>) -> bool {
    match r.target_selector_type {
        Some(SelectorType::Name(n)) => n@ == "jsonpointer"@,
        Some(SelectorType::ExpressionType { type_, version }) => type_@ == "jsonpointer"@
            && version@.len() == 0,
        None => occurs_in(lower_text(content_type), "json"@),
    }
}

/// Replacements are made in order, each in the body that those before it left:
/// one that goes by a pointer puts what its value came to where the pointer
/// leads, and where it leads nowhere the body stays and a warning says so.
pub proof fn replacements_are_made_in_order(
    body: JsonView,
    content_type: Seq<char>,
    list: Seq<Replacement>,
    a: Answers,
    located: Seq<Result<Vec<String>, String>>,
    n: nat,
)
    requires
        0 < n <= list.len(),
        goes_by_pointer(list[n - 1], content_type),
        list[n - 1].target@.len() > 0,
        list[n - 1].target@[0] == '/',
        !is_space(list[n - 1].target@.last()),
        !resolved(list[n - 1].value, a).jsonpath_failed,
    ensures
        ({
            let before = replacements_applied(body, content_type, list, a, located, (n - 1) as nat);
            let after = replacements_applied(body, content_type, list, a, located, n);
            match pointer_replaced(
                before.body,
                list[n - 1].target@,
                resolved(list[n - 1].value, a).value,
            ) {
                Ok(v) => after.body == v,
                Err(_) => after.body == before.body && after.warnings.len()
                    > before.warnings.len(),
            }
        }),
        replacements_applied(body, content_type, list, a, located, 0).body == body,
{
    let t = list[n - 1].target@;
    assert(!is_space('/'));
    assert(t.take(0) =~= Seq::<char>::empty());
    assert(t.skip(t.len() as int) =~= Seq::<char>::empty());
    trimming_takes_white_space(t, 0, t.len() as int);
    assert(t.subrange(0, t.len() as int) =~= t);
}

// ---------------------------------------------------------------------
// Selectors
// ---------------------------------------------------------------------

/// Whether a selector is of a type by this name, without a version.
pub open spec fn selects_by(s: SelectorObject, name: Seq<char>) -> bool {
    match s.type_ {
        SelectorType::Name(n) => n@ == name,
        SelectorType::ExpressionType { type_, version } => type_@ == name && version@.len() == 0,
    }
}

/// Whether the context of a selector came to a value, without a warning.
pub open spec fn context_is(s: SelectorObject, a: Answers, context: JsonView) -> bool {
    a.contexts@.contains_key(s.context@) && a.contexts@[s.context@].value@ == context
        && a.contexts@[s.context@].warnings@.len() == 0
}

/// A JSON Pointer selects what it leads to in its context; where it leads
/// nowhere it selects `null`, and a warning says so.
pub proof fn a_pointer_selects_what_it_leads_to(s: SelectorObject, a: Answers, context: JsonView)
    requires
        selects_by(s, "jsonpointer"@),
        context_is(s, a, context),
        s.selector@.len() == 0 || s.selector@[0] == '/',
    ensures
        pointer_value(context, s.selector@) matches Some(v) ==> selector_resolved(s, a).value == v
            && selector_resolved(s, a).warnings.len() == 0,
        pointer_value(context, s.selector@) is None ==> selector_resolved(s, a).value is Null
            && selector_resolved(s, a).warnings.len() == 1,
        !selector_resolved(s, a).jsonpath_failed,
{
    reveal_strlit("jsonpointer");
    reveal_strlit("jsonpath");
    assert("jsonpointer"@.len() == 11);
    assert("jsonpath"@.len() == 8);
    assert(crate::payload::warning_views(a.contexts@[s.context@].warnings@).len() == 0);
}

/// Whether a query is the one that a selector without a version asks: of its
/// context, with its selector, and without a version.
pub open spec fn asks_the_same(q: QueryAnswer, s: SelectorObject) -> bool {
    q.context@ == s.context@ && q.selector@ == s.selector@ && match s.type_ {
        SelectorType::Name(_) => q.version is None,
        SelectorType::ExpressionType { type_, version } => if version@.len() == 0 {
            q.version is None
        } else {
            q.version is Some && q.version->0@ == version@
        },
    }
}

proof fn query_is_found(a: Answers, s: SelectorObject, i: int, from: int)
    requires
        0 <= from <= i < a.queries@.len(),
        answers_query(a.queries@[i], s),
        forall|j: int| 0 <= j < i ==> !answers_query(#[trigger] a.queries@[j], s),
    ensures
        query_from(a.queries@, s, from) == i,
    decreases i - from,
{
    if from < i {
        assert(!answers_query(a.queries@[from], s));
        query_is_found(a, s, i, from + 1);
    }
}

/// A JSONPath selects what its query came to; a query that failed or was not
/// admitted selects `null`, and a warning says why.
pub proof fn a_query_selects_what_it_came_to(s: SelectorObject, a: Answers, context: JsonView, i: int)
    requires
        selects_by(s, "jsonpath"@),
        context_is(s, a, context),
        0 <= i < a.queries@.len(),
        asks_the_same(a.queries@[i], s),
        forall|j: int| 0 <= j < i ==> !asks_the_same(#[trigger] a.queries@[j], s),
    ensures
        a.queries@[i].admitted is Ok ==> (a.queries@[i].selected matches Ok(v) ==> selector_resolved(
            s,
            a,
        ).value == v.0@ && (selector_resolved(s, a).warnings.len() == 0) == (v.1 > 0)),
        a.queries@[i].admitted is Ok && a.queries@[i].selected is Err ==> selector_resolved(s, a).value
            is Null && selector_resolved(s, a).jsonpath_failed && selector_resolved(
            s,
            a,
        ).warnings.len() == 1,
        a.queries@[i].admitted is Err ==> selector_resolved(s, a).value is Null && selector_resolved(
            s,
            a,
        ).jsonpath_failed,
{
    assert forall|q: QueryAnswer| #[trigger] answers_query(q, s) == asks_the_same(q, s) by {}
    assert forall|j: int| 0 <= j < i implies !answers_query(#[trigger] a.queries@[j], s) by {
        assert(!asks_the_same(a.queries@[j], s));
    }
    query_is_found(a, s, i, 0);
    assert(crate::payload::warning_views(a.contexts@[s.context@].warnings@).len() == 0);
}

/// An XPath selects in the text of its context, under the version that it
/// declares; a context that is no text has nothing to select in.
pub proof fn an_xpath_selects_in_a_text(s: SelectorObject, a: Answers, context: JsonView)
    requires
        s.type_ matches SelectorType::ExpressionType { type_, version } && type_@ == "xpath"@
            && version@ == "xpath-10"@,
        context_is(s, a, context),
    ensures
        context matches JsonView::Text(xml) ==> (text_selection(xml, s.selector@) matches Ok(x) ==> (
        x.value matches Ok(v) ==> selector_resolved(s, a).value == v)),
        context matches JsonView::Text(xml) ==> (text_selection(xml, s.selector@) is Err
            ==> selector_resolved(s, a).value is Null && selector_resolved(s, a).warnings.len()
            == 1),
        !(context is Text) ==> selector_resolved(s, a).value is Null && selector_resolved(
            s,
            a,
        ).warnings.len() == 1,
{
    reveal_strlit("xpath");
    reveal_strlit("jsonpath");
    reveal_strlit("jsonpointer");
    reveal_strlit("xpath-10");
    assert("xpath"@.len() == 5);
    assert("jsonpath"@.len() == 8);
    assert("jsonpointer"@.len() == 11);
    assert("xpath-10"@.len() == 8);
    assert(crate::payload::warning_views(a.contexts@[s.context@].warnings@).len() == 0);
}

/// How a replacement finds its place where it does not say: by a pointer in
/// JSON, by an XPath in XML and in any other text.
pub proof fn media_types_decide_on_the_target(body: JsonView, content_type: Seq<char>)
    ensures
        occurs_in(lower_text(content_type), "json"@) ==> inferred_kind(body, content_type)
            == TargetKind::JsonPointer,
        !occurs_in(lower_text(content_type), "json"@) && (occurs_in(
            lower_text(content_type),
            "xml"@,
        ) || body is Text) ==> inferred_kind(body, content_type) == TargetKind::XPath,
        !occurs_in(lower_text(content_type), "json"@) && !occurs_in(
            lower_text(content_type),
            "xml"@,
        ) && !(body is Text) ==> inferred_kind(body, content_type) == TargetKind::JsonPointer,
{
}

/// A replacement that goes by a JSONPath changes the one place that the path
/// leads to, and one that goes by an XPath the selected nodes of a text.
pub proof fn replacements_go_by_their_target(
    body: JsonView,
    content_type: Seq<char>,
    index: nat,
    r: Replacement,
    value: ResolutionView,
    place: Seq<char>,
)
    requires
        r.target@.len() > 0,
        !is_space(r.target@[0]),
        !is_space(r.target@.last()),
        !value.jsonpath_failed,
    ensures
        (r.target_selector_type matches Some(SelectorType::Name(n)) && n@ == "jsonpath"@)
            && place.len() > 0 ==> (pointer_replaced(body, place, value.value) matches Ok(after)
            ==> replacement_applied(
            body,
            content_type,
            index,
            r,
            value,
            Ok::<Seq<Seq<char>>, Seq<char>>(seq![place]),
        ).body == after),
        (r.target_selector_type matches Some(SelectorType::ExpressionType { type_, version }) && type_@
            == "xpath"@ && version@ == "xpath-10"@) ==> (body matches JsonView::Text(xml) ==> (
        xml_replaced(xml, r.target@, Some("xpath-10"@), plain_text(value.value)) matches Ok(after)
            ==> replacement_applied(
            body,
            content_type,
            index,
            r,
            value,
            Ok::<Seq<Seq<char>>, Seq<char>>(seq![place]),
        ).body == JsonView::Text(after))),
        (r.target_selector_type matches Some(SelectorType::Name(n)) && n@ != "jsonpath"@ && n@
            != "jsonpointer"@ && n@ != "xpath"@) ==> replacement_applied(
            body,
            content_type,
            index,
            r,
            value,
            Ok::<Seq<Seq<char>>, Seq<char>>(seq![place]),
        ).body == body,
{
    let t = r.target@;
    assert(t.take(0) =~= Seq::<char>::empty());
    assert(t.skip(t.len() as int) =~= Seq::<char>::empty());
    trimming_takes_white_space(t, 0, t.len() as int);
    assert(t.subrange(0, t.len() as int) =~= t);
    reveal_strlit("xpath");
    reveal_strlit("jsonpath");
    reveal_strlit("jsonpointer");
    reveal_strlit("xpath-10");
    assert("xpath"@.len() == 5);
    assert("jsonpath"@.len() == 8);
    assert("jsonpointer"@.len() == 11);
    assert("xpath-10"@.len() == 8);
}

/// A selector whose context came with a warning selects nothing, and passes the
/// warning on; one of an unknown type selects nothing either, and says so.
pub proof fn selectors_report_what_is_wrong(s: SelectorObject, a: Answers)
    requires
        a.contexts@.contains_key(s.context@),
        !selects_by(s, "jsonpath"@),
        !(s.type_ matches SelectorType::ExpressionType { type_, version } && type_@
            == "jsonpath"@),
    ensures
        a.contexts@[s.context@].warnings@.len() > 0 ==> selector_resolved(s, a).value is Null
            && selector_resolved(s, a).warnings == crate::payload::warning_views(
            a.contexts@[s.context@].warnings@,
        ),
        (s.type_ matches SelectorType::Name(n) && n@ != "jsonpointer"@ && n@ != "xpath"@)
            && a.contexts@[s.context@].warnings@.len() == 0 ==> selector_resolved(s, a).value is Null
            && selector_resolved(s, a).warnings.len() == 1,
{
    assert(crate::payload::warning_views(a.contexts@[s.context@].warnings@).len()
        == a.contexts@[s.context@].warnings@.len());
}

proof fn plain_digits_are_decimal(t: Seq<char>)
    requires
        all_digits(t),
        t.len() == 1 || t[0] != '0',
    ensures
        t == decimal(digits_value(t)),
        t[0] != '0' ==> digits_value(t) > 0,
    decreases t.len(),
{
    let last = t.last();
    let n = (last as u32 - 48) as nat;
    assert(is_digit(last));
    assert(crate::text::digit_of(n) == last) by {
        let c: u32 = (48 + n) as u32;
        assert(c == last as u32);
    }
    if t.len() == 1 {
        assert(t.drop_last() =~= Seq::<char>::empty());
        reveal_with_fuel(digits_value, 2);
        assert(digits_value(t) == n);
        assert(t =~= decimal(n));
    } else {
        let front = t.drop_last();
        assert forall|i: int| 0 <= i < front.len() implies is_digit(#[trigger] front[i]) by {
            assert(t[i] == front[i]);
        }
        plain_digits_are_decimal(front);
        let d = digits_value(front);
        assert(digits_value(t) == d * 10 + n);
        assert(d > 0);
        assert((d * 10 + n) / 10 == d);
        assert((d * 10 + n) % 10 == n);
        assert(t =~= decimal(digits_value(t)));
    }
}

/// A step into a list is the plain decimal of an index and nothing else: no
/// sign, no leading zero, no text.
pub proof fn only_plain_numbers_lead_into_lists(items: Seq<JsonView>, token: Seq<char>, rest: Seq<char>)
    requires
        goes_on(rest),
        pointer_value(JsonView::Array(items), "/"@ + escaped(token) + rest) is Some,
    ensures
        exists|i: nat| i < items.len() && token == #[trigger] decimal(i),
{
    tokens_come_apart(token, rest);
    let t = reference_tokens("/"@ + escaped(token) + rest);
    assert(t[0] == token);
    let i = read_index(token)->0;
    assert(i < items.len());
    assert(token.len() > 0);
    assert(unsigned_digits(token) == token);
    plain_digits_are_decimal(token);
    assert(token == decimal(i));
}

/// A name stands for the first member that has it, and for none where no member
/// has it.
pub proof fn the_first_member_of_a_name_counts(
    members: Seq<(Seq<char>, JsonView)>,
    name: Seq<char>,
    i: int,
)
    requires
        -1 <= i < members.len(),
        0 <= i ==> members[i].0 == name && forall|j: int|
            0 <= j < i ==> (#[trigger] members[j]).0 != name,
        i == -1 ==> forall|j: int| 0 <= j < members.len() ==> (#[trigger] members[j]).0 != name,
    ensures
        0 <= i ==> member_value(members, name) == Some(members[i].1),
        i == -1 ==> member_value(members, name) is None,
{
    first_member(members, 0, name);
    let at = member_at(members, name);
    if 0 <= i {
        if at < i {
            assert(members[at].0 != name);
        }
        if at > i {
            assert(members[i].0 != name);
        }
    }
}

proof fn place_is_found(members: Seq<(Seq<char>, JsonView)>, from: int, name: Seq<char>)
    requires
        0 <= from <= members.len(),
    ensures
        from <= member_place(members, from, name) <= members.len(),
        forall|j: int|
            from <= j < member_place(members, from, name) ==> !text_before(
                name,
                (#[trigger] members[j]).0,
            ),
        member_place(members, from, name) < members.len() ==> text_before(
            name,
            members[member_place(members, from, name)].0,
        ),
    decreases members.len() - from,
{
    if from < members.len() && !text_before(name, members[from].0) {
        place_is_found(members, from + 1, name);
    }
}

/// A member that is added to an object whose members are in order stands in
/// order too.
pub proof fn added_members_stand_in_order(
    members: Seq<(Seq<char>, JsonView)>,
    name: Seq<char>,
    value: JsonView,
    i: int,
    j: int,
)
    requires
        forall|a: int, b: int|
            0 <= a < b < members.len() ==> text_before(
                (#[trigger] members[a]).0,
                (#[trigger] members[b]).0,
            ),
        0 <= i < j < member_set(members, name, value).len(),
    ensures
        text_before(
            member_set(members, name, value)[i].0,
            member_set(members, name, value)[j].0,
        ),
{
    first_member(members, 0, name);
    place_is_found(members, 0, name);
    let at = member_at(members, name);
    let after = member_set(members, name, value);
    if at < members.len() {
        assert(after[i].0 == members[i].0);
        assert(after[j].0 == members[j].0);
    } else {
        let p = member_place(members, 0, name);
        if i < p && j == p {
            text_before_total(name, members[i].0);
            assert(members[i].0 != name);
        } else if i == p {
            if j > p + 1 {
                assert(text_before(members[p].0, members[j - 1].0));
                text_before_transitive(name, members[p].0, members[j - 1].0);
            }
        } else if i < p && j > p {
            assert(after[j] == members[j - 1]);
            assert(after[i] == members[i]);
        } else if i > p {
            assert(after[i] == members[i - 1]);
            assert(after[j] == members[j - 1]);
        }
    }
}

} // verus!
