//! Reading YAML documents.

use vstd::prelude::*;

verus! {

#[verifier::external_type_specification]
#[verifier::external_body]
pub struct ExYaml(serde_yaml_ng::Value);

/// The content of a YAML value.
#[verifier::ext_equal]
pub enum YamlView {
    Null,
    Bool(bool),
    Number(Seq<char>),
    Text(Seq<char>),
    Sequence(Seq<YamlView>),
    Mapping(Seq<(YamlView, YamlView)>),
    Tagged(Seq<char>, Box<YamlView>),
}

/// The content of a value as `serde_yaml_ng` holds it.
pub uninterp spec fn yaml_content(v: serde_yaml_ng::Value) -> YamlView;

/// The content of the document that some bytes hold, or why they hold none.
pub uninterp spec fn yaml_parsed(bytes: Seq<u8>) -> Result<YamlView, Seq<char>>;

/// A value without its tags.
pub open spec fn untagged(v: YamlView) -> YamlView
    decreases v,
{
    match v {
        YamlView::Tagged(tag, inner) => untagged(*inner),
        _ => v,
    }
}

/// The position of the first pair at or after `from` whose key is a text.
pub open spec fn pair_from(pairs: Seq<(YamlView, YamlView)>, key: Seq<char>, from: int) -> int
    decreases pairs.len() - from,
{
    if from >= pairs.len() {
        pairs.len() as int
    } else if pairs[from].0 == YamlView::Text(key) {
        from
    } else {
        pair_from(pairs, key, from + 1)
    }
}

/// The value that a mapping has under a key.
pub open spec fn member(v: YamlView, key: Seq<char>) -> Option<YamlView> {
    match untagged(v) {
        YamlView::Mapping(pairs) => {
            let i = pair_from(pairs, key, 0);
            if i < pairs.len() {
                Some(pairs[i].1)
            } else {
                None
            }
        },
        _ => None,
    }
}

/// A value as a text.
pub open spec fn text_in(v: YamlView) -> Option<Seq<char>> {
    match untagged(v) {
        YamlView::Text(s) => Some(s),
        _ => None,
    }
}

/// A value as a list.
pub open spec fn items_in(v: YamlView) -> Option<Seq<YamlView>> {
    match untagged(v) {
        YamlView::Sequence(items) => Some(items),
        _ => None,
    }
}

/// A value as a mapping.
pub open spec fn pairs_in(v: YamlView) -> Option<Seq<(YamlView, YamlView)>> {
    match untagged(v) {
        YamlView::Mapping(pairs) => Some(pairs),
        _ => None,
    }
}

/// The text that a member of a mapping holds.
pub open spec fn member_text(v: YamlView, key: Seq<char>) -> Option<Seq<char>> {
    match member(v, key) {
        Some(m) => text_in(m),
        None => None,
    }
}

/// `serde_yaml_ng::from_slice` into a value: the document of the bytes, or why
/// they hold none. What is read of which bytes is left unsaid.
#[verifier::external_body]
pub(crate) fn read_yaml(bytes: &[u8]) -> (r: Result<serde_yaml_ng::Value, String>)
    ensures
        match r {
            Ok(v) => yaml_parsed(bytes@) == Ok::<YamlView, Seq<char>>(yaml_content(v)),
            Err(e) => yaml_parsed(bytes@) == Err::<YamlView, Seq<char>>(e@),
        },
{
    serde_yaml_ng::from_slice::<serde_yaml_ng::Value>(bytes).map_err(|e| e.to_string())
}

/// `serde_yaml_ng::Value::get`: the value of a mapping under a key that is
/// this text, tags around the mapping ignored; nothing for what is no mapping.
#[verifier::external_body]
pub(crate) fn get_member<'a>(v: &'a serde_yaml_ng::Value, key: &str) -> (r: Option<
    &'a serde_yaml_ng::Value,
>)
    ensures
        match r {
            Some(m) => member(yaml_content(*v), key@) == Some(yaml_content(*m)),
            None => member(yaml_content(*v), key@) is None,
        },
{
    v.get(key)
}

/// `serde_yaml_ng::Value::as_str`: the text that the value is, tags ignored.
#[verifier::external_body]
pub(crate) fn as_text(v: &serde_yaml_ng::Value) -> (r: Option<&str>)
    ensures
        match r {
            Some(s) => text_in(yaml_content(*v)) == Some(s@),
            None => text_in(yaml_content(*v)) is None,
        },
{
    v.as_str()
}

/// The contents of a list of values.
pub open spec fn yaml_contents(items: Seq<serde_yaml_ng::Value>) -> Seq<YamlView> {
    items.map_values(|v: serde_yaml_ng::Value| yaml_content(v))
}

/// `serde_yaml_ng::Value::as_sequence`: the items of the list that the value
/// is, tags ignored.
#[verifier::external_body]
pub(crate) fn as_items(v: &serde_yaml_ng::Value) -> (r: Option<&Vec<serde_yaml_ng::Value>>)
    ensures
        match r {
            Some(items) => items_in(yaml_content(*v)) == Some(yaml_contents(items@)),
            None => items_in(yaml_content(*v)) is None,
        },
{
    v.as_sequence()
}

/// The contents of pairs of values.
pub open spec fn pair_contents(
    pairs: Seq<(&serde_yaml_ng::Value, &serde_yaml_ng::Value)>,
) -> Seq<(YamlView, YamlView)> {
    pairs.map_values(
        |p: (&serde_yaml_ng::Value, &serde_yaml_ng::Value)|
            (yaml_content(*p.0), yaml_content(*p.1)),
    )
}

/// `serde_yaml_ng::Value::as_mapping`: the pairs of the mapping that the value
/// is, tags ignored, in the order in which the document has them.
#[verifier::external_body]
pub(crate) fn as_pairs<'a>(v: &'a serde_yaml_ng::Value) -> (r: Option<
    Vec<(&'a serde_yaml_ng::Value, &'a serde_yaml_ng::Value)>,
>)
    ensures
        match r {
            Some(pairs) => pairs_in(yaml_content(*v)) == Some(pair_contents(pairs@)),
            None => pairs_in(yaml_content(*v)) is None,
        },
{
    v.as_mapping().map(|m| m.iter().collect())
}

/// The text that a member of a mapping holds.
pub(crate) fn get_text<'a>(v: &'a serde_yaml_ng::Value, key: &str) -> (r: Option<&'a str>)
    ensures
        match r {
            Some(s) => member_text(yaml_content(*v), key@) == Some(s@),
            None => member_text(yaml_content(*v), key@) is None,
        },
{
    match get_member(v, key) {
        Some(m) => as_text(m),
        None => None,
    }
}

} // verus!
