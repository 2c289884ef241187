use arazzo_runtime::text_map::TextMap;
use arazzo_runtime::url_path::{
    encode_cookie_value, encode_segment, replace_path_params, PathParameterExpansionError,
};
use std::collections::BTreeSet;

fn substitutions(entries: &[(&str, &str)]) -> TextMap<String> {
    let mut map = TextMap::new();
    for (name, value) in entries {
        map.insert((*name).to_string(), (*value).to_string());
    }
    map
}

fn validated(
    url: &str,
    entries: &[(&str, &str)],
) -> Result<String, PathParameterExpansionError> {
    let (result, validation) = replace_path_params(url, &substitutions(entries));
    validation.validate(&result)?;
    Ok(result)
}

fn replaced(url: &str, entries: &[(&str, &str)]) -> String {
    match validated(url, entries) {
        Ok(result) => result,
        Err(error) => panic!("safe URL substitution was refused: {error:?}"),
    }
}

#[test]
fn rejects_parameter_influenced_whatwg_dot_segments() {
    let cases = [
        ("https://example.test/a/{id}/z", vec![("id", ".")]),
        ("https://example.test/a/{id}/z", vec![("id", "..")]),
        ("https://example.test/a/%2{tail}/z", vec![("tail", "e")]),
        ("https://example.test/a/%2{tail}/z", vec![("tail", "E")]),
        ("https://example.test/a/.%2{tail}/z", vec![("tail", "e")]),
        ("https://example.test/a/%2{tail}./z", vec![("tail", "E")]),
        (
            "https://example.test/a/%2{left}%2{right}/z",
            vec![("left", "e"), ("right", "E")],
        ),
        (
            "https://example.test/a/{left}{right}/z",
            vec![("left", "."), ("right", ".")],
        ),
        ("https://example.test/a/{empty}./z", vec![("empty", "")]),
        ("https://example.test/a/{id}{id}/z", vec![("id", ".")]),
        ("https://example.test/a/{id}\\details", vec![("id", "..")]),
        ("https://example.test/a/.\t{id}/z", vec![("id", ".")]),
        ("https://example.test/a/%2\r{id}/z", vec![("id", "E")]),
        ("https://example.test/a/{id}\n/z", vec![("id", "..")]),
        (
            "https://example.test/v1/foo://{id}/details",
            vec![("id", "..")],
        ),
        (
            "https://example.test/a/{part?name}/z",
            vec![("part?name", "..")],
        ),
        (
            "https://example.test/a/{part#name}/z",
            vec![("part#name", ".")],
        ),
        (
            "https://example.test/a/{part/name}/z",
            vec![("part/name", "..")],
        ),
    ];

    for (url, entries) in cases {
        let err = match validated(url, &entries) {
            Ok(result) => panic!("dot segment was not refused: {result}"),
            Err(error) => error,
        };
        let expected_names: Vec<String> = entries
            .iter()
            .map(|(name, _)| (*name).to_string())
            .collect::<BTreeSet<_>>()
            .into_iter()
            .collect();
        let actual_names: BTreeSet<String> = err.parameter_names.into_iter().collect();
        assert_eq!(
            actual_names,
            expected_names.into_iter().collect(),
            "case: {url}"
        );
    }
}

#[test]
fn terminal_url_whitespace_cannot_hide_a_substituted_dot_segment() {
    for (url, value) in [
        ("https://example.test/a/{id} ", ".."),
        ("https://example.test/a/{id}\0\t ", "."),
        ("https://example.test/a/.. {id}", ""),
    ] {
        assert!(validated(url, &[("id", value)]).is_err());
    }
    for url in [
        "https://example.test/a/{id} /z",
        "https://example.test/a/{id} ?next=x",
        "https://example.test/a/{id} #fragment",
    ] {
        assert_eq!(replaced(url, &[("id", "..")]), url.replace("{id}", ".."));
    }
    assert_eq!(
        replaced("https://example.test/a/{id}", &[("id", ".. ")]),
        "https://example.test/a/..%20"
    );
}

#[test]
fn validation_uses_final_query_boundaries_without_reparsing_query_braces() {
    let (mut exposed, exposed_validation) = replace_path_params(
        "https://example.test/a/{id} ?",
        &substitutions(&[("id", "..")]),
    );
    let query = match exposed.find('?') {
        Some(position) => position,
        None => panic!("fixture must carry a query delimiter"),
    };
    exposed.truncate(query);
    assert!(exposed_validation.validate(&exposed).is_err());

    let (mut protected, protected_validation) = replace_path_params(
        "https://example.test/a/{id} ",
        &substitutions(&[("id", "..")]),
    );
    protected.push_str("?raw={value?/with#delimiters}");
    assert_eq!(protected_validation.validate(&protected), Ok(()));
    assert_eq!(
        protected,
        "https://example.test/a/.. ?raw={value?/with#delimiters}"
    );
}

#[test]
fn matched_template_delimiters_are_not_url_structure() {
    assert_eq!(
        replaced(
            "https://example.test/a/{part/name}/z?next={query#name}#at-{fragment?name}",
            &[
                ("part/name", "safe"),
                ("query#name", ".."),
                ("fragment?name", ".."),
            ],
        ),
        "https://example.test/a/safe/z?next=..#at-.."
    );
    assert_eq!(
        replaced("https://{host/name}/items", &[("host/name", "..")]),
        "https://../items"
    );
}

#[test]
fn unresolved_template_delimiters_remain_literal_url_structure() {
    assert_eq!(
        replaced(
            "https://example.test/a/{part\\name}/{missing/name}{id}/z",
            &[("part\\name", "safe"), ("id", ".")],
        ),
        "https://example.test/a/safe/{missing/name}./z"
    );
    for url in [
        "https://example.test/a/{missing?name}/{id}",
        "https://example.test/a/{missing#name}/{id}",
    ] {
        assert_eq!(replaced(url, &[("id", "..")]), url.replace("{id}", ".."));
    }
}

#[test]
fn preserves_safe_dots_percent_literals_and_static_dot_segments() {
    let safe = ["file..txt", "...", "%2e", "%2e-name", "name%2e"];
    for value in safe {
        let result = replaced("https://example.test/a/{id}/z", &[("id", value)]);
        assert!(result.starts_with("https://example.test/a/"), "{result}");
        assert!(result.ends_with("/z"), "{result}");
    }

    assert_eq!(
        replaced(
            "https://example.test/a/../{id}/%2e?next={next}#value={fragment}",
            &[("id", "safe"), ("next", ".."), ("fragment", ".")],
        ),
        "https://example.test/a/../safe/%2e?next=..#value=."
    );
    assert_eq!(
        replaced("https://example.test/a/..\\{id}/z", &[("id", "safe")],),
        "https://example.test/a/..\\safe/z"
    );
}

#[test]
fn preserves_substitution_while_encoding_path_separators_and_unicode() {
    assert_eq!(
        replaced(
            "https://example.test/a/{id}/z",
            &[("id", "a/b\\c snowman ☃")],
        ),
        "https://example.test/a/a%2Fb%5Cc%20snowman%20%E2%98%83/z"
    );
    assert_eq!(
        replaced(
            "https://example.test/{known}/{unknown}",
            &[("known", "value"), ("unused", "ignored")],
        ),
        "https://example.test/value/{unknown}"
    );
    assert_eq!(
        replaced("https://example.test/{unclosed", &[("unclosed", "value")]),
        "https://example.test/{unclosed"
    );
}

#[test]
fn path_segments_are_percent_encoded() {
    assert_eq!(encode_segment("a b/c"), "a%20b%2Fc");
    assert_eq!(encode_segment("plain-._~"), "plain-._~");
    assert_eq!(encode_segment("é"), "%C3%A9");
}

#[test]
fn cookie_values_hold_no_separators() {
    assert!(!encode_cookie_value("a; b, c\"d").contains(';'));
    assert!(!encode_cookie_value("a; b").contains(' '));
    assert_eq!(encode_cookie_value("plain"), "plain");
}

#[test]
fn cookie_encodings_of_texts_in_a_row_join() {
    for (a, b) in [("a; b", "=c"), ("", "\"x\""), ("%", "3B;"), ("\\", "")] {
        assert_eq!(
            encode_cookie_value(&format!("{a}{b}")),
            format!("{}{}", encode_cookie_value(a), encode_cookie_value(b))
        );
    }
    assert_eq!(encode_cookie_value("a;=b"), "a%3B%3Db");
}
