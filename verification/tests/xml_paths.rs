use arazzo_runtime::json::Json;
use arazzo_runtime::json_text::parse_json;
use arazzo_runtime::xml_limits::can_be_read;
use arazzo_runtime::xpath::{extract_xpath, replace_xpath, select_xpath, XPathSelection};
use arazzo_runtime::xpath_calls::can_be_evaluated;

fn j(text: &str) -> Json {
    match parse_json(text.as_bytes()) {
        Some(value) => value,
        None => panic!("parsing {text}"),
    }
}

fn selected(xml: &[u8], xpath: &str) -> XPathSelection {
    match select_xpath(xml, xpath, Some("xpath-10")) {
        Ok(selection) => selection,
        Err(error) => panic!("selecting {xpath:?}: {error}"),
    }
}

fn selection_error(xml: &[u8], xpath: &str) -> String {
    match select_xpath(xml, xpath, Some("xpath-10")) {
        Ok(selection) => panic!("expected {xpath:?} to fail, got {selection:?}"),
        Err(error) => error,
    }
}

fn value_of(selection: &XPathSelection) -> Json {
    match &selection.value {
        Ok(value) => value.copy(),
        Err(error) => panic!("expected a representable value, got error: {error}"),
    }
}

#[test]
fn select_xpath_preserves_zero_one_and_many_cardinality() {
    let xml = b"<items><item>one</item><item>two</item></items>";

    let many = selected(xml, "//item");
    assert_eq!(value_of(&many), j(r#"["one", "two"]"#));
    assert_eq!(many.match_count, 2);

    let one = selected(xml, "//item[1]");
    assert_eq!(value_of(&one), j(r#""one""#));
    assert_eq!(one.match_count, 1);

    let zero = selected(xml, "//missing");
    assert_eq!(value_of(&zero), Json::Null);
    assert_eq!(zero.match_count, 0);
}
#[test]
fn select_xpath_preserves_native_scalar_types_and_cardinality() {
    let xml = br#"<items><item id="7">one</item><item>two</item><empty/></items>"#;

    let boolean = selected(xml, "count(//item) = 3");
    assert_eq!(value_of(&boolean), j(r#"false"#));
    assert_eq!(boolean.match_count, 1);

    let number = selected(xml, "count(//item)");
    assert_eq!(value_of(&number), j(r#"2"#));
    assert_eq!(number.match_count, 1);

    let fractional = selected(xml, "count(//item) div 2 + 0.25");
    assert_eq!(value_of(&fractional), j(r#"1.25"#));

    let string = selected(xml, "string(//item[1])");
    assert_eq!(value_of(&string), j(r#""one""#));
    assert_eq!(string.match_count, 1);

    // An empty scalar string is a count-one string, not a miss.
    let empty_string = selected(xml, "string(//missing)");
    assert_eq!(value_of(&empty_string), j(r#""""#));
    assert_eq!(empty_string.match_count, 1);
    assert!(!empty_string.truthy);

    // A matched node with empty text is a count-one empty string.
    let empty_node = selected(xml, "//empty");
    assert_eq!(value_of(&empty_node), j(r#""""#));
    assert_eq!(empty_node.match_count, 1);
    assert!(empty_node.truthy);

    // Attribute nodes yield their values.
    let attribute = selected(xml, "//item[1]/@id");
    assert_eq!(value_of(&attribute), j(r#""7""#));
    assert_eq!(attribute.match_count, 1);
}
#[test]
fn select_xpath_non_finite_numbers_fail_visibly_with_usable_ebv() {
    let xml = b"<items><item>one</item></items>";

    let infinite = selected(xml, "1 div 0");
    assert!(infinite.value.is_err(), "{infinite:?}");
    assert!(infinite.truthy);
    assert_eq!(infinite.match_count, 1);

    let nan = selected(xml, "number('not-a-number')");
    assert!(nan.value.is_err(), "{nan:?}");
    assert!(!nan.truthy);
}
#[test]
fn select_xpath_effective_boolean_value_follows_the_criterion_truth_table() {
    let xml = b"<items><item>one</item><item>two</item><empty/></items>";

    // boolean: itself
    assert!(selected(xml, "count(//item) = 2").truthy);
    assert!(!selected(xml, "count(//item) = 3").truthy);
    assert!(!selected(xml, "not(//item)").truthy);

    // number: non-zero passes, zero and NaN fail
    assert!(selected(xml, "count(//item)").truthy);
    assert!(!selected(xml, "count(//missing)").truthy);
    assert!(!selected(xml, "number('not-a-number')").truthy);

    // string: non-empty passes, empty fails
    assert!(selected(xml, "string(//item[1])").truthy);
    assert!(!selected(xml, "string(//missing)").truthy);

    // node-set: at least one node passes, even with empty text content
    assert!(selected(xml, "//item").truthy);
    assert!(!selected(xml, "//missing").truthy);
    assert!(selected(xml, "//empty").truthy);
}
#[test]
fn select_xpath_leaves_text_and_cdata_content_untouched() {
    let text = selected(br#"<note>declare xmlns="urn:x" here</note>"#, "//note");
    assert_eq!(value_of(&text), j(r#""declare xmlns=\"urn:x\" here""#));

    let cdata = selected(br#"<code><![CDATA[<f:x> and xmlns="u"]]></code>"#, "//code");
    assert_eq!(value_of(&cdata), j(r#""<f:x> and xmlns=\"u\"""#));
}
#[test]
fn select_xpath_matches_local_names_in_namespaced_documents() {
    let soap = br#"<soap:Envelope xmlns:soap="http://schemas.xmlsoap.org/soap/envelope/">
  <soap:Body><Reply><Id>7</Id></Reply></soap:Body>
</soap:Envelope>"#;
    assert_eq!(value_of(&selected(soap, "//Body//Id")), j(r#""7""#));

    let single_quoted: &[u8] = b"<f:root xmlns:f='urn:x'><f:item>one</f:item></f:root>";
    assert_eq!(value_of(&selected(single_quoted, "//item")), j(r#""one""#));
    assert_eq!(value_of(&selected(single_quoted, "//f:item")), j(r#""one""#));

    let prefixed_expr = selected(br#"<f:root xmlns:f="u"><f:x>1</f:x></f:root>"#, "//f:x");
    assert_eq!(value_of(&prefixed_expr), j(r#""1""#));
}
#[test]
fn select_xpath_resolves_root_scope_prefixes_by_namespace_uri() {
    let collision: &[u8] = br#"<root xmlns:a="urn:one" xmlns:b="urn:two">
  <a:item>from-a</a:item>
  <b:item>from-b</b:item>
</root>"#;
    assert_eq!(value_of(&selected(collision, "//a:item")), j(r#""from-a""#));
    assert_eq!(value_of(&selected(collision, "//b:item")), j(r#""from-b""#));
    let both = selected(collision, "//item");
    assert_eq!(value_of(&both), j(r#"["from-a", "from-b"]"#));

    // Two prefixes bound to the same URI unify: the expression's prefix
    // matches elements written with the other prefix.
    let aliased: &[u8] = br#"<root xmlns:a="urn:same" xmlns:b="urn:same">
  <b:item>aliased</b:item>
</root>"#;
    assert_eq!(value_of(&selected(aliased, "//a:item")), j(r#""aliased""#));

    // The discriminating case for URI resolution: a descendant re-binds
    // the same prefix text to a different URI. Textual matching would
    // return both elements; root-scope URI resolution returns only the
    // element in the root binding's namespace.
    let rebound: &[u8] = br#"<root xmlns:a="urn:one">
  <a:item>one</a:item>
  <inner xmlns:a="urn:two"><a:item>two</a:item></inner>
</root>"#;
    let scoped = selected(rebound, "//a:item");
    assert_eq!(value_of(&scoped), j(r#""one""#));
    assert_eq!(scoped.match_count, 1);
}
#[test]
fn select_xpath_reports_undeclared_namespace_prefixes() {
    let error = selection_error(b"<f:root><f:x>1</f:x></f:root>", "//x");
    assert!(error.contains("invalid XML"), "got: {error}");
    assert!(error.contains("prefix"), "got: {error}");
}

#[test]
fn select_xpath_reports_invalid_xml_and_selector() {
    let invalid_xml = selection_error(b"<items>", "//item");
    assert!(invalid_xml.contains("invalid XML"), "got: {invalid_xml}");

    let invalid_selector = selection_error(b"<items/>", "//[");
    assert!(
        invalid_selector.contains("invalid XPath selector"),
        "got: {invalid_selector}"
    );
}
#[test]
fn xpath_version_routing_rejects_everything_but_explicit_xpath_10() {
    let xml: &[u8] = b"<items><item>one</item></items>";

    assert!(select_xpath(xml, "//item", Some("xpath-10")).is_ok());

    let omitted = match select_xpath(xml, "//item", None) {
        Err(error) => error,
        Ok(selection) => panic!("omitted version must be rejected, got {selection:?}"),
    };
    assert!(omitted.contains("xpath-31"), "got: {omitted}");
    assert!(omitted.contains("xpath-10"), "got: {omitted}");

    for declared in ["xpath-20", "xpath-30", "xpath-31"] {
        let error = match select_xpath(xml, "//item", Some(declared)) {
            Err(error) => error,
            Ok(selection) => panic!("{declared} must be rejected, got {selection:?}"),
        };
        assert!(error.contains(declared), "got: {error}");
        assert!(error.contains("XPath 1.0 engine"), "got: {error}");
    }

    let unknown = match select_xpath(xml, "//item", Some("20")) {
        Err(error) => error,
        Ok(selection) => panic!("unknown token must be rejected, got {selection:?}"),
    };
    assert_eq!(unknown, "unsupported XPath version \"20\"");

    // Rejection happens before parsing: even invalid XML reports the
    // version problem, not a parse problem.
    let before_parse = match select_xpath(b"<broken", "//item", None) {
        Err(error) => error,
        Ok(selection) => panic!("omitted version must be rejected, got {selection:?}"),
    };
    assert!(before_parse.contains("xpath-31"), "got: {before_parse}");
}
#[test]
fn replace_xpath_preserves_unrelated_content_and_routes_versions() {
    let xml = r#"<soap:Envelope xmlns:soap="http://schemas.xmlsoap.org/soap/envelope/" xmlns:tns="urn:test"><soap:Body note="keep"><tns:CustomerId>old</tns:CustomerId><tns:Other>stay</tns:Other></soap:Body></soap:Envelope>"#;

    let mutated = match replace_xpath(xml, "//CustomerId", Some("xpath-10"), "new") {
        Ok(mutated) => mutated,
        Err(error) => panic!("replacing: {error}"),
    };
    assert!(mutated.contains(">new<"), "{mutated}");
    assert!(
        mutated.contains(r#"xmlns:soap="http://schemas.xmlsoap.org/soap/envelope/""#),
        "{mutated}"
    );
    assert!(mutated.contains(r#"xmlns:tns="urn:test""#), "{mutated}");
    assert!(mutated.contains(r#"note="keep""#), "{mutated}");
    assert!(mutated.contains(">stay<"), "{mutated}");

    let rejected = match replace_xpath(xml, "//CustomerId", None, "new") {
        Err(error) => error,
        Ok(mutated) => panic!("omitted version must be rejected, got {mutated}"),
    };
    assert!(rejected.contains("xpath-31"), "got: {rejected}");
}
#[test]
fn extract_xpath_routes_the_bare_extension_to_xpath_10() {
    let xml = b"<items><item>one</item></items>";
    assert_eq!(extract_xpath(xml, "//item"), j(r#""one""#));
    assert_eq!(extract_xpath(xml, "1 div 0"), Json::Null);
    assert_eq!(extract_xpath(b"<broken", "//item"), Json::Null);
}

#[test]
fn test_xpath_extraction() {
    let xml = br#"<?xml version="1.0" encoding="UTF-8"?>
<rss version="2.0">
  <channel>
    <item>
      <title>First Story</title>
      <link>https://example.com/1</link>
    </item>
    <item>
      <title>Second Story</title>
      <link>https://example.com/2</link>
    </item>
  </channel>
</rss>"#;
    assert_eq!(
        extract_xpath(xml, "//item[1]/title"),
        Json::Text("First Story".to_string())
    );
    assert_eq!(
        extract_xpath(xml, "//item[2]/title"),
        Json::Text("Second Story".to_string())
    );
}

#[test]
fn test_xpath_extraction_cdata() {
    let xml = br#"<?xml version="1.0" encoding="UTF-8"?>
<rss version="2.0">
  <channel>
    <item>
      <title><![CDATA[Story with <special> chars]]></title>
    </item>
  </channel>
</rss>"#;
    assert_eq!(
        extract_xpath(xml, "//item[1]/title"),
        Json::Text("Story with <special> chars".to_string())
    );
}

#[test]
fn test_xpath_extraction_atom() {
    let xml = br#"<?xml version="1.0" encoding="UTF-8"?>
<feed xmlns="http://www.w3.org/2005/Atom" xmlns:media="http://search.yahoo.com/mrss/">
  <title>top scoring links : technology</title>
  <entry>
    <title>First Reddit Post</title>
    <link href="https://reddit.com/1"/>
  </entry>
  <entry>
    <title>Second Reddit Post</title>
    <link href="https://reddit.com/2"/>
  </entry>
</feed>"#;
    assert_eq!(
        extract_xpath(xml, "//entry[1]/title"),
        Json::Text("First Reddit Post".to_string())
    );
    assert_eq!(
        extract_xpath(xml, "//entry[2]/title"),
        Json::Text("Second Reddit Post".to_string())
    );
}

#[test]
fn test_xpath_extraction_no_match() {
    let xml = br#"<?xml version="1.0" encoding="UTF-8"?>
<rss version="2.0"><channel></channel></rss>"#;
    assert_eq!(extract_xpath(xml, "//item[1]/title"), Json::Null);
}

#[test]
fn test_xpath_extraction_invalid_xml() {
    let body = b"this is not xml at all <broken>";
    assert_eq!(extract_xpath(body, "//item[1]/title"), Json::Null);
}


#[test]
fn substrings_with_small_numbers_are_taken() {
    let xml = b"<r><a>abcdef</a><n>1e30</n><substring>s</substring></r>";
    for (expr, expected) in [
        ("substring('abcdef', 2)", "bcdef"),
        ("substring('abcdef', 2, 3)", "bcd"),
        ("substring(//a, string-length(//a) - 2)", "def"),
        ("substring(//a, string-length(substring(//a, 3)) , 2)", "de"),
        ("substring (//a, floor(2.5), count(//a) + 1)", "bc"),
        ("substring(//a, (7 mod 4) - 1, 999999999999999)", "bcdef"),
        ("substring(//a, -1, 99)", "abcdef"),
        ("substring(concat(//a, ', (', //n), 1, round(2.4))", "ab"),
        ("string(//substring)", "s"),
        ("concat('substring(1, ', //a)", "substring(1, abcdef"),
        ("substring-after(//a, 'c')", "def"),
    ] {
        assert_eq!(value_of(&selected(xml, expr)), Json::Text(expected.to_string()), "{expr}");
    }
}

#[test]
fn substrings_with_numbers_that_may_be_large_are_refused() {
    let xml = b"<r><a>abcdef</a><n>1e30</n><count>9</count></r>";
    for expr in [
        "substring('abc', 2, 1 div 0)",
        "substring('abc', 2, 99999999999999999999)",
        "substring('a', -1 div 0)",
        "substring(//a, 2, //n)",
        "substring(//a, 2, '1e30')",
        "substring(//a, number(//n))",
        "substring(//a, 2, 2 * //n)",
        "substring(//a, -//n)",
        "//a[substring(., 2 * 3) = 'f']",
        "//a[substring(., 1, count(//a))] | //a[substring(., 1, //n) = 'a']",
        "concat('x', substring\u{2003}(//a, 2, sum(//n)))",
        "substring(//a, 1, substring(//n, 1))",
    ] {
        assert_eq!(
            selection_error(xml, expr),
            format!(
                "invalid XPath selector {expr:?}: substring() is given a number that may be out of range"
            )
        );
    }
    assert_eq!(
        replace_xpath(
            "<r><a>abc</a></r>",
            "//a[substring(., 2, 1 div 0)]",
            Some("xpath-10"),
            "x"
        ),
        Err("invalid XPath target: substring() is given a number that may be out of range"
            .to_string())
    );
}

#[test]
fn long_sums_are_not_handed_to_substring() {
    let terms = |n: usize| vec!["1"; n].join(" + ");
    let xml = b"<a>abc</a>";
    let sixteen = format!("substring(//a, {})", terms(16));
    assert_eq!(value_of(&selected(xml, &sixteen)), Json::Text(String::new()));
    let seventeen = format!("substring(//a, {})", terms(17));
    assert_eq!(value_of(&selected(xml, &seventeen)), Json::Text(String::new()));
    let inside = format!("//a[substring(., {})]", terms(17));
    assert!(selection_error(xml, &inside).contains("may be out of range"));
    assert!(can_be_evaluated("//a[1]/b"));
    assert!(!can_be_evaluated("substring(., //n)"));
}

#[test]
fn numbers_of_the_document_are_looked_up_for_substring() {
    let xml = b"<r><a>abcdef</a><n>3</n><n> 2 </n><t>x</t><count>4</count></r>";
    for (expr, expected) in [
        ("substring(//a, //n)", "cdef"),
        ("substring(//a, //n, //n[2])", "cd"),
        ("substring(//a, 2 * 3)", "f"),
        ("substring(//a, '2', 6 div 2)", "bcd"),
        ("substring(//a, number(//n), sum(//n))", "cdef"),
        ("substring(//a, //t)", "abcdef"),
        ("substring(//a, r/count)", "def"),
        ("concat(substring(//a[1], //n, 1), substring(//a, 2, number(//n) - 1))", "cbc"),
        ("substring(//a, 1, string-length(substring(//a, //n)))", "abcd"),
    ] {
        assert_eq!(value_of(&selected(xml, expr)), Json::Text(expected.to_string()), "{expr}");
    }
    let unclosed = selection_error(xml, "substring(//a, //n");
    assert!(!unclosed.contains("may be out of range"), "{unclosed}");
}

#[test]
fn only_shallow_expressions_are_evaluated() {
    let xml = b"<a>1</a>";
    let sum = |n: usize| vec!["1"; n].join("+");
    assert_eq!(value_of(&selected(xml, &sum(65))), j("65"));
    assert!(can_be_evaluated(&sum(65)));
    assert!(!can_be_evaluated(&sum(66)));
    assert!(can_be_evaluated(&vec!["a"; 1000].join("/")));
    assert_eq!(
        selection_error(xml, &sum(100_000)),
        format!(
            "invalid XPath selector \"{}\": the expression has more operators than can be evaluated",
            sum(100_000)
        )
    );
    assert_eq!(
        replace_xpath("<a>1</a>", &vec!["a"; 66].join("|"), Some("xpath-10"), "x"),
        Err("invalid XPath target: the expression has more operators than can be evaluated"
            .to_string())
    );
}

#[test]
fn the_deepest_expressions_are_evaluated() {
    let xml = b"<a>1</a>";
    let mut call = String::from("1");
    let mut path = String::from("1");
    for _ in 0..32 {
        call = format!("number({call}+1)");
        path = format!("a[{path} or 1]");
    }
    assert_eq!(value_of(&selected(xml, &call)), j("33"));
    assert_eq!(selected(xml, &path).match_count, 1);
}

const REFUSED_TYPE: &str = "invalid XML: its document type declares too many entities, too much markup in them, or elements that nest too deep";

#[test]
fn declarations_nest_only_so_far() {
    let model = |n: usize| {
        format!(
            "<!DOCTYPE r [<!ELEMENT r {}a{}>]><r>(((</r>",
            "(".repeat(n),
            ")".repeat(n)
        )
    };
    assert!(can_be_read(&model(256)));
    assert_eq!(
        value_of(&selected(model(256).as_bytes(), "/r")),
        Json::Text("(((".to_string())
    );
    assert!(!can_be_read(&model(257)));
    assert_eq!(selection_error(model(1_000_000).as_bytes(), "/r"), REFUSED_TYPE);
    assert_eq!(
        replace_xpath(&model(1_000_000), "/r", Some("xpath-10"), "x"),
        Err(REFUSED_TYPE.to_string())
    );
    let apart = format!("<!DOCTYPE r [{}]><r/>", "<!ELEMENT r (a)>".repeat(1000));
    assert!(can_be_read(&apart));
    assert!(can_be_read(&format!("<r>{}</r>", "(".repeat(1000))));
}

/// A document in which each of so many entities stands for the one before, the
/// first for a text; the last stands inside so many elements.
fn entity_chain(entities: usize, elements: usize, text: &str) -> String {
    let mut xml = format!("<!DOCTYPE r [<!ENTITY e0 \"{text}\">");
    for i in 1..entities {
        xml.push_str(&format!("<!ENTITY e{i} '&e{};'>", i - 1));
    }
    format!(
        "{xml}]>{}&e{};{}",
        "<r>".repeat(elements),
        entities - 1,
        "</r>".repeat(elements)
    )
}

#[test]
fn entities_are_declared_only_so_often() {
    for elements in [1, 128] {
        assert_eq!(
            value_of(&selected(entity_chain(33, elements, "v").as_bytes(), "/r")),
            Json::Text("v".to_string())
        );
    }
    assert!(!can_be_read(&entity_chain(34, 1, "v")));
    assert_eq!(selection_error(entity_chain(5000, 1, "v").as_bytes(), "/r"), REFUSED_TYPE);
    let many = |n: usize| {
        let declared = "<!ENTITY e 'v&#160;'>".repeat(n);
        format!("<!DOCTYPE r [{declared}]><r>&e;</r>")
    };
    assert!(can_be_read(&many(1024)));
    assert!(!can_be_read(&many(1025)));
    assert!(can_be_read("<r>&amp;</r>"));
    assert!(can_be_read("no XML"));
}

#[test]
fn entities_with_markup_stand_inside_few_elements() {
    for (text, read) in [
        ("&#160;", "\u{a0}"),
        ("a > b", "a > b"),
        ("&lt;b/>", "<b/>"),
        ("&#601;", "\u{259}"),
        ("&#38;#60;", "&#60;"),
    ] {
        for elements in [1, 128] {
            assert_eq!(
                value_of(&selected(entity_chain(2, elements, text).as_bytes(), "/r")),
                Json::Text(read.to_string()),
                "{text}"
            );
        }
    }
    for text in ["<b/>", "> <b/>", "&#60;b/>", "&#x3C;b/>", "&#x3c;b/>"] {
        assert!(can_be_read(&entity_chain(2, 31, text)), "{text}");
        assert!(!can_be_read(&entity_chain(2, 33, text)), "{text}");
    }
    for text in ["&#060;b/>", "&#x03c;b/>", "&#+60;b/>", "&#x+3c;b/>"] {
        assert!(!can_be_read(&entity_chain(2, 33, text)), "{text}");
    }
    let nested = format!("{}{}", "<b>".repeat(4), "</b>".repeat(4));
    assert_eq!(
        value_of(&selected(entity_chain(33, 28, &nested).as_bytes(), "/r")),
        Json::Text(nested.clone())
    );
    assert_eq!(selection_error(entity_chain(2, 29, &nested).as_bytes(), "/r"), REFUSED_TYPE);
    let mut deep = String::from("<!DOCTYPE r [<!ENTITY e0 '<b>v</b>'>");
    for i in 1..7 {
        let (open, close) = ("<b>".repeat(3), "</b>".repeat(3));
        deep.push_str(&format!("<!ENTITY e{i} '{open}&e{};{close}'>", i - 1));
    }
    deep.push_str("]><r>&e6;</r>");
    assert!(can_be_read(&deep));
    assert_eq!(selected(deep.as_bytes(), "/r").match_count, 1);
}

#[test]
fn the_deepest_entities_are_read() {
    let mut xml = String::from("<!DOCTYPE r [<!ENTITY e0 '<b>'><!ENTITY f0 '</b>'>");
    for i in 1..7 {
        let before = i - 1;
        xml.push_str(&format!("<!ENTITY e{i} '&e{before};&e{before};'>"));
        xml.push_str(&format!("<!ENTITY f{i} '&f{before};&f{before};'>"));
    }
    let all = |letter: &str| (0..7).map(|i| format!("&{letter}{i};")).collect::<String>();
    xml.push_str(&format!("<!ENTITY m '{}v{}'>]>", all("e"), all("f")));
    xml.push_str(&format!("{}&m;{}", "<r>".repeat(31), "</r>".repeat(31)));
    assert_eq!(
        value_of(&selected(xml.as_bytes(), "/r")),
        Json::Text(format!("{}v{}", "<b>".repeat(127), "</b>".repeat(127)))
    );
}
