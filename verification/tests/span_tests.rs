use weaver_semconv::v2::span::{SpanName, SpanNameTemplate, TemplatePart};

fn table(pairs: &[(&str, &str)]) -> Vec<(String, String)> {
    pairs
        .iter()
        .map(|(k, v)| (k.to_string(), v.to_string()))
        .collect()
}

#[test]
fn test_span_name_template_rendering() {
    let t = SpanNameTemplate::parse("{method} {url.template}").unwrap();

    // All present and valid
    let rendered = t.render(&table(&[("method", "GET"), ("url.template", "/users/{id}")]));
    assert_eq!(rendered.as_deref(), Some("GET /users/{id}"));

    // Missing attribute
    let rendered = t.render(&table(&[("method", "GET")]));
    assert_eq!(rendered, None);

    // Empty value is rejected
    let rendered = t.render(&table(&[("method", ""), ("url.template", "/users/{id}")]));
    assert_eq!(rendered, None);
}

#[test]
fn test_span_name_evaluation() {
    let span_name = SpanName {
        templates: vec![
            SpanNameTemplate::parse("{http.request.method} {url.template}").unwrap(),
            SpanNameTemplate::parse("{http.request.method} {server.address}:{server.port}").unwrap(),
            SpanNameTemplate::parse("{http.request.method} {server.address}").unwrap(),
            SpanNameTemplate::parse("{http.request.method}").unwrap(),
            SpanNameTemplate::parse("HTTP").unwrap(),
        ],
        note: None,
    };

    // First template matches
    let name = span_name.evaluate(&table(&[
        ("http.request.method", "GET"),
        ("url.template", "/users/{id}"),
    ]));
    assert_eq!(name.as_deref(), Some("GET /users/{id}"));

    // First template fails, second matches
    let name = span_name.evaluate(&table(&[
        ("http.request.method", "POST"),
        ("server.address", "example.com"),
        ("server.port", "8080"),
    ]));
    assert_eq!(name.as_deref(), Some("POST example.com:8080"));

    // Only method matches
    let name = span_name.evaluate(&table(&[("http.request.method", "DELETE")]));
    assert_eq!(name.as_deref(), Some("DELETE"));

    // The enum value _OTHER of http.request.method is filtered out by the
    // caller: the method templates fail and the literal "HTTP" template matches
    let name = span_name.evaluate(&table(&[("url.template", "/users/{id}")]));
    assert_eq!(name.as_deref(), Some("HTTP"));

    // Non-enum attribute with value "_OTHER" is preserved
    let custom_span = SpanName {
        templates: vec![SpanNameTemplate::parse("{url.template}").unwrap()],
        note: None,
    };
    let name = custom_span.evaluate(&table(&[("url.template", "_OTHER")]));
    assert_eq!(name.as_deref(), Some("_OTHER"));

    // Completely empty attributes matches literal "HTTP" template
    let name = span_name.evaluate(&table(&[]));
    assert_eq!(name.as_deref(), Some("HTTP"));
}

#[test]
fn span_name_template_parsing() {
    let t = SpanNameTemplate::parse("{http.request.method} {url.template}").unwrap();
    assert_eq!(t.pattern, "{http.request.method} {url.template}");
    assert_eq!(t.attributes, vec!["http.request.method", "url.template"]);
    assert_eq!(
        t.parts,
        vec![
            TemplatePart::Attribute {
                attribute: "http.request.method".to_owned()
            },
            TemplatePart::Literal {
                value: " ".to_owned()
            },
            TemplatePart::Attribute {
                attribute: "url.template".to_owned()
            },
        ]
    );
    let literal_only = SpanNameTemplate::parse("HTTP").unwrap();
    assert!(literal_only.attributes.is_empty());
    assert_eq!(
        literal_only.parts,
        vec![TemplatePart::Literal {
            value: "HTTP".to_owned()
        }]
    );
    assert!(SpanNameTemplate::parse("").is_err());
    assert!(SpanNameTemplate::parse("   ").is_err());
    assert!(SpanNameTemplate::parse("{unclosed").is_err());
    assert!(SpanNameTemplate::parse("{}").is_err());
    assert!(SpanNameTemplate::parse("{   }").is_err());
    assert!(SpanNameTemplate::parse("{a b}").is_err());
    assert!(SpanNameTemplate::parse("{ a }").is_err());
    assert!(SpanNameTemplate::parse("{invalid!attr}").is_err());
    assert!(SpanNameTemplate::parse("stray}brace").is_err());
    assert!(SpanNameTemplate::parse("{nested{brace}}").is_err());
    let consecutive = SpanNameTemplate::parse("{a}{b}").unwrap();
    assert_eq!(consecutive.attributes, vec!["a", "b"]);
    assert_eq!(consecutive.parts.len(), 2);
}

#[test]
fn span_name_template_error_messages() {
    assert_eq!(
        SpanNameTemplate::parse("").unwrap_err(),
        "Span name template pattern cannot be empty"
    );
    assert_eq!(
        SpanNameTemplate::parse("{unclosed").unwrap_err(),
        "Unclosed '{' in template: `{unclosed`"
    );
    assert_eq!(
        SpanNameTemplate::parse("stray}brace").unwrap_err(),
        "Unmatched '}' in template: `stray}brace`"
    );
    assert_eq!(
        SpanNameTemplate::parse("{nested{brace}}").unwrap_err(),
        "Nested '{' in template: `{nested{brace}}`"
    );
    assert_eq!(
        SpanNameTemplate::parse("{a b}").unwrap_err(),
        "Invalid attribute placeholder `a b` in template: `{a b}`"
    );
}

#[test]
fn literal_template_renders_itself_whatever_the_values() {
    let t = SpanNameTemplate::parse("GET users").unwrap();
    assert_eq!(t.render(&table(&[])).as_deref(), Some("GET users"));
    assert_eq!(t.render(&table(&[("x", "y")])).as_deref(), Some("GET users"));
}

#[test]
fn repeated_placeholder_is_listed_once_and_first_pair_wins() {
    let t = SpanNameTemplate::parse("{a}-{a}").unwrap();
    assert_eq!(t.attributes, vec!["a"]);
    assert_eq!(t.render(&table(&[("a", "1"), ("a", "2")])).as_deref(), Some("1-1"));
}

#[test]
fn evaluate_or_default_falls_back() {
    let s = SpanName {
        templates: vec![SpanNameTemplate::parse("{a}").unwrap()],
        note: None,
    };
    assert_eq!(s.evaluate_or_default("fallback", &table(&[])), "fallback");
    assert_eq!(s.evaluate_or_default("fallback", &table(&[("a", "x")])), "x");
    assert_eq!(SpanName::default().evaluate(&table(&[("a", "x")])), None);
}

#[test]
fn template_text_parses_back_to_the_same_template() {
    let t = SpanNameTemplate::parse("GET {http.route} v{version}").unwrap();
    assert_eq!(t.to_string(), "GET {http.route} v{version}");
    let again = SpanNameTemplate::parse(&t.to_string()).unwrap();
    assert_eq!(again, t);
    assert_eq!(t.parts.len(), 4);
    assert!(matches!(&t.parts[0], TemplatePart::Literal { value } if value == "GET "));
    assert!(matches!(&t.parts[1], TemplatePart::Attribute { attribute } if attribute == "http.route"));
}

#[test]
fn template_record_form_with_its_own_fields_is_the_same_template() {
    let t = SpanNameTemplate::parse("{a} and {b}").unwrap();
    let r = SpanNameTemplate::from_fields(
        Some(t.pattern.clone()),
        Some(t.attributes.clone()),
        Some(t.parts.clone()),
    )
    .unwrap();
    assert_eq!(r, t);
    assert_eq!(
        SpanNameTemplate::from_fields(Some("{a} and {b}".to_owned()), None, None).unwrap(),
        t
    );
    assert!(SpanNameTemplate::from_fields(None, None, None).is_err());
}

#[test]
fn test_span_name_template_parsing() {
    let t = SpanNameTemplate::parse("{http.request.method} {url.template}").unwrap();
    assert_eq!(t.pattern, "{http.request.method} {url.template}");
    assert_eq!(t.attributes, vec!["http.request.method", "url.template"]);
    assert_eq!(
        t.parts,
        vec![
            TemplatePart::Attribute {
                attribute: "http.request.method".to_owned()
            },
            TemplatePart::Literal {
                value: " ".to_owned()
            },
            TemplatePart::Attribute {
                attribute: "url.template".to_owned()
            },
        ]
    );

    let literal_only = SpanNameTemplate::parse("HTTP").unwrap();
    assert!(literal_only.attributes.is_empty());
    assert_eq!(
        literal_only.parts,
        vec![TemplatePart::Literal {
            value: "HTTP".to_owned()
        }]
    );

    assert!(SpanNameTemplate::parse("").is_err());
    assert!(SpanNameTemplate::parse("   ").is_err());
    assert!(SpanNameTemplate::parse("{unclosed").is_err());
    assert!(SpanNameTemplate::parse("{}").is_err());
    assert!(SpanNameTemplate::parse("{   }").is_err());
    assert!(SpanNameTemplate::parse("{a b}").is_err());
    assert!(SpanNameTemplate::parse("{ a }").is_err());
    assert!(SpanNameTemplate::parse("{invalid!attr}").is_err());
    assert!(SpanNameTemplate::parse("stray}brace").is_err());
    assert!(SpanNameTemplate::parse("{nested{brace}}").is_err());

    // Consecutive placeholders
    let consecutive = SpanNameTemplate::parse("{a}{b}").unwrap();
    assert_eq!(consecutive.attributes, vec!["a", "b"]);
    assert_eq!(consecutive.parts.len(), 2);
}

#[test]
fn render_with_asks_placeholders_in_order_and_stops_at_first_missing() {
    let t = SpanNameTemplate::parse("{a} and {b} and {c}").unwrap();
    let asked = std::cell::RefCell::new(Vec::<String>::new());
    let lookup = |k: &str| -> Option<&'static str> {
        asked.borrow_mut().push(k.to_owned());
        match k {
            "a" => Some("x"),
            "c" => Some("z"),
            _ => None,
        }
    };
    assert_eq!(t.render_with(&lookup), None);
    assert_eq!(*asked.borrow(), vec!["a".to_owned(), "b".to_owned()]);
}

#[test]
fn render_with_renders_when_every_value_is_usable() {
    let t = SpanNameTemplate::parse("{method} {url.template}").unwrap();
    let lookup = |k: &str| -> Option<&'static str> {
        match k {
            "method" => Some("GET"),
            "url.template" => Some("/users/{id}"),
            _ => None,
        }
    };
    assert_eq!(t.render_with(&lookup).as_deref(), Some("GET /users/{id}"));
    let empty = |k: &str| -> Option<&'static str> {
        match k {
            "method" => Some(""),
            _ => Some("x"),
        }
    };
    assert_eq!(t.render_with(&empty), None);
}

#[test]
fn render_with_asks_nothing_of_a_literal_template() {
    let t = SpanNameTemplate::parse("GET users").unwrap();
    let asked = std::cell::Cell::new(0u32);
    let lookup = |_: &str| -> Option<&'static str> {
        asked.set(asked.get() + 1);
        None
    };
    assert_eq!(t.render_with(&lookup).as_deref(), Some("GET users"));
    assert_eq!(asked.get(), 0);
}

#[test]
fn evaluate_with_takes_first_template_that_renders() {
    let span_name = SpanName {
        templates: vec![
            SpanNameTemplate::parse("{method} {route}").unwrap(),
            SpanNameTemplate::parse("{method}").unwrap(),
        ],
        note: None,
    };
    let lookup = |k: &str| -> Option<&'static str> {
        match k {
            "method" => Some("POST"),
            _ => None,
        }
    };
    assert_eq!(span_name.evaluate_with(&lookup).as_deref(), Some("POST"));
    let nothing = |_: &str| -> Option<&'static str> { None };
    assert_eq!(span_name.evaluate_with(&nothing), None);
    assert_eq!(span_name.evaluate_with_or_default("op", &nothing), "op");
}

#[test]
fn render_with_a_table_lookup_agrees_with_render() {
    let t = SpanNameTemplate::parse("{method} {url.template}").unwrap();
    for pairs in [
        vec![("method", "GET"), ("url.template", "/users/{id}")],
        vec![("method", "GET")],
        vec![("method", ""), ("url.template", "/x")],
        vec![],
    ] {
        let values = table(&pairs);
        let lookup = |k: &str| -> Option<&str> {
            values.iter().find(|(key, _)| key == k).map(|(_, v)| v.as_str())
        };
        assert_eq!(t.render_with(&lookup), t.render(&values));
    }
}
