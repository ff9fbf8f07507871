use llm_tool::uri_template::match_uri_template;

#[test]
fn exact_match_no_variables() {
    let m = match_uri_template("config://app", "config://app").expect("should match");
    assert!(m.is_empty());
}

#[test]
fn no_match_different_literal() {
    assert!(match_uri_template("config://app", "config://other").is_none());
}

#[test]
fn single_trailing_variable_captures_rest() {
    let m = match_uri_template("file:///{path}", "file:///etc/hosts").expect("should match");
    assert_eq!(m.get("path").map(String::as_str), Some("etc/hosts"));
}

#[test]
fn multiple_variables() {
    let m = match_uri_template("file:///logs/{date}/{app}.log", "file:///logs/2024-01-01/server.log")
        .expect("should match");
    assert_eq!(m.get("date").map(String::as_str), Some("2024-01-01"));
    assert_eq!(m.get("app").map(String::as_str), Some("server"));
}

#[test]
fn variable_stops_at_delimiter() {
    let m = match_uri_template("x://{a}/{b}", "x://one/two").expect("should match");
    assert_eq!(m.get("a").map(String::as_str), Some("one"));
    assert_eq!(m.get("b").map(String::as_str), Some("two"));
}

#[test]
fn prefix_mismatch_returns_none() {
    assert!(match_uri_template("x://{a}", "y://foo").is_none());
}

#[test]
fn unterminated_template_variable_returns_none() {
    assert!(match_uri_template("x://{a", "x://foo").is_none());
}

#[test]
fn missing_delimiter_in_uri_returns_none() {
    assert!(match_uri_template("x://{a}/end", "x://noslash").is_none());
}

#[test]
fn trailing_literal_must_match() {
    assert!(match_uri_template("f://{a}.log", "f://name.txt").is_none());
}

#[test]
fn empty_variable_value_is_allowed() {
    let m = match_uri_template("a://{x}/b", "a:///b").expect("should match");
    assert_eq!(m.get("x").map(String::as_str), Some(""));
}

#[test]
fn longer_uri_than_literal_template_returns_none() {
    assert!(match_uri_template("a://b", "a://bc").is_none());
}

#[test]
fn repeated_variable_keeps_last_value() {
    let m = match_uri_template("r://{v}/{v}", "r://one/two").expect("should match");
    assert_eq!(m.get("v").map(String::as_str), Some("two"));
    assert!(m.get("w").is_none());
}

#[test]
fn adjacent_variables_capture_nothing_before_the_next() {
    let m = match_uri_template("r://{a}{b}", "r://xyz").expect("should match");
    assert_eq!(m.get("a").map(String::as_str), Some(""));
    assert_eq!(m.get("b").map(String::as_str), Some("xyz"));
}

#[test]
fn non_ascii_values_are_captured_whole() {
    let m = match_uri_template("doc://{name}.md", "doc://résumé.md").expect("should match");
    assert_eq!(m.get("name").map(String::as_str), Some("résumé"));
}

#[test]
fn matched_values_expand_back_to_the_uri() {
    let cases = [
        ("file:///logs/{date}/{app}.log", "file:///logs/2024-01-01/server.log", vec!["date", "app"]),
        ("x://{a}/{b}", "x://one/two/three", vec!["a", "b"]),
        ("a://{x}/b", "a:///b", vec!["x"]),
        ("config://app", "config://app", vec![]),
    ];
    for (template, uri, names) in cases {
        let m = match_uri_template(template, uri).expect("should match");
        let mut expanded = template.to_string();
        for name in names {
            let value = m.get(name).expect("bound");
            expanded = expanded.replacen(&format!("{{{name}}}"), value, 1);
        }
        assert_eq!(expanded, uri);
    }
}

#[test]
fn matched_keys_are_the_template_variables() {
    let m = match_uri_template("file:///logs/{date}/{app}.log", "file:///logs/2024-01-01/server.log").unwrap();
    assert!(m.get("date").is_some() && m.get("app").is_some());
    assert!(m.get("log").is_none() && m.get("file").is_none());
    let lit = match_uri_template("config://app", "config://app").unwrap();
    assert!(lit.is_empty());
    assert!(match_uri_template("config://app", "config://apps").is_none());
}

#[test]
fn matched_map_read_in_template_order_gives_back_the_uri() {
    let template = "repo://{owner}/{name}/tree";
    let uri = "repo://alice/tools/tree";
    let m = match_uri_template(template, uri).expect("should match");
    let owner = m.get("owner").unwrap();
    let name = m.get("name").unwrap();
    assert_eq!(format!("repo://{owner}/{name}/tree"), uri);
}
