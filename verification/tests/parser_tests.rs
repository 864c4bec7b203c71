use catalog::parser::parse_url;

#[test]
fn parse_collection_query() {
    let parsed = parse_url("/collection?name=Sci-Fi&create=true");
    assert_eq!(parsed.endpoint, "/collection");
    assert_eq!(parsed.params.get("name"), Some(&Some("Sci-Fi".to_string())));
    assert_eq!(parsed.params.get("create"), Some(&Some("true".to_string())));
    assert_eq!(parsed.params.get("isbn"), None);
    assert!(!parsed.params.any_value_absent());
}

#[test]
fn parse_path_without_query() {
    let parsed = parse_url("/book");
    assert_eq!(parsed.endpoint, "/book");
    assert_eq!(parsed.params.get("isbn"), None);
    assert_eq!(parsed.params.get(""), None);
    assert!(!parsed.params.any_value_absent());
}

#[test]
fn parse_key_without_equals_has_absent_value() {
    let parsed = parse_url("/book?isbn");
    assert_eq!(parsed.endpoint, "/book");
    assert_eq!(parsed.params.get("isbn"), Some(&None));
    assert!(parsed.params.any_value_absent());
}

#[test]
fn parse_trailing_equals_is_present_and_empty() {
    let parsed = parse_url("/book?isbn=");
    assert_eq!(parsed.params.get("isbn"), Some(&Some(String::new())));
    assert!(!parsed.params.any_value_absent());
}

#[test]
fn parse_empty_query_component() {
    let parsed = parse_url("/book?");
    assert_eq!(parsed.endpoint, "/book");
    assert_eq!(parsed.params.get(""), Some(&None));
    assert!(parsed.params.any_value_absent());
}

#[test]
fn parse_repeated_key_keeps_later_occurrence() {
    let parsed = parse_url("/book?isbn=1&isbn=2");
    assert_eq!(parsed.params.get("isbn"), Some(&Some("2".to_string())));
}

#[test]
fn parse_value_may_contain_question_mark() {
    let parsed = parse_url("/collection?name=a?b");
    assert_eq!(parsed.endpoint, "/collection");
    assert_eq!(parsed.params.get("name"), Some(&Some("a?b".to_string())));
}

#[test]
fn parse_value_keeps_second_equals() {
    let parsed = parse_url("/collection?name=a=b");
    assert_eq!(parsed.params.get("name"), Some(&Some("a=b".to_string())));
}
