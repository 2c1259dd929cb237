use price_sync::json::Json;

fn text(s: &str) -> Json {
    Json::Text(s.to_string())
}

#[test]
fn parse_reads_nested_members() {
    let doc = Json::parse("{\"data\":{\"node\":{\"url\":\"https://x\"}}}").unwrap();
    let url = doc.at(&["data", "node", "url"]).unwrap();
    assert_eq!(url.as_text().unwrap(), "https://x");
}

#[test]
fn parse_rejects_what_is_not_json() {
    assert!(Json::parse("{\"data\":").is_none());
    assert!(Json::parse("").is_none());
    assert!(Json::parse("{\"a\":1} trailing").is_none());
}

#[test]
fn parse_carries_every_kind_of_value() {
    let doc = Json::parse("[null, true, false, 12.5, \"s\", [], {}]").unwrap();
    assert_eq!(
        doc,
        Json::List(vec![
            Json::Null,
            Json::Bool(true),
            Json::Bool(false),
            Json::Number,
            text("s"),
            Json::List(vec![]),
            Json::Record(vec![]),
        ])
    );
}

#[test]
fn parse_keeps_each_key_with_its_value() {
    let doc = Json::parse("{\"b\":\"2\",\"a\":\"1\"}").unwrap();
    assert_eq!(doc.member("a"), Some(&text("1")));
    assert_eq!(doc.member("b"), Some(&text("2")));
    assert_eq!(doc.member("c"), None);
}

#[test]
fn parse_reads_escapes_in_strings() {
    let doc = Json::parse("\"gid:\\/\\/shopify\\/1\"").unwrap();
    assert_eq!(doc, text("gid://shopify/1"));
}

#[test]
fn member_is_none_for_values_that_are_no_objects() {
    assert_eq!(Json::Null.member("a"), None);
    assert_eq!(text("a").member("a"), None);
    assert_eq!(Json::List(vec![text("a")]).member("a"), None);
}

#[test]
fn member_takes_the_first_entry_with_the_key() {
    let doc = Json::Record(vec![
        ("k".to_string(), text("first")),
        ("k".to_string(), text("second")),
    ]);
    assert_eq!(doc.member("k"), Some(&text("first")));
}

#[test]
fn item_reads_elements_within_the_array() {
    let list = Json::List(vec![text("a"), text("b")]);
    assert_eq!(list.item(0), Some(&text("a")));
    assert_eq!(list.item(1), Some(&text("b")));
    assert_eq!(list.item(2), None);
    assert_eq!(Json::Null.item(0), None);
}

#[test]
fn as_text_gives_the_string_of_a_string_only() {
    assert_eq!(text("x").as_text(), Some(&"x".to_string()));
    assert_eq!(Json::Number.as_text(), None);
    assert_eq!(Json::Null.as_text(), None);
    assert_eq!(Json::List(vec![text("x")]).as_text(), None);
}

#[test]
fn at_follows_a_path_and_stops_where_it_breaks() {
    let doc = Json::parse("{\"a\":{\"b\":[1]}}").unwrap();
    assert_eq!(doc.at(&[]), Some(&doc));
    assert_eq!(doc.at(&["a", "b"]), Some(&Json::List(vec![Json::Number])));
    assert_eq!(doc.at(&["a", "c"]), None);
    assert_eq!(doc.at(&["a", "b", "c"]), None);
}
