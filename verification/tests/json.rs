use amusing::json::Json;

fn object(members: Vec<(&str, Json)>) -> Json {
    Json::Object(members.into_iter().map(|(k, v)| (k.to_string(), v)).collect())
}

#[test]
fn parse_reads_members() {
    let doc = Json::parse("{\"status\":\"ok\",\"n\":3}").unwrap();
    assert_eq!(doc.get("n").and_then(|n| n.as_u64()), Some(3));
    assert_eq!(doc.get("status").and_then(|s| s.as_str()), Some("ok"));
    assert_eq!(doc.get("missing"), None);
}

#[test]
fn parse_refuses_what_is_no_json() {
    assert_eq!(Json::parse("{\"status\":"), None);
    assert_eq!(Json::parse(""), None);
    assert_eq!(Json::parse("{} {}"), None);
}

#[test]
fn parse_tells_numbers_apart() {
    assert_eq!(Json::parse("7"), Some(Json::Unsigned(7)));
    assert_eq!(Json::parse("-5"), Some(Json::Negative(-5)));
    assert_eq!(Json::parse("18446744073709551615"), Some(Json::Unsigned(u64::MAX)));
    assert_eq!(Json::parse("1.5"), Some(Json::Decimal("1.5".to_string())));
    assert_eq!(Json::parse("1.5").unwrap().as_u64(), None);
    assert_eq!(Json::parse("-5").unwrap().as_u64(), None);
}

#[test]
fn parse_reads_every_kind_of_value() {
    let doc = Json::parse("[null, true, \"a\", [1], {\"k\": false}]").unwrap();
    let expected = Json::List(vec![
        Json::Null,
        Json::Bool(true),
        Json::Text("a".to_string()),
        Json::List(vec![Json::Unsigned(1)]),
        object(vec![("k", Json::Bool(false))]),
    ]);
    assert_eq!(doc, expected);
    let items = doc.as_array().unwrap();
    assert!(items[0].is_null());
    assert_eq!(items[1].as_bool(), Some(true));
    assert!(items[4].is_object());
    assert!(!items[3].is_object());
    assert_eq!(items[4].as_object().map(|m| m.len()), Some(1));
}

#[test]
fn to_text_is_compact() {
    let doc = object(vec![("kind", Json::text("seek")), ("seconds", Json::Negative(-5))]);
    assert_eq!(doc.to_text(), "{\"kind\":\"seek\",\"seconds\":-5}");
}

#[test]
fn to_text_writes_every_kind_of_value() {
    let doc = Json::List(vec![
        Json::Null,
        Json::Bool(false),
        Json::Unsigned(12),
        Json::Negative(-3),
        Json::text("a\"b"),
    ]);
    assert_eq!(doc.to_text(), "[null,false,12,-3,\"a\\\"b\"]");
}

#[test]
fn text_round_trip_gives_the_document_back() {
    let doc = object(vec![
        ("a", Json::List(vec![Json::Unsigned(1), Json::Negative(-2), Json::Null])),
        ("b", object(vec![("c", Json::text("d\u{e9}\n"))])),
        ("e", Json::Bool(true)),
    ]);
    assert_eq!(Json::parse(&doc.to_text()), Some(doc));
}

#[test]
fn get_takes_the_last_member_of_a_name() {
    let doc = object(vec![("a", Json::Unsigned(1)), ("a", Json::Unsigned(2))]);
    assert_eq!(doc.get("a"), Some(&Json::Unsigned(2)));
    assert_eq!(doc.to_text(), "{\"a\":2}");
}

#[test]
fn get_finds_nothing_outside_an_object() {
    assert_eq!(Json::List(vec![]).get("a"), None);
    assert_eq!(Json::Null.get("a"), None);
}

#[test]
fn from_i64_picks_the_variant_by_sign() {
    assert_eq!(Json::from_i64(-1), Json::Negative(-1));
    assert_eq!(Json::from_i64(0), Json::Unsigned(0));
    assert_eq!(Json::from_i64(i64::MAX), Json::Unsigned(i64::MAX as u64));
    assert_eq!(Json::from_i64(i64::MIN), Json::Negative(i64::MIN));
}

#[test]
fn texts_makes_a_list_of_strings() {
    let list = vec!["a".to_string(), "b".to_string()];
    assert_eq!(Json::texts(&list), Json::List(vec![Json::text("a"), Json::text("b")]));
    assert_eq!(Json::texts(&[]), Json::List(vec![]));
}

#[test]
fn a_decimal_is_read_by_its_spelling_and_written_as_null() {
    let doc = Json::parse("[1.5, 1e3, 2]").unwrap();
    assert_eq!(
        doc,
        Json::List(vec![
            Json::Decimal("1.5".to_string()),
            Json::Decimal("1000.0".to_string()),
            Json::Unsigned(2)
        ])
    );
    assert_eq!(doc.to_text(), "[null,null,2]");
    assert_eq!(Json::Decimal("true".to_string()).to_text(), "null");
    assert_eq!(Json::Negative(5).to_text(), "5");
}
