use thunder::json::{as_i64, compact, parse_json, pretty, with_field, with_text, Json};

fn parsed(text: &str) -> Json {
    parse_json(text).unwrap()
}

fn field(name: &str, value: Json) -> Json {
    Json::Object(with_field(Vec::new(), name, value))
}

#[test]
fn values_are_read_out_of_text() {
    assert_eq!(parsed("null"), Json::Null);
    assert_eq!(parsed(" true "), Json::Bool(true));
    assert_eq!(parsed("-12"), Json::Int(-12));
    assert_eq!(parsed("\"a\\u00e9\""), Json::Str("aé".to_string()));
    assert_eq!(parsed("[1,[2]]"), Json::Array(vec![Json::Int(1), Json::Array(vec![Json::Int(2)])]));
    assert_eq!(parsed("{\"a\":{\"b\":1}}"), field("a", field("b", Json::Int(1))));
}

#[test]
fn text_that_is_no_json_is_refused_with_a_reason() {
    assert_eq!(
        parse_json("<html>").unwrap_err(),
        serde_json::from_str::<serde_json::Value>("<html>").unwrap_err().to_string()
    );
    assert!(parse_json("{\"a\":1} x").is_err());
    assert!(parse_json("").is_err());
}

#[test]
fn other_numbers_survive() {
    for text in ["1.5", "18446744073709551615", "-2.0", "1e300"] {
        let j = parsed(text);
        assert!(matches!(j, Json::Number(_)));
        assert_eq!(as_i64(&j), None);
        let again: serde_json::Value = serde_json::from_str(text).unwrap();
        assert_eq!(compact(parsed(text)), again.to_string());
    }
    assert_eq!(parsed("9223372036854775807"), Json::Int(i64::MAX));
    assert_eq!(parsed("-9223372036854775808"), Json::Int(i64::MIN));
}

#[test]
fn values_print_compact_and_indented() {
    let text = "{\"b\":[1,null,false],\"a\":\"x\\n\\\"版\"}";
    let value: serde_json::Value = serde_json::from_str(text).unwrap();
    assert_eq!(compact(parsed(text)), serde_json::to_string(&value).unwrap());
    assert_eq!(pretty(parsed(text)), serde_json::to_string_pretty(&value).unwrap());
    assert_eq!(compact(parsed(text)), "{\"a\":\"x\\n\\\"版\",\"b\":[1,null,false]}");
    assert_eq!(pretty(parsed("{\"a\":1}")), "{\n  \"a\": 1\n}");
    assert_eq!(pretty(parsed("[]")), "[]");
}

#[test]
fn one_string_field_prints_as_that_field() {
    let fields = with_text(Vec::new(), "phase", "pause");
    assert_eq!(compact(Json::Object(fields)), "{\"phase\":\"pause\"}");
}

#[test]
fn what_is_printed_reads_back() {
    let odd = "\u{0}\u{1f}\"\\/\u{7f}\u{2028}版\u{1f600}";
    let fields = with_text(Vec::new(), odd, odd);
    let fields = with_field(fields, "n", Json::Int(i64::MIN));
    let fields = with_field(fields, "list", Json::Array(vec![Json::Null, Json::Bool(true)]));
    let text = compact(Json::Object(fields));
    let back = parsed(&text);
    assert_eq!(back.text_of(odd), odd);
    assert_eq!(back.integer_of("n"), i64::MIN);
    assert_eq!(back.items_of("list").unwrap().len(), 2);
    assert_eq!(parsed(&pretty(parsed(&text))), back);
}

#[test]
fn deep_nesting_reads_back() {
    let mut deep = Json::Int(1);
    for _ in 0..100 {
        deep = Json::Array(vec![deep]);
    }
    let text = compact(deep);
    assert_eq!(text, format!("{}1{}", "[".repeat(100), "]".repeat(100)));
    assert_eq!(compact(parsed(&text)), text);
}

#[test]
fn the_later_of_two_fields_with_one_name_counts() {
    let fields = with_text(Vec::new(), "a", "x");
    let fields = with_text(fields, "a", "y");
    let j = Json::Object(fields);
    assert_eq!(j.text_of("a"), "y");
    assert_eq!(compact(j), "{\"a\":\"y\"}");
    assert_eq!(parsed("{\"a\":1,\"a\":2}").integer_of("a"), 2);
}

#[test]
fn integers_come_as_numbers_or_quoted() {
    assert_eq!(as_i64(&Json::Int(7)), Some(7));
    assert_eq!(as_i64(&Json::Str("7".to_string())), Some(7));
    assert_eq!(as_i64(&Json::Str(" -7\n".to_string())), Some(-7));
    assert_eq!(as_i64(&Json::Str("7.0".to_string())), None);
    assert_eq!(as_i64(&Json::Str("".to_string())), None);
    assert_eq!(as_i64(&Json::Bool(true)), None);
    assert_eq!(as_i64(&Json::Null), None);
}

#[test]
fn fields_default_where_they_are_missing_or_of_another_kind() {
    let j = parsed("{\"s\":\"x\",\"n\":3,\"b\":true,\"l\":[1]}");
    assert_eq!(j.text_of("s"), "x");
    assert_eq!(j.text_of("n"), "");
    assert_eq!(j.text_of("z"), "");
    assert_eq!(j.integer_of("n"), 3);
    assert_eq!(j.integer_of("s"), 0);
    assert!(j.is_true("b"));
    assert!(!j.is_true("n"));
    assert_eq!(j.items_of("l").unwrap().len(), 1);
    assert!(j.items_of("s").is_none());
    assert!(Json::Null.get("a").is_none());
    assert_eq!(j.get("s").unwrap().as_str(), Some("x"));
    assert_eq!(j.get("n").unwrap().as_str(), None);
}
