use monero_wallet_backend::json::{from_value, to_value, Json};

fn json(text: &str) -> Json {
    Json::parse(text).unwrap()
}

#[test]
fn text_is_read_and_written_compactly() {
    let text = r#" { "b" : [ 1 , -2 , 3.5 , 1e2 , true , null , "x\né" ] , "a" : { } } "#;
    assert_eq!(json(text).to_text(), "{\"a\":{},\"b\":[1,-2,3.5,100.0,true,null,\"x\\n\u{e9}\"]}");
    assert_eq!(json("18446744073709551615").to_text(), "18446744073709551615");
    assert_eq!(json("-9223372036854775808").to_text(), "-9223372036854775808");
    assert_eq!(json("18446744073709551616").to_text(), "1.8446744073709552e+19");
    assert_eq!(json("-0").to_text(), "-0.0");
    assert_eq!(json("0.1").to_text(), "0.1");
}

#[test]
fn what_was_written_reads_back() {
    for text in ["null", "true", "7", "-7", "2.5", "\"\"", "[]", "{}", "[[1],{\"a\":[-1.5]}]"] {
        let once = json(text).to_text();
        assert_eq!(once, text);
        assert_eq!(json(&once).to_text(), once);
    }
}

#[test]
fn a_text_that_is_no_json_says_why() {
    assert_eq!(Json::parse("").unwrap_err(), "EOF while parsing a value at line 1 column 0");
    assert_eq!(Json::parse("{\"a\":}").unwrap_err(), "expected value at line 1 column 6");
    assert_eq!(Json::parse("1 2").unwrap_err(), "trailing characters at line 1 column 3");
}

#[test]
fn of_two_fields_with_one_name_the_later_counts() {
    assert_eq!(json(r#"{"a":1,"a":2}"#).to_text(), r#"{"a":2}"#);
    let twice = Json::object().with("a", Json::Unsigned(1)).with("a", Json::text("x"));
    assert_eq!(twice.text_at("a"), Some("x"));
    assert_eq!(twice.to_text(), r#"{"a":"x"}"#);
    let mixed = Json::object()
        .with("b", Json::Unsigned(1))
        .with("a", Json::Unsigned(2))
        .with("b", Json::Unsigned(3))
        .with("c", Json::Unsigned(4))
        .with("b", Json::List(vec![Json::object().with("x", Json::Null).with("x", Json::Bool(true))]));
    assert_eq!(mixed.to_text(), r#"{"a":2,"b":[{"x":true}],"c":4}"#);
    assert_eq!(mixed.clone().to_text(), mixed.to_text());
}

#[test]
fn fields_are_read_by_kind() {
    let v = json(r#"{"t":"x","n":5,"m":-5,"b":true,"z":null}"#);
    assert_eq!(v.text_at("t"), Some("x"));
    assert_eq!(v.text_at("n"), None);
    assert_eq!(v.text_at("missing"), None);
    assert_eq!(v.text_or("n", "d"), "d");
    assert_eq!(v.unsigned_at("n"), 5);
    assert_eq!(v.unsigned_at("m"), 0);
    assert_eq!(v.unsigned_at("t"), 0);
    assert_eq!(v.bool_at("b"), Some(true));
    assert_eq!(v.bool_at("z"), None);
    assert!(matches!(v.get("z"), Some(Json::Null)));
    assert_eq!(v.get_or("missing", Json::Unsigned(9)).to_text(), "9");
    assert_eq!(v.get_or("m", Json::Unsigned(9)).to_text(), "-5");
    assert!(json("[1]").get("t").is_none());
}

#[test]
fn fields_are_set_on_objects_and_null() {
    assert!(json("{}").takes_fields() && Json::Null.takes_fields());
    assert!(!json("[]").takes_fields() && !json("1").takes_fields() && !json("\"a\"").takes_fields());
    assert_eq!(Json::Null.with("a", Json::Bool(false)).to_text(), r#"{"a":false}"#);
    assert_eq!(Json::text_or_null(None).to_text(), "null");
    assert_eq!(Json::text_or_null(Some("a")).to_text(), "\"a\"");
}

#[test]
fn values_cross_both_ways() {
    let text = r#"{"a":[1,-2,0.5,{"b":null}],"c":"d","e":true}"#;
    let value: serde_json::Value = serde_json::from_str(text).unwrap();
    assert_eq!(from_value(value.clone()).to_text(), text);
    assert_eq!(to_value(&from_value(value.clone())), value);
    let copy = json(text).clone();
    assert_eq!(copy.to_text(), text);
}
