use browser_window::javascript::{escape_string, JsNumber, JsValue};
use num_bigfloat::BigFloat;

fn number_text(s: &str) -> String {
    BigFloat::parse(s).unwrap().to_string()
}

fn num(s: &str) -> JsValue {
    JsValue::Number(JsNumber::parse(s).unwrap())
}

#[test]
fn escape_plain_text_is_kept() {
    assert_eq!(escape_string("abc XYZ 019 @*_+-./"), "abc XYZ 019 @*_+-./");
    assert_eq!(escape_string(""), "");
}

#[test]
fn escape_quotes_backslashes_and_line_terminators() {
    assert_eq!(escape_string("it's"), "it\\'s");
    assert_eq!(escape_string("a\\b"), "a\\\\b");
    assert_eq!(escape_string("\"q\""), "\\\"q\\\"");
    assert_eq!(escape_string("l1\nl2\r"), "l1\\nl2\\r");
    assert_eq!(escape_string("x\u{2028}y\u{2029}"), "x\\u2028y\\u2029");
    assert_eq!(escape_string("é"), "\\é");
}

#[test]
fn string_value_is_a_single_quoted_literal() {
    assert_eq!(JsValue::String("it's".to_string()).to_string(), "'it\\'s'");
    assert_eq!(JsValue::String("it's".to_string()).to_string_unenclosed(), "it's");
}

#[test]
fn plain_values_to_string() {
    assert_eq!(JsValue::Null.to_string(), "null");
    assert_eq!(JsValue::Undefined.to_string(), "undefined");
    assert_eq!(JsValue::Boolean(true).to_string(), "true");
    assert_eq!(JsValue::Boolean(false).to_string(), "false");
    assert_eq!(JsValue::Other("window.x".to_string()).to_string(), "window.x");
    assert_eq!(JsValue::Null.to_string_unenclosed(), "null");
}

#[test]
fn array_to_string() {
    let v = JsValue::Array(vec![num("1"), JsValue::Boolean(true), JsValue::Null]);
    assert_eq!(v.to_string(), format!("[{},true,null]", number_text("1")));
    assert_eq!(JsValue::Array(vec![]).to_string(), "[]");
}

#[test]
fn object_to_string() {
    let v = JsValue::Object(vec![
        ("a".to_string(), JsValue::Boolean(true)),
        ("b".to_string(), JsValue::String("x".to_string())),
    ]);
    assert_eq!(v.to_string(), "{\"a\":true\"b\":'x'}");
    assert_eq!(JsValue::Object(vec![]).to_string(), "{}");
}

#[test]
fn number_parse() {
    assert_eq!(JsNumber::parse("12").unwrap().text(), number_text("12"));
    assert_eq!(JsNumber::parse("-2.5").unwrap().text(), number_text("-2.5"));
    assert!(JsNumber::parse("abc").is_none());
    assert!(JsNumber::parse("").is_none());
    assert_ne!(JsNumber::parse("7").unwrap().text(), "");
}

#[test]
fn from_string_simple_values() {
    assert!(matches!(JsValue::from_string(""), JsValue::Other(s) if s.is_empty()));
    assert!(matches!(JsValue::from_string("null"), JsValue::Null));
    assert!(matches!(JsValue::from_string("undefined"), JsValue::Undefined));
    assert!(matches!(JsValue::from_string("true"), JsValue::Boolean(true)));
    assert!(matches!(JsValue::from_string("false"), JsValue::Boolean(false)));
    assert!(matches!(JsValue::from_string("\"hi\""), JsValue::String(s) if s == "hi"));
    assert!(matches!(JsValue::from_string("abc"), JsValue::Other(s) if s == "abc"));
}

#[test]
fn from_string_numbers() {
    match JsValue::from_string("42") {
        JsValue::Number(n) => assert_eq!(n.text(), number_text("42")),
        other => panic!("not a number: {:?}", other),
    }
    match JsValue::from_string("1x") {
        JsValue::Number(n) => assert_eq!(n.text(), number_text("1")),
        other => panic!("not a number: {:?}", other),
    }
}

#[test]
fn from_string_arrays_and_objects() {
    let v = JsValue::from_string("[1,true,\"s\"]");
    assert_eq!(v.to_string(), format!("[{},true,'s']", number_text("1")));
    let o = JsValue::from_string("{a:1,b:null,c}");
    assert_eq!(o.to_string(), format!("{{\"a\":{}\"b\":null}}", number_text("1")));
    let dup = JsValue::from_string("{a:1,b:2,a:3}");
    assert_eq!(
        dup.to_string(),
        format!("{{\"a\":{}\"b\":{}}}", number_text("3"), number_text("2"))
    );
}

#[test]
fn try_from_string_refuses_a_lone_quote() {
    assert!(JsValue::try_from_string("\"").is_none());
    assert!(JsValue::try_from_string("[\"]").is_none());
    assert!(JsValue::try_from_string("{k:\"}").is_none());
    assert!(matches!(JsValue::try_from_string("true"), Some(JsValue::Boolean(true))));
}

#[test]
fn literal_round_trip_example() {
    let written = "a'b\\c\nd";
    let text = JsValue::String(written.to_string()).to_string();
    assert_eq!(text, "'a\\'b\\\\c\\nd'");
}

#[test]
fn duplicate_keeps_the_value() {
    let v = JsValue::from_string("[1,{a:true}]");
    assert_eq!(v.duplicate().to_string(), v.to_string());
}

#[test]
fn only_numbers_that_overflow_the_parser_are_refused() {
    // The parser's exponent would fall below i32::MIN.
    assert!(JsValue::try_from_string("1e-2147483639").is_none());
    assert!(JsValue::try_from_string("1e-2147483610").is_none());
    assert!(JsValue::try_from_string("[1,2e-2147483610]").is_none());
    // Long but harmless exponents are read, as the parser reads them.
    for text in ["1e1234567890", "1e0000000001", "2E1234567890", "1e-2147483609", "1e999999999"] {
        match JsValue::try_from_string(text) {
            Some(JsValue::Number(n)) => assert_eq!(n.text(), number_text(text)),
            other => panic!("not a number: {:?}", other),
        }
    }
    match JsValue::try_from_string("1 xe-2147483639") {
        Some(JsValue::Number(n)) => assert_eq!(n.text(), number_text("1")),
        other => panic!("not a number: {:?}", other),
    }
    match JsValue::try_from_string("[1e0000000001]") {
        Some(JsValue::Array(a)) => assert_eq!(a.len(), 1),
        other => panic!("not an array: {:?}", other),
    }
    assert!(JsNumber::parse("-1e-2147483600").is_some());
}

#[test]
fn clone_keeps_the_value() {
    let v = JsValue::from_string("[true,{k:null}]");
    assert_eq!(v.clone().to_string(), v.to_string());
}
