use browser_window::javascript::JsValue;
use num_bigfloat::BigFloat;

fn number_text(s: &str) -> String {
    BigFloat::parse(s).unwrap().to_string()
}

#[test]
fn json_document_values() {
    let v = JsValue::from_json("{\"a\": [1, true, null, \"s\"], \"b\": false}");
    assert_eq!(
        v.to_string(),
        format!("{{\"a\":[{},true,null,'s']\"b\":false}}", number_text("1"))
    );
}

#[test]
fn json_numbers_keep_their_value() {
    assert_eq!(JsValue::from_json("-2.5").to_string(), number_text("-2.5"));
    assert_eq!(JsValue::from_json("120").to_string(), number_text("120"));
    assert_eq!(JsValue::from_json("0").to_string(), number_text("0"));
}

#[test]
fn json_strings_and_plain_values() {
    assert!(matches!(JsValue::from_json("\"x y\""), JsValue::String(s) if s == "x y"));
    assert!(matches!(JsValue::from_json("null"), JsValue::Null));
    assert!(matches!(JsValue::from_json("true"), JsValue::Boolean(true)));
}

#[test]
fn json_that_is_no_json_is_kept_as_text() {
    assert!(matches!(JsValue::from_json("{oops"), JsValue::Other(s) if s == "{oops"));
}

#[test]
fn json_that_overflows_the_parser_is_refused() {
    let long = format!("0.{}", "0".repeat(32769));
    assert!(JsValue::try_from_json(&long).is_none());
    let longest = format!("0.{}", "0".repeat(32768));
    assert!(JsValue::try_from_json(&longest).is_some());
    let fine = format!("0.{}1", "0".repeat(100));
    match JsValue::try_from_json(&fine) {
        Some(JsValue::Number(n)) => assert_eq!(n.text(), number_text("1e-101")),
        other => panic!("not a number: {:?}", other),
    }
    // A nonzero integer part: the mantissa outgrows u64 long before.
    let big = format!("1.{}", "0".repeat(40000));
    match JsValue::try_from_json(&big) {
        Some(JsValue::Number(n)) => assert_eq!(n.text(), number_text("1")),
        other => panic!("not a number: {:?}", other),
    }
    assert!(matches!(JsValue::try_from_json("[true]"), Some(JsValue::Array(a)) if a.len() == 1));
}
