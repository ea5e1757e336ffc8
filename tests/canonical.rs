use arbiter::digest::fingerprint;
use arbiter::json::{canonical_json, JsonNumber, JsonValue};

fn obj(entries: Vec<(&str, JsonValue)>) -> JsonValue {
    JsonValue::Object(entries.into_iter().map(|(k, v)| (k.to_string(), v)).collect())
}

fn num(i: i64) -> JsonValue {
    JsonValue::Number(JsonNumber::new(i, 0))
}

#[test]
fn fingerprint_ignores_key_order() {
    let a = obj(vec![("a", num(1)), ("b", num(2))]);
    let b = obj(vec![("b", num(2)), ("a", num(1))]);
    assert_eq!(canonical_json(&a), "{\"a\":1,\"b\":2}");
    assert_eq!(fingerprint(&a), fingerprint(&b));
}

#[test]
fn fingerprint_ignores_number_notation() {
    let one_point_zero = obj(vec![("x", JsonValue::Number(JsonNumber::new(10, -1)))]);
    let one_e_zero = obj(vec![("x", JsonValue::Number(JsonNumber::new(1, 0)))]);
    assert_eq!(canonical_json(&one_point_zero), "{\"x\":1}");
    assert_eq!(fingerprint(&one_point_zero), fingerprint(&one_e_zero));
}

#[test]
fn numbers_normalise() {
    let n = JsonNumber::new(1500, -2);
    assert_eq!((n.mantissa, n.exponent), (15, 0));
    let z = JsonNumber::new(0, 7);
    assert_eq!((z.mantissa, z.exponent), (0, 0));
    assert_eq!(canonical_json(&JsonValue::Number(JsonNumber::new(-25, -1))), "-2.5");
}

#[test]
fn canonical_text_of_nested_values() {
    let v = obj(vec![
        ("z", JsonValue::Array(vec![JsonValue::Null, JsonValue::Bool(true), JsonValue::Str("q\"\n".to_string())])),
        ("A", obj(vec![])),
        ("m", JsonValue::Bool(false)),
    ]);
    assert_eq!(canonical_json(&v), "{\"A\":{},\"m\":false,\"z\":[null,true,\"q\\\"\\n\"]}");
}

#[test]
fn control_characters_are_escaped() {
    let v = JsonValue::Str("\u{1}\t".to_string());
    assert_eq!(canonical_json(&v), "\"\\u0001\\t\"");
}

#[test]
fn fingerprint_is_sha256_of_canonical_text() {
    let v = obj(vec![("a", num(1))]);
    assert_eq!(fingerprint(&v), arbiter::digest::hash_hex("{\"a\":1}"));
}

fn parsed(text: &str) -> Option<(i64, i64)> {
    JsonNumber::parse(text).map(|n| (n.mantissa, n.exponent))
}

#[test]
fn number_texts_parse_to_normal_form() {
    assert_eq!(parsed("1.0"), Some((1, 0)));
    assert_eq!(parsed("1e0"), Some((1, 0)));
    assert_eq!(parsed("1E+2"), Some((1, 2)));
    assert_eq!(parsed("-2.50e-3"), Some((-25, -4)));
    assert_eq!(parsed("0"), Some((0, 0)));
    assert_eq!(parsed("120"), Some((12, 1)));
    assert_eq!(parsed("abc"), None);
    assert_eq!(parsed("1."), None);
    assert_eq!(parsed("1e"), None);
    assert_eq!(parsed(""), None);
    assert_eq!(parsed("99999999999999999999"), None);
}

#[test]
fn equal_numbers_in_other_notation_fingerprint_alike() {
    let a = obj(vec![("x", JsonValue::Number(JsonNumber::parse("1.0").unwrap()))]);
    let b = obj(vec![("x", JsonValue::Number(JsonNumber::parse("1e0").unwrap()))]);
    assert_eq!(fingerprint(&a), fingerprint(&b));
}

#[test]
fn numbers_are_written_in_jcs_form() {
    let text = |m: i64, e: i64| canonical_json(&JsonValue::Number(JsonNumber::new(m, e)));
    assert_eq!(text(100, 0), "100");
    assert_eq!(text(15, -1), "1.5");
    assert_eq!(text(1, 20), "100000000000000000000");
    assert_eq!(text(1, 21), "1e+21");
    assert_eq!(text(125, 30), "1.25e+32");
    assert_eq!(text(1, -6), "0.000001");
    assert_eq!(text(1, -7), "1e-7");
    assert_eq!(text(-5, -1), "-0.5");
    assert_eq!(text(0, 0), "0");
    assert_eq!(text(123456, -3), "123.456");
}
