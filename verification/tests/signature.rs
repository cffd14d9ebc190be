use fondy_checkout::decimal::{i64_to_decimal, u64_to_decimal};
use fondy_checkout::digest::to_hex;
use fondy_checkout::error::FondyError;
use fondy_checkout::json::{JsonNumber, JsonObject, JsonValue};
use fondy_checkout::keys::{compare_keys, same_key, KeyOrder};
use fondy_checkout::signature::{
    calculate_signature, object_signing_string, object_signing_string_without, scalar_to_text,
    sign_text, signing_string,
};

fn text(s: &str) -> JsonValue {
    JsonValue::String(s.to_string())
}

fn object(entries: Vec<(&str, JsonValue)>) -> JsonValue {
    let mut object = JsonObject::new();
    for (key, value) in entries {
        object.insert(key.to_string(), value);
    }
    JsonValue::Object(object)
}

#[test]
fn signing_is_deterministic() {
    let params = object(vec![("b", text("2")), ("a", text("1"))]);
    let first = calculate_signature("s", &params).unwrap();
    let second = calculate_signature("s", &params).unwrap();
    assert_eq!(first, second);
}

#[test]
fn signing_ignores_insertion_order() {
    let one = object(vec![("b", text("2")), ("a", text("1"))]);
    let other = object(vec![("a", text("1")), ("b", text("2"))]);
    assert_eq!(signing_string("s", &one).unwrap(), "s|1|2");
    assert_eq!(signing_string("s", &other).unwrap(), "s|1|2");
    let expected = "d23e993c700f484f2438f5672232ee0fa523b627";
    assert_eq!(calculate_signature("s", &one).unwrap(), expected);
    assert_eq!(calculate_signature("s", &other).unwrap(), expected);
}

#[test]
fn signing_skips_values_that_are_not_scalar() {
    let params = object(vec![
        ("a", text("1")),
        (
            "b",
            JsonValue::Array(vec![
                JsonValue::Number(JsonNumber::Unsigned(1)),
                JsonValue::Number(JsonNumber::Unsigned(2)),
            ]),
        ),
        ("c", JsonValue::Null),
        ("d", text("2")),
    ]);
    assert_eq!(signing_string("s", &params).unwrap(), "s|1|2");
}

#[test]
fn signing_skips_nested_objects() {
    let params = object(vec![("a", text("1")), ("o", object(vec![("x", text("9"))]))]);
    assert_eq!(signing_string("s", &params).unwrap(), "s|1");
}

#[test]
fn known_vector() {
    let params = object(vec![
        ("order_id", text("X")),
        ("amount", JsonValue::Number(JsonNumber::Unsigned(100))),
    ]);
    assert_eq!(signing_string("test", &params).unwrap(), "test|100|X");
    assert_eq!(
        calculate_signature("test", &params).unwrap(),
        "9f8793c9a3f7de565257d35e4c873b6741871f9b"
    );
}

#[test]
fn empty_mapping_signs_the_secret_alone() {
    let params = object(vec![]);
    assert_eq!(signing_string("s", &params).unwrap(), "s");
    assert_eq!(
        calculate_signature("s", &params).unwrap(),
        "a0f1490a20d0211c997b44bc357e1972deab8ae3"
    );
}

#[test]
fn booleans_and_numbers_are_written_without_quotes() {
    let params = object(vec![
        ("d", text("x")),
        ("c", JsonValue::Number(JsonNumber::Decimal("1.5".to_string()))),
        ("b", JsonValue::Number(JsonNumber::Signed(-5))),
        ("a", JsonValue::Bool(true)),
    ]);
    assert_eq!(signing_string("s", &params).unwrap(), "s|true|-5|1.5|x");
    assert_eq!(
        calculate_signature("s", &params).unwrap(),
        "923c64fb0ba93f3cd8012bdd7977d322018d9599"
    );
}

#[test]
fn separator_inside_a_value_is_not_escaped() {
    let params = object(vec![("a", text("x|y")), ("b", text("\"q\""))]);
    assert_eq!(signing_string("s", &params).unwrap(), "s|x|y|\"q\"");
}

#[test]
fn names_are_ordered_byte_by_byte() {
    // Upper case stands before lower case, and a prefix before its extensions.
    let params = object(vec![
        ("b", text("4")),
        ("ab", text("3")),
        ("a", text("2")),
        ("B", text("1")),
    ]);
    assert_eq!(signing_string("s", &params).unwrap(), "s|1|2|3|4");
}

#[test]
fn value_that_is_no_mapping_is_refused() {
    let expected = FondyError::SignatureError("Json data must be dictionary".to_string());
    assert_eq!(calculate_signature("s", &text("a")), Err(expected.clone()));
    assert_eq!(calculate_signature("s", &JsonValue::Null), Err(expected.clone()));
    assert_eq!(calculate_signature("s", &JsonValue::Array(vec![])), Err(expected.clone()));
    assert_eq!(signing_string("s", &JsonValue::Bool(true)), Err(expected));
}

#[test]
fn inserting_a_present_name_replaces_its_value() {
    let mut params = JsonObject::new();
    params.insert("a".to_string(), text("1"));
    params.insert("b".to_string(), text("2"));
    params.insert("a".to_string(), text("3"));
    assert_eq!(params.len(), 2);
    assert_eq!(params.key_at(0), "a");
    assert_eq!(params.get("a"), Some(&text("3")));
    assert_eq!(params.get("c"), None);
    assert_eq!(params.position("b"), Some(1));
    assert_eq!(object_signing_string("s", &params), "s|3|2");
}

#[test]
fn sign_text_is_sha1_in_lower_case_hex() {
    assert_eq!(
        sign_text("hello world"),
        Some("2aae6c35c94fcfb415dbe95f408b9ce91ee846ed".to_string())
    );
}

#[test]
fn hex_of_bytes() {
    assert_eq!(to_hex(&[]), "");
    assert_eq!(to_hex(&[0x00, 0x0f, 0xa0, 0xff, 0x1b]), "000fa0ff1b");
}

#[test]
fn decimal_of_integers() {
    assert_eq!(u64_to_decimal(0), "0");
    assert_eq!(u64_to_decimal(7), "7");
    assert_eq!(u64_to_decimal(100), "100");
    assert_eq!(u64_to_decimal(u64::MAX), "18446744073709551615");
    assert_eq!(i64_to_decimal(0), "0");
    assert_eq!(i64_to_decimal(-1), "-1");
    assert_eq!(i64_to_decimal(42), "42");
    assert_eq!(i64_to_decimal(i64::MIN), "-9223372036854775808");
    assert_eq!(i64_to_decimal(i64::MAX), "9223372036854775807");
}

#[test]
fn scalar_texts() {
    assert_eq!(scalar_to_text(&JsonValue::Bool(false)), Some("false".to_string()));
    assert_eq!(scalar_to_text(&JsonValue::Bool(true)), Some("true".to_string()));
    assert_eq!(
        scalar_to_text(&JsonValue::Number(JsonNumber::Unsigned(12))),
        Some("12".to_string())
    );
    assert_eq!(scalar_to_text(&text("a b")), Some("a b".to_string()));
    assert_eq!(scalar_to_text(&JsonValue::Null), None);
    assert_eq!(scalar_to_text(&JsonValue::Array(vec![])), None);
}

#[test]
fn key_comparison() {
    assert_eq!(compare_keys("a", "b"), KeyOrder::Before);
    assert_eq!(compare_keys("b", "a"), KeyOrder::After);
    assert_eq!(compare_keys("a", "a"), KeyOrder::Same);
    assert_eq!(compare_keys("", "a"), KeyOrder::Before);
    assert_eq!(compare_keys("amount", "order_id"), KeyOrder::Before);
    assert_eq!(compare_keys("Z", "a"), KeyOrder::Before);
    assert_eq!(compare_keys("z", "\u{e9}"), KeyOrder::Before);
    assert!(same_key("signature", "signature"));
    assert!(!same_key("signature", "signatur"));
}

#[test]
fn signing_without_a_name_passes_over_its_entry() {
    let mut params = JsonObject::new();
    params.insert("b".to_string(), text("2"));
    params.insert("signature".to_string(), text("old"));
    params.insert("a".to_string(), text("1"));
    assert_eq!(object_signing_string_without("s", &params, "signature"), "s|1|2");
    assert_eq!(object_signing_string_without("s", &params, "a"), "s|2|old");
    assert_eq!(object_signing_string_without("s", &params, "b"), "s|1|old");
    assert_eq!(object_signing_string_without("s", &params, "absent"), "s|1|2|old");
    assert_eq!(object_signing_string("s", &params), "s|1|2|old");
}

#[test]
fn signatures_have_forty_hex_digits() {
    let params = object(vec![("a", text("1"))]);
    let signature = calculate_signature("s", &params).unwrap();
    assert_eq!(signature, "ea2a2059343d12f8315d15683c0c370f47ef3f62");
    assert_eq!(signature.len(), 40);
    assert_eq!(sign_text("").map(|s| s.len()), Some(40));
}
