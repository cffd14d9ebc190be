use fondy_checkout::application::AppConfig;
use fondy_checkout::error::FondyError;
use fondy_checkout::json::{JsonNumber, JsonObject, JsonValue};
use fondy_checkout::request::{
    build_priced_request, build_request, callback_urls, new_request, request_body,
    sign_parameters, BuyItemParams, PurchaseRequest,
};
use fondy_checkout::signature::calculate_signature;

fn text(s: &str) -> JsonValue {
    JsonValue::String(s.to_string())
}

fn config() -> AppConfig {
    AppConfig::new("https://shop.example/".to_string(), 1396424, "test".to_string())
}

fn without_signature(signed: &JsonObject) -> JsonObject {
    let mut rest = JsonObject::new();
    for i in 0..signed.len() {
        if signed.key_at(i) != "signature" {
            rest.insert(signed.key_at(i).to_string(), clone_value(signed.value_at(i)));
        }
    }
    rest
}

fn clone_value(value: &JsonValue) -> JsonValue {
    match value {
        JsonValue::Null => JsonValue::Null,
        JsonValue::Bool(b) => JsonValue::Bool(*b),
        JsonValue::Number(n) => JsonValue::Number(n.clone()),
        JsonValue::String(s) => JsonValue::String(s.clone()),
        JsonValue::Array(items) => JsonValue::Array(items.iter().map(clone_value).collect()),
        JsonValue::Object(object) => JsonValue::Object(without_signature(object)),
    }
}

#[test]
fn callback_urls_are_joined_to_the_site_url() {
    assert_eq!(
        callback_urls("https://shop.example/"),
        Ok((
            "https://shop.example/browser_redirect_callback_url".to_string(),
            "https://shop.example/purchase_server_callback".to_string()
        ))
    );
}

#[test]
fn joining_replaces_the_last_segment_of_a_base_without_slash() {
    assert_eq!(
        callback_urls("https://shop.example/a/b"),
        Ok((
            "https://shop.example/a/browser_redirect_callback_url".to_string(),
            "https://shop.example/a/purchase_server_callback".to_string()
        ))
    );
}

#[test]
fn malformed_site_url_is_a_url_error() {
    assert_eq!(
        callback_urls("not an address"),
        Err(FondyError::UrlError("not an address".to_string()))
    );
    assert_eq!(callback_urls(""), Err(FondyError::UrlError("".to_string())));
    assert_eq!(
        callback_urls("mailto:a@shop.example"),
        Err(FondyError::UrlError("mailto:a@shop.example".to_string()))
    );
    let buy = BuyItemParams { item_id: 42 };
    let config = AppConfig::new("::".to_string(), 1, "test".to_string());
    assert_eq!(
        build_request(&config, &buy, "o-1".to_string()),
        Err(FondyError::UrlError("::".to_string()))
    );
}

#[test]
fn request_for_an_item() {
    let request = PurchaseRequest::for_item(
        "o-1".to_string(),
        42,
        "https://shop.example/back".to_string(),
        "https://shop.example/report".to_string(),
    );
    assert_eq!(
        request,
        PurchaseRequest {
            order_id: "o-1".to_string(),
            amount: 100,
            currency: "RUB".to_string(),
            order_description: "My product description".to_string(),
            product_id: "42".to_string(),
            response_url: "https://shop.example/back".to_string(),
            server_callback_url: "https://shop.example/report".to_string(),
            protocol_version: "1.0.1".to_string(),
        }
    );
    assert_eq!(
        PurchaseRequest::for_item("o".to_string(), -7, String::new(), String::new()).product_id,
        "-7"
    );
}

#[test]
fn parameters_of_a_request() {
    let request = PurchaseRequest::for_item(
        "o-1".to_string(),
        42,
        "https://shop.example/back".to_string(),
        "https://shop.example/report".to_string(),
    );
    let parameters = request.parameters(1396424);
    let expected: Vec<(&str, JsonValue)> = vec![
        ("order_id", text("o-1")),
        ("merchant_id", JsonValue::Number(JsonNumber::Unsigned(1396424))),
        ("order_desc", text("My product description")),
        ("amount", JsonValue::Number(JsonNumber::Signed(100))),
        ("currency", text("RUB")),
        ("version", text("1.0.1")),
        ("server_callback_url", text("https://shop.example/report")),
        ("response_url", text("https://shop.example/back")),
        ("product_id", text("42")),
    ];
    assert_eq!(parameters.len(), expected.len());
    for (i, (key, value)) in expected.iter().enumerate() {
        assert_eq!(parameters.key_at(i), *key);
        assert_eq!(parameters.value_at(i), value);
    }
}

#[test]
fn signature_is_stored_last() {
    let mut parameters = JsonObject::new();
    parameters.insert("order_id".to_string(), text("X"));
    parameters.insert("amount".to_string(), JsonValue::Number(JsonNumber::Unsigned(100)));
    let signed = sign_parameters("test", parameters).unwrap();
    assert_eq!(signed.len(), 3);
    assert_eq!(signed.key_at(0), "order_id");
    assert_eq!(signed.key_at(1), "amount");
    assert_eq!(signed.key_at(2), "signature");
    assert_eq!(signed.value_at(2), &text("9f8793c9a3f7de565257d35e4c873b6741871f9b"));
}

#[test]
fn a_signature_that_is_present_is_replaced_in_place() {
    let mut parameters = JsonObject::new();
    parameters.insert("signature".to_string(), text("old"));
    parameters.insert("a".to_string(), text("1"));
    let signed = sign_parameters("s", parameters).unwrap();
    assert_eq!(signed.len(), 2);
    assert_eq!(signed.key_at(0), "signature");
    // The old signature is a string, so it is signed like any other entry.
    let mut again = JsonObject::new();
    again.insert("signature".to_string(), text("old"));
    again.insert("a".to_string(), text("1"));
    let expected = calculate_signature("s", &JsonValue::Object(again)).unwrap();
    assert_eq!(signed.value_at(0), &text(&expected));
}

#[test]
fn built_request_is_signed_over_its_own_parameters() {
    let buy = BuyItemParams { item_id: 42 };
    let signed = build_request(&config(), &buy, "o-1".to_string()).unwrap();
    assert_eq!(signed.len(), 10);
    assert_eq!(signed.get("product_id"), Some(&text("42")));
    assert_eq!(signed.get("order_id"), Some(&text("o-1")));
    assert_eq!(signed.get("merchant_id"), Some(&JsonValue::Number(JsonNumber::Unsigned(1396424))));
    assert_eq!(
        signed.get("response_url"),
        Some(&text("https://shop.example/browser_redirect_callback_url"))
    );
    assert_eq!(
        signed.get("server_callback_url"),
        Some(&text("https://shop.example/purchase_server_callback"))
    );
    assert_eq!(signed.key_at(9), "signature");
    let expected =
        calculate_signature("test", &JsonValue::Object(without_signature(&signed))).unwrap();
    assert_eq!(signed.get("signature"), Some(&text(&expected)));
}

#[test]
fn new_requests_have_new_order_ids() {
    let buy = BuyItemParams { item_id: 42 };
    let one = new_request(&config(), &buy).unwrap();
    let other = new_request(&config(), &buy).unwrap();
    let id = |signed: &JsonObject| match signed.get("order_id") {
        Some(JsonValue::String(id)) => id.clone(),
        _ => panic!("no order identifier"),
    };
    let first = id(&one);
    assert_ne!(first, id(&other));
    assert_eq!(first.len(), 36);
    for (i, c) in first.chars().enumerate() {
        if i == 8 || i == 13 || i == 18 || i == 23 {
            assert_eq!(c, '-');
        } else {
            assert!(c.is_ascii_digit() || ('a'..='f').contains(&c));
        }
    }
    assert_eq!(first.chars().nth(14), Some('4'));
    assert!(matches!(first.chars().nth(19), Some('8' | '9' | 'a' | 'b')));
}

#[test]
fn body_wraps_the_parameters_under_request() {
    let mut parameters = JsonObject::new();
    parameters.insert("a".to_string(), text("1"));
    let mut same = JsonObject::new();
    same.insert("a".to_string(), text("1"));
    let mut expected = JsonObject::new();
    expected.insert("request".to_string(), JsonValue::Object(same));
    assert_eq!(request_body(parameters), JsonValue::Object(expected));
}

#[test]
fn price_and_currency_can_be_given() {
    let request = PurchaseRequest::priced(
        "o-1".to_string(),
        2550,
        "EUR".to_string(),
        7,
        "https://shop.example/back".to_string(),
        "https://shop.example/report".to_string(),
    );
    assert_eq!(request.amount, 2550);
    assert_eq!(request.currency, "EUR");
    assert_eq!(request.product_id, "7");
    assert_eq!(request.protocol_version, "1.0.1");
    let buy = BuyItemParams { item_id: 7 };
    let signed =
        build_priced_request(&config(), &buy, "o-1".to_string(), 2550, "EUR".to_string())
            .unwrap();
    assert_eq!(signed.get("amount"), Some(&JsonValue::Number(JsonNumber::Signed(2550))));
    assert_eq!(signed.get("currency"), Some(&text("EUR")));
    let expected =
        calculate_signature("test", &JsonValue::Object(without_signature(&signed))).unwrap();
    assert_eq!(signed.get("signature"), Some(&text(&expected)));
    // The price that every item has for now.
    let default = build_request(&config(), &buy, "o-1".to_string()).unwrap();
    assert_eq!(default.get("amount"), Some(&JsonValue::Number(JsonNumber::Signed(100))));
    assert_eq!(default.get("currency"), Some(&text("RUB")));
}
