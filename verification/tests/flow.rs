use fondy_checkout::application::AppConfig;
use fondy_checkout::error::FondyError;
use fondy_checkout::flow::{
    action_reply, begin_purchase, begin_purchase_as, browser_callback_reply, checkout_result,
    error_reply, notification_reply, redirect_decision, GatewayOutcome, HttpReply, PurchaseState,
};
use fondy_checkout::notification::{NotificationAction, OrderStatus, PaymentNotification};
use fondy_checkout::json::{JsonNumber, JsonObject, JsonValue};
use fondy_checkout::request::BuyItemParams;
use fondy_checkout::responses::{FondyInvalidResponse, FondyRedirectUrlResponse};
use fondy_checkout::signature::calculate_signature;

fn text(s: &str) -> JsonValue {
    JsonValue::String(s.to_string())
}

fn object(entries: Vec<(&str, JsonValue)>) -> JsonValue {
    let mut object = JsonObject::new();
    for (key, value) in entries {
        object.insert(key.to_string(), value);
    }
    JsonValue::Object(object)
}

fn config() -> AppConfig {
    AppConfig::new("https://shop.example/".to_string(), 1396424, "test".to_string())
}

fn success_body(checkout_url: &str) -> JsonValue {
    object(vec![(
        "response",
        object(vec![
            ("response_status", text("success")),
            ("checkout_url", text(checkout_url)),
            ("payment_id", text("p1")),
        ]),
    )])
}

fn failure_body() -> JsonValue {
    object(vec![(
        "response",
        object(vec![
            ("response_status", text("failure")),
            ("error_code", JsonValue::Number(JsonNumber::Unsigned(1001))),
            ("error_message", text("bad")),
        ]),
    )])
}

#[test]
fn test_buy_redirect() {
    let (state, call) = begin_purchase(&config(), BuyItemParams { item_id: 42 });
    assert_eq!(state, PurchaseState::Submitted);
    let call = call.unwrap();
    assert_eq!(call.url, "https://pay.fondy.eu/api/checkout/url");
    let parameters = match &call.body {
        JsonValue::Object(body) => match body.get("request") {
            Some(JsonValue::Object(parameters)) => parameters,
            _ => panic!("no parameters under `request`"),
        },
        _ => panic!("the body is no object"),
    };
    assert_eq!(parameters.get("product_id"), Some(&text("42")));
    assert!(matches!(parameters.get("order_id"), Some(JsonValue::String(id)) if id.len() == 36));
    let mut unsigned = JsonObject::new();
    for i in 0..parameters.len() {
        if parameters.key_at(i) != "signature" {
            let value = match parameters.value_at(i) {
                JsonValue::String(s) => JsonValue::String(s.clone()),
                JsonValue::Number(n) => JsonValue::Number(n.clone()),
                _ => panic!("a parameter that is no string and no number"),
            };
            unsigned.insert(parameters.key_at(i).to_string(), value);
        }
    }
    let expected = calculate_signature("test", &JsonValue::Object(unsigned)).unwrap();
    assert_eq!(parameters.get("signature"), Some(&text(&expected)));
    assert_eq!(parameters.key_at(parameters.len() - 1), "signature");

    let outcome =
        GatewayOutcome::Answered { status: 200, body: success_body("https://pay.example/x") };
    let state = state.complete(outcome);
    assert_eq!(state, PurchaseState::Redirected("https://pay.example/x".to_string()));
    let reply = state.reply().unwrap();
    assert_eq!(reply, HttpReply::SeeOther { location: "https://pay.example/x".to_string() });
    assert_eq!(reply.status(), 303);
    assert_eq!(reply.json_body(), None);
}

#[test]
fn transport_failure_is_a_transport_error() {
    let (state, _) = begin_purchase_as(&config(), BuyItemParams { item_id: 42 }, "o".to_string());
    let state = state.complete(GatewayOutcome::TransportFailed("connection refused".to_string()));
    assert_eq!(
        state,
        PurchaseState::Rejected(FondyError::TransportError("connection refused".to_string()))
    );
    assert!(!matches!(state, PurchaseState::Rejected(FondyError::GatewayRejected(_))));
    let reply = state.reply().unwrap();
    assert_eq!(reply.status(), 500);
    assert_eq!(
        reply,
        HttpReply::Failure { message: "gateway request failed: connection refused".to_string() }
    );
    assert_eq!(
        reply.json_body(),
        Some(object(vec![
            ("code", JsonValue::Number(JsonNumber::Unsigned(500))),
            ("message", text("gateway request failed: connection refused")),
        ]))
    );
}

#[test]
fn gateway_refusal_rejects_the_attempt() {
    let outcome = GatewayOutcome::Answered { status: 200, body: failure_body() };
    let state = PurchaseState::Submitted.complete(outcome);
    let refusal = FondyInvalidResponse {
        response_status: "failure".to_string(),
        error_code: 1001,
        error_message: "bad".to_string(),
    };
    assert_eq!(state, PurchaseState::Rejected(FondyError::GatewayRejected(refusal)));
    assert_eq!(
        state.reply(),
        Some(HttpReply::Failure { message: "gateway refused the request: bad".to_string() })
    );
}

#[test]
fn checkout_url_that_is_no_uri_rejects_the_attempt() {
    let outcome =
        GatewayOutcome::Answered { status: 200, body: success_body("https://pay example/x") };
    let state = PurchaseState::Submitted.complete(outcome);
    assert_eq!(
        state,
        PurchaseState::Rejected(FondyError::UrlError("https://pay example/x".to_string()))
    );
    let empty = GatewayOutcome::Answered { status: 200, body: success_body("") };
    assert_eq!(
        PurchaseState::Submitted.complete(empty),
        PurchaseState::Rejected(FondyError::UrlError(String::new()))
    );
}

#[test]
fn answers_that_cannot_be_read_are_decode_errors() {
    let status = FondyError::DecodeError("gateway answered with an error status".to_string());
    let bad_status = GatewayOutcome::Answered { status: 502, body: failure_body() };
    assert_eq!(checkout_result(bad_status), Err(status.clone()));
    let redirect_status =
        GatewayOutcome::Answered { status: 302, body: success_body("https://pay.example/x") };
    assert_eq!(checkout_result(redirect_status), Err(status.clone()));
    let unreadable =
        GatewayOutcome::Unreadable { status: 200, detail: "expected value".to_string() };
    assert_eq!(
        checkout_result(unreadable),
        Err(FondyError::DecodeError("expected value".to_string()))
    );
    let both = GatewayOutcome::Unreadable { status: 500, detail: "expected value".to_string() };
    assert_eq!(checkout_result(both), Err(status));
    let edge = GatewayOutcome::Answered { status: 299, body: success_body("https://pay.example/x") };
    assert!(checkout_result(edge).is_ok());
    let no_shape = GatewayOutcome::Answered { status: 200, body: JsonValue::Null };
    assert_eq!(
        checkout_result(no_shape),
        Err(FondyError::DecodeError("neither a checkout address nor a refusal".to_string()))
    );
}

#[test]
fn states_move_forward_only() {
    let buy = BuyItemParams { item_id: 1 };
    let initiated = PurchaseState::initiate(buy);
    assert_eq!(initiated, PurchaseState::Initiated(buy));
    assert!(!initiated.is_final());
    assert_eq!(initiated.reply(), None);
    // An attempt that is not signed has nothing to submit.
    let (still, call) = initiated.submit();
    assert_eq!(still, PurchaseState::Initiated(buy));
    assert_eq!(call, None);
    // An outcome reaches a submitted attempt only.
    let outcome = GatewayOutcome::TransportFailed("x".to_string());
    assert_eq!(still.complete(outcome), PurchaseState::Initiated(buy));
    let signed = PurchaseState::initiate(buy).sign(&config(), "o-1".to_string());
    assert!(matches!(signed, PurchaseState::Signed(_)));
    let again = signed.sign(&config(), "o-2".to_string());
    match &again {
        PurchaseState::Signed(parameters) => {
            assert_eq!(parameters.get("order_id"), Some(&text("o-1")));
        },
        _ => panic!("the attempt is no longer signed"),
    }
    let (submitted, call) = again.submit();
    assert_eq!(submitted, PurchaseState::Submitted);
    assert!(call.is_some());
    assert!(!submitted.is_final());
    // Final states stay.
    let rejected = PurchaseState::Rejected(FondyError::UrlError("u".to_string()));
    assert!(rejected.is_final());
    let outcome = GatewayOutcome::TransportFailed("x".to_string());
    assert_eq!(
        rejected.complete(outcome),
        PurchaseState::Rejected(FondyError::UrlError("u".to_string()))
    );
}

#[test]
fn malformed_site_url_rejects_before_any_call() {
    let config = AppConfig::new("shop".to_string(), 1, "test".to_string());
    let (state, call) = begin_purchase(&config, BuyItemParams { item_id: 42 });
    assert_eq!(state, PurchaseState::Rejected(FondyError::UrlError("shop".to_string())));
    assert_eq!(call, None);
    assert_eq!(
        state.reply(),
        Some(HttpReply::Failure { message: "malformed address: shop".to_string() })
    );
}

#[test]
fn redirect_is_decided_by_the_uri_check() {
    let redirect = || FondyRedirectUrlResponse {
        checkout_url: "https://pay.example/x".to_string(),
        payment_id: "p1".to_string(),
    };
    assert_eq!(
        redirect_decision(redirect(), true),
        PurchaseState::Redirected("https://pay.example/x".to_string())
    );
    assert_eq!(
        redirect_decision(redirect(), false),
        PurchaseState::Rejected(FondyError::UrlError("https://pay.example/x".to_string()))
    );
}

#[test]
fn error_messages() {
    let message = |error: FondyError| error.message();
    assert_eq!(
        message(FondyError::DecodeError("d".to_string())),
        "gateway response not understood: d"
    );
    assert_eq!(
        message(FondyError::SignatureError("s".to_string())),
        "signature not computed: s"
    );
    assert_eq!(message(FondyError::SignatureMismatch), "signature mismatch");
    assert_eq!(
        error_reply(&FondyError::UrlError("u".to_string())),
        HttpReply::Failure { message: "malformed address: u".to_string() }
    );
}

fn report(signature: &str) -> JsonValue {
    object(vec![
        ("order_id", text("o-1")),
        ("order_status", text("declined")),
        ("signature", text(signature)),
    ])
}

// The signature of `test|o-1|declined`.
const REPORT_SIGNATURE: &str = "f6a9d22b3254e79d2f61d677fb9bbfb9d4f2dd8e";

#[test]
fn notifications_are_acknowledged() {
    let reply = notification_reply("test", Some(&report(REPORT_SIGNATURE)));
    assert_eq!(reply, HttpReply::Acknowledged);
    assert_eq!(reply.status(), 200);
    assert_eq!(reply.json_body(), None);
}

#[test]
fn notification_with_a_wrong_signature_is_a_bad_request() {
    let reply = notification_reply("test", Some(&report("abc")));
    assert_eq!(reply, HttpReply::BadRequest { message: "signature mismatch".to_string() });
    assert_eq!(reply.status(), 400);
    assert_eq!(
        reply.json_body(),
        Some(object(vec![
            ("code", JsonValue::Number(JsonNumber::Unsigned(400))),
            ("message", text("signature mismatch")),
        ]))
    );
    assert_eq!(
        notification_reply("secret", Some(&report(REPORT_SIGNATURE))),
        HttpReply::BadRequest { message: "signature mismatch".to_string() }
    );
}

#[test]
fn body_that_is_no_report_is_a_bad_request() {
    let bad = HttpReply::BadRequest {
        message: "gateway response not understood: not a payment notification".to_string(),
    };
    assert_eq!(notification_reply("test", Some(&JsonValue::Null)), bad);
    assert_eq!(notification_reply("test", None), bad);
    assert_eq!(bad.status(), 400);
}

#[test]
fn actions_have_their_replies() {
    let trusted = PaymentNotification {
        order_id: "o-1".to_string(),
        order_status: OrderStatus::Declined,
        signature: REPORT_SIGNATURE.to_string(),
    };
    assert_eq!(action_reply(&NotificationAction::Process(trusted)), HttpReply::Acknowledged);
    assert_eq!(action_reply(&NotificationAction::AlreadyProcessed), HttpReply::Acknowledged);
    assert_eq!(
        action_reply(&NotificationAction::Reject(FondyError::SignatureMismatch)),
        HttpReply::BadRequest { message: "signature mismatch".to_string() }
    );
}

#[test]
fn browser_callback_greets_with_a_page() {
    let reply = browser_callback_reply();
    assert_eq!(reply, HttpReply::Page { html: "Success".to_string() });
    assert_eq!(reply.status(), 200);
}
