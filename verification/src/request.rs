//! The parameters of a checkout request: what is sent to the gateway for one
//! purchase attempt, with its signature as the last entry.

use vstd::prelude::*;
use vstd::string::StringExecFns;
use crate::application::AppConfig;
use crate::decimal::{decimal_text, i64_to_decimal};
use crate::error::{ErrorView, FondyError};
use crate::json::{
    has_key, with_field, Entries, JsonModel, JsonNumber, JsonObject, JsonValue,
};
use crate::signature::{
    fits_sha1, object_signing_string, sign_text, signature_text, signing_text, text_too_long,
};

verus! {

/// The amount charged for an item, in minor units of the currency, until
/// prices come from a catalogue.
pub const DEFAULT_AMOUNT: i32 = 100;

/// The address that `relative` names when it is resolved against the
/// address `base`; `None` where one of the two cannot be read as an address.
pub uninterp spec fn joined_url(base: Seq<char>, relative: Seq<char>) -> Option<Seq<char>>;

/// The characters of a text that may be absent.
pub open spec fn text_of(text: Option<String>) -> Option<Seq<char>> {
    match text {
        Some(t) => Some(t@),
        None => None,
    }
}

/// Calls `url::Url::parse` on `base` and `url::Url::join` on what it gives,
/// with `relative`. The result is taken to be the resolved address as text,
/// and `None` where either call reports a parse error.
#[verifier::external_body]
pub(crate) fn join_url(base: &str, relative: &str) -> (joined: Option<String>)
    ensures
        text_of(joined) == joined_url(base@, relative@),
{
    match url::Url::parse(base) {
        Ok(parsed) => match parsed.join(relative) {
            Ok(joined) => Some(String::from(joined)),
            Err(_) => None,
        },
        Err(_) => None,
    }
}

/// Whether `c` is a hexadecimal digit in lower case.
pub open spec fn is_lower_hex(c: char) -> bool {
    ('0' <= c && c <= '9') || ('a' <= c && c <= 'f')
}

/// Whether `text` has the form of a random (version 4) UUID: 36 characters,
/// hyphens after the 8th, 12th, 16th and 20th hexadecimal digit, lower-case
/// hexadecimal digits elsewhere, the version digit `4` and a variant digit
/// from `8` to `b`.
pub open spec fn is_order_id(text: Seq<char>) -> bool {
    &&& text.len() == 36
    &&& forall|i: int|
        0 <= i < 36 ==> if i == 8 || i == 13 || i == 18 || i == 23 {
            #[trigger] text[i] == '-'
        } else {
            is_lower_hex(text[i])
        }
    &&& text[14] == '4'
    &&& (text[19] == '8' || text[19] == '9' || text[19] == 'a' || text[19] == 'b')
}

/// Calls `uuid::Uuid::new_v4` and writes the result with `to_string`. Each
/// call draws new random bits, so nothing is claimed of the value but its
/// form. The call does not return where the operating system gives no
/// random bits.
#[verifier::external_body]
pub(crate) fn new_order_id() -> (id: String)
    ensures
        is_order_id(id@),
{
    uuid::Uuid::new_v4().to_string()
}

/// What a buyer asks for.
#[derive(Debug, Clone, Copy, PartialEq, Eq)]
pub struct BuyItemParams {
    pub item_id: i32,
}

/// One purchase attempt as it is described to the gateway.
#[derive(Debug, Clone, PartialEq, Eq)]
pub struct PurchaseRequest {
    /// Identifies the attempt; never used for a second one.
    pub order_id: String,
    /// The amount in minor units of the currency.
    pub amount: i32,
    /// ISO 4217 code of the currency.
    pub currency: String,
    pub order_description: String,
    pub product_id: String,
    /// Where the gateway sends the buyer's browser afterwards.
    pub response_url: String,
    /// Where the gateway reports the payment's status.
    pub server_callback_url: String,
    pub protocol_version: String,
}

/// A purchase request as contracts see it.
pub struct PurchaseRequestView {
    pub order_id: Seq<char>,
    pub amount: int,
    pub currency: Seq<char>,
    pub order_description: Seq<char>,
    pub product_id: Seq<char>,
    pub response_url: Seq<char>,
    pub server_callback_url: Seq<char>,
    pub protocol_version: Seq<char>,
}

impl View for PurchaseRequest {
    type V = PurchaseRequestView;

    open spec fn view(&self) -> PurchaseRequestView {
        PurchaseRequestView {
            order_id: self.order_id@,
            amount: self.amount as int,
            currency: self.currency@,
            order_description: self.order_description@,
            product_id: self.product_id@,
            response_url: self.response_url@,
            server_callback_url: self.server_callback_url@,
            protocol_version: self.protocol_version@,
        }
    }
}

/// The request for one item at a price: the fixed description and protocol
/// version, and the item's number as the product.
pub open spec fn priced_request(
    order_id: Seq<char>,
    amount: int,
    currency: Seq<char>,
    item_id: int,
    response_url: Seq<char>,
    server_callback_url: Seq<char>,
) -> PurchaseRequestView {
    PurchaseRequestView {
        order_id,
        amount,
        currency,
        order_description: "My product description"@,
        product_id: decimal_text(item_id),
        response_url,
        server_callback_url,
        protocol_version: "1.0.1"@,
    }
}

/// The request for one item at the price that every item has for now.
pub open spec fn item_request(
    order_id: Seq<char>,
    item_id: int,
    response_url: Seq<char>,
    server_callback_url: Seq<char>,
) -> PurchaseRequestView {
    priced_request(
        order_id,
        DEFAULT_AMOUNT as int,
        "RUB"@,
        item_id,
        response_url,
        server_callback_url,
    )
}

/// The parameters that describe `request` to the gateway for the merchant
/// `merchant_id`, unsigned.
pub open spec fn request_entries(request: PurchaseRequestView, merchant_id: u64) -> Entries {
    seq![
        ("order_id"@, JsonModel::String(request.order_id)),
        ("merchant_id"@, JsonModel::Integer(merchant_id as int)),
        ("order_desc"@, JsonModel::String(request.order_description)),
        ("amount"@, JsonModel::Integer(request.amount)),
        ("currency"@, JsonModel::String(request.currency)),
        ("version"@, JsonModel::String(request.protocol_version)),
        ("server_callback_url"@, JsonModel::String(request.server_callback_url)),
        ("response_url"@, JsonModel::String(request.response_url)),
        ("product_id"@, JsonModel::String(request.product_id)),
    ]
}

/// `parameters` with their signature under `password` stored as `signature`.
pub open spec fn signed_entries(password: Seq<char>, parameters: Entries) -> Entries {
    with_field(
        parameters,
        "signature"@,
        JsonModel::String(signature_text(password, parameters)),
    )
}

/// The body that carries `parameters` to the gateway: an object that holds
/// them under `request`.
pub open spec fn body_model(parameters: Entries) -> JsonModel {
    JsonModel::Object(seq![("request"@, JsonModel::Object(parameters))])
}

/// What building the signed parameters of a purchase at a price comes to,
/// for the order identifier `order_id`.
pub open spec fn is_priced_build(
    config: AppConfig,
    item_id: int,
    order_id: Seq<char>,
    amount: int,
    currency: Seq<char>,
    result: Result<JsonObject, FondyError>,
) -> bool {
    let site = config.site_url@;
    let password = config.credentials.merchant_password@;
    let browser = joined_url(site, "browser_redirect_callback_url"@);
    let server = joined_url(site, "purchase_server_callback"@);
    if browser is Some && server is Some {
        let parameters = request_entries(
            priced_request(order_id, amount, currency, item_id, browser->0, server->0),
            config.credentials.merchant_id,
        );
        if fits_sha1(signing_text(password, parameters)) {
            result matches Ok(signed) && signed@ == signed_entries(password, parameters)
        } else {
            result matches Err(error) && error@ == text_too_long()
        }
    } else {
        result matches Err(error) && error@ == ErrorView::UrlError(site)
    }
}

/// What building the signed parameters of a purchase comes to at the price
/// that every item has for now.
pub open spec fn is_built_request(
    config: AppConfig,
    item_id: int,
    order_id: Seq<char>,
    result: Result<JsonObject, FondyError>,
) -> bool {
    is_priced_build(config, item_id, order_id, DEFAULT_AMOUNT as int, "RUB"@, result)
}

/// Puts `value` behind the last entry of `parameters`, under a name that is
/// new to them.
fn append(parameters: &mut JsonObject, key: &str, value: JsonValue)
    requires
        !has_key(old(parameters)@, key@),
    ensures
        final(parameters)@ == old(parameters)@.push((key@, value@)),
{
    parameters.insert(String::from_str(key), value);
}

impl PurchaseRequest {
    /// The request for one item at a price, under a new order identifier.
    pub fn priced(
        order_id: String,
        amount: i32,
        currency: String,
        item_id: i32,
        response_url: String,
        server_callback_url: String,
    ) -> (request: PurchaseRequest)
        ensures
            request@ == priced_request(
                order_id@,
                amount as int,
                currency@,
                item_id as int,
                response_url@,
                server_callback_url@,
            ),
    {
        PurchaseRequest {
            order_id,
            amount,
            currency,
            order_description: String::from_str("My product description"),
            product_id: i64_to_decimal(item_id as i64),
            response_url,
            server_callback_url,
            protocol_version: String::from_str("1.0.1"),
        }
    }

    /// The request for one item at the price that every item has for now,
    /// under a new order identifier.
    pub fn for_item(
        order_id: String,
        item_id: i32,
        response_url: String,
        server_callback_url: String,
    ) -> (request: PurchaseRequest)
        ensures
            request@ == item_request(
                order_id@,
                item_id as int,
                response_url@,
                server_callback_url@,
            ),
    {
        PurchaseRequest::priced(
            order_id,
            DEFAULT_AMOUNT,
            String::from_str("RUB"),
            item_id,
            response_url,
            server_callback_url,
        )
    }

    /// The parameters that describe this request to the gateway, unsigned.
    pub fn parameters(&self, merchant_id: u64) -> (parameters: JsonObject)
        ensures
            parameters@ == request_entries(self@, merchant_id),
    {
        proof {
            reveal_strlit("order_id");
            reveal_strlit("merchant_id");
            reveal_strlit("order_desc");
            reveal_strlit("amount");
            reveal_strlit("currency");
            reveal_strlit("version");
            reveal_strlit("server_callback_url");
            reveal_strlit("response_url");
            reveal_strlit("product_id");
            // Names of one length differ in their first character.
            assert("order_id"@[0] == 'o' && "currency"@[0] == 'c');
            assert("order_desc"@[0] == 'o' && "product_id"@[0] == 'p');
            assert("order_id"@.len() == 8 && "merchant_id"@.len() == 11);
            assert("order_desc"@.len() == 10 && "amount"@.len() == 6);
            assert("currency"@.len() == 8 && "version"@.len() == 7);
            assert("server_callback_url"@.len() == 19 && "response_url"@.len() == 12);
            assert("product_id"@.len() == 10);
        }
        let mut parameters = JsonObject::new();
        append(&mut parameters, "order_id", JsonValue::String(self.order_id.clone()));
        append(&mut parameters, "merchant_id", JsonValue::Number(JsonNumber::Unsigned(merchant_id)));
        append(&mut parameters, "order_desc", JsonValue::String(self.order_description.clone()));
        append(&mut parameters, "amount", JsonValue::Number(JsonNumber::Signed(self.amount as i64)));
        append(&mut parameters, "currency", JsonValue::String(self.currency.clone()));
        append(&mut parameters, "version", JsonValue::String(self.protocol_version.clone()));
        append(
            &mut parameters,
            "server_callback_url",
            JsonValue::String(self.server_callback_url.clone()),
        );
        append(&mut parameters, "response_url", JsonValue::String(self.response_url.clone()));
        append(&mut parameters, "product_id", JsonValue::String(self.product_id.clone()));
        assert(parameters@ =~= request_entries(self@, merchant_id));
        parameters
    }
}

/// The two addresses that the gateway is given for an attempt: where it
/// sends the buyer's browser, and where it reports the payment.
///
/// Fails, with a `UrlError` that holds `site_url`, where `site_url` is no
/// address or a callback path cannot be resolved against it.
pub fn callback_urls(site_url: &str) -> (result: Result<(String, String), FondyError>)
    ensures
        match result {
            Ok((browser, server)) => {
                &&& joined_url(site_url@, "browser_redirect_callback_url"@) == Some(browser@)
                &&& joined_url(site_url@, "purchase_server_callback"@) == Some(server@)
            },
            Err(error) => {
                &&& joined_url(site_url@, "browser_redirect_callback_url"@) is None || joined_url(
                    site_url@,
                    "purchase_server_callback"@,
                ) is None
                &&& error@ == ErrorView::UrlError(site_url@)
            },
        },
{
    let browser = join_url(site_url, "browser_redirect_callback_url");
    let server = join_url(site_url, "purchase_server_callback");
    match (browser, server) {
        (Some(browser), Some(server)) => Ok((browser, server)),
        _ => Err(FondyError::UrlError(String::from_str(site_url))),
    }
}

/// Signs `parameters` with `password` and stores the signature under
/// `signature`: behind the last entry, or in place of a signature that was
/// there.
///
/// Fails, with a `SignatureError`, where the text to be hashed is longer
/// than SHA-1 takes.
pub fn sign_parameters(password: &str, parameters: JsonObject) -> (result: Result<
    JsonObject,
    FondyError,
>)
    ensures
        match result {
            Ok(signed) => fits_sha1(signing_text(password@, parameters@)) && signed@
                == signed_entries(password@, parameters@),
            Err(error) => !fits_sha1(signing_text(password@, parameters@)) && error@
                == text_too_long(),
        },
{
    let text = object_signing_string(password, &parameters);
    match sign_text(text.as_str()) {
        Some(signature) => {
            let mut signed = parameters;
            signed.insert(String::from_str("signature"), JsonValue::String(signature));
            Ok(signed)
        },
        None => Err(FondyError::SignatureError(String::from_str("Signed text is too long"))),
    }
}

/// The signed parameters of a purchase of `buy` at the price `amount`, in
/// minor units of `currency`, under the order identifier `order_id`.
pub fn build_priced_request(
    config: &AppConfig,
    buy: &BuyItemParams,
    order_id: String,
    amount: i32,
    currency: String,
) -> (result: Result<JsonObject, FondyError>)
    ensures
        is_priced_build(*config, buy.item_id as int, order_id@, amount as int, currency@, result),
{
    match callback_urls(config.site_url.as_str()) {
        Ok((browser, server)) => {
            let request = PurchaseRequest::priced(
                order_id,
                amount,
                currency,
                buy.item_id,
                browser,
                server,
            );
            let parameters = request.parameters(config.credentials.merchant_id);
            sign_parameters(config.credentials.merchant_password.as_str(), parameters)
        },
        Err(error) => Err(error),
    }
}

/// The signed parameters of a purchase of `buy` at the price that every
/// item has for now, under the order identifier `order_id`.
pub fn build_request(config: &AppConfig, buy: &BuyItemParams, order_id: String) -> (result:
    Result<JsonObject, FondyError>)
    ensures
        is_built_request(*config, buy.item_id as int, order_id@, result),
{
    build_priced_request(config, buy, order_id, DEFAULT_AMOUNT, String::from_str("RUB"))
}

/// The signed parameters of a purchase of `buy`, under an order identifier
/// that is new.
pub fn new_request(config: &AppConfig, buy: &BuyItemParams) -> (result: Result<
    JsonObject,
    FondyError,
>)
    ensures
        exists|order_id: Seq<char>|
            is_order_id(order_id) && #[trigger] is_built_request(
                *config,
                buy.item_id as int,
                order_id,
                result,
            ),
{
    let order_id = new_order_id();
    build_request(config, buy, order_id)
}

/// The body that carries signed parameters to the gateway.
pub fn request_body(parameters: JsonObject) -> (body: JsonValue)
    ensures
        body@ == body_model(parameters@),
{
    let mut body = JsonObject::new();
    body.insert(String::from_str("request"), JsonValue::Object(parameters));
    assert(body@ =~= seq![("request"@, JsonModel::Object(parameters@))]);
    JsonValue::Object(body)
}

} // verus!
