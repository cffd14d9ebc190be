//! What the gateway answers to a checkout request: an envelope that holds
//! either the address of the hosted checkout page or the gateway's refusal.

use vstd::prelude::*;
use vstd::string::StringExecFns;
use crate::error::{ErrorView, FondyError};
use crate::json::{i32_field, object_field, text_field, Entries, JsonModel, JsonObject, JsonValue};

verus! {

/// The gateway's wrapping of every payload under the name `response`.
#[derive(Debug, Clone, PartialEq, Eq)]
pub struct FondyResponse<D> {
    pub response: D,
}

impl<D> FondyResponse<D> {
    /// Takes the payload out of its envelope.
    pub fn into_response(self) -> (payload: D)
        ensures
            payload == self.response,
    {
        self.response
    }
}

/// An answer of the gateway: the payload asked for, or a refusal, each in
/// its envelope.
#[derive(Debug, Clone, PartialEq, Eq)]
pub enum FondyDataOrErrorResponse<D, E> {
    /// The payload asked for.
    Data(FondyResponse<D>),
    /// The gateway's refusal.
    Error(FondyResponse<E>),
}

impl<D, E> FondyDataOrErrorResponse<D, E> {
    /// The answer as a `Result`, both payloads freed of their envelopes.
    pub fn into_result(self) -> (result: Result<D, E>)
        ensures
            result == match self {
                FondyDataOrErrorResponse::Data(ok) => Ok::<D, E>(ok.response),
                FondyDataOrErrorResponse::Error(err) => Err::<D, E>(err.response),
            },
    {
        match self {
            FondyDataOrErrorResponse::Data(ok) => Ok(ok.into_response()),
            FondyDataOrErrorResponse::Error(err) => Err(err.into_response()),
        }
    }
}

/// The gateway's refusal of a request.
#[derive(Debug, Clone, PartialEq, Eq)]
pub struct FondyInvalidResponse {
    pub response_status: String,
    pub error_code: i32,
    pub error_message: String,
}

/// A refusal as contracts see it.
pub struct InvalidResponseView {
    pub response_status: Seq<char>,
    pub error_code: int,
    pub error_message: Seq<char>,
}

impl View for FondyInvalidResponse {
    type V = InvalidResponseView;

    open spec fn view(&self) -> InvalidResponseView {
        InvalidResponseView {
            response_status: self.response_status@,
            error_code: self.error_code as int,
            error_message: self.error_message@,
        }
    }
}

/// The gateway's acceptance of a checkout request: where the buyer pays.
#[derive(Debug, Clone, PartialEq, Eq)]
pub struct FondyRedirectUrlResponse {
    pub checkout_url: String,
    pub payment_id: String,
}

/// An acceptance as contracts see it.
pub struct RedirectUrlView {
    pub checkout_url: Seq<char>,
    pub payment_id: Seq<char>,
}

impl View for FondyRedirectUrlResponse {
    type V = RedirectUrlView;

    open spec fn view(&self) -> RedirectUrlView {
        RedirectUrlView { checkout_url: self.checkout_url@, payment_id: self.payment_id@ }
    }
}

/// An answer as contracts see it: the acceptance or the refusal.
pub type AnswerView = Result<RedirectUrlView, InvalidResponseView>;

/// The view of a decoded answer.
pub open spec fn answer_view(
    answer: FondyDataOrErrorResponse<FondyRedirectUrlResponse, FondyInvalidResponse>,
) -> AnswerView {
    match answer {
        FondyDataOrErrorResponse::Data(data) => Ok(data.response@),
        FondyDataOrErrorResponse::Error(error) => Err(error.response@),
    }
}

/// The acceptance that a payload holds: it has the shape of one where it
/// names a checkout address and a payment, both as strings. Other entries
/// are passed over.
pub open spec fn redirect_shape(payload: Entries) -> Option<RedirectUrlView> {
    match (text_field(payload, "checkout_url"@), text_field(payload, "payment_id"@)) {
        (Some(checkout_url), Some(payment_id)) => Some(RedirectUrlView { checkout_url, payment_id }),
        _ => None,
    }
}

/// The refusal that a payload holds: it has the shape of one where it names
/// a status and a message as strings and an error code as an integer of 32
/// bits. Other entries are passed over.
pub open spec fn refusal_shape(payload: Entries) -> Option<InvalidResponseView> {
    match (
        text_field(payload, "response_status"@),
        i32_field(payload, "error_code"@),
        text_field(payload, "error_message"@),
    ) {
        (Some(response_status), Some(error_code), Some(error_message)) => Some(
            InvalidResponseView { response_status, error_code, error_message },
        ),
        _ => None,
    }
}

/// The payload of a body: the object that an object holds under `response`.
pub open spec fn payload_of(body: JsonModel) -> Option<Entries> {
    match body {
        JsonModel::Object(envelope) => object_field(envelope, "response"@),
        _ => None,
    }
}

/// What a body of the gateway says. The shape of an acceptance is tried
/// first, then that of a refusal; a body with neither says nothing.
pub open spec fn decoded_answer(body: JsonModel) -> Option<AnswerView> {
    match payload_of(body) {
        Some(payload) => {
            if redirect_shape(payload) is Some {
                Some(Ok(redirect_shape(payload)->0))
            } else if refusal_shape(payload) is Some {
                Some(Err(refusal_shape(payload)->0))
            } else {
                None
            }
        },
        None => None,
    }
}

/// The error for a body that is neither an acceptance nor a refusal.
pub open spec fn unknown_answer() -> ErrorView {
    ErrorView::DecodeError("neither a checkout address nor a refusal"@)
}

/// The error with which the gateway's refusal is passed on.
pub open spec fn rejected(refusal: InvalidResponseView) -> ErrorView {
    ErrorView::GatewayRejected(refusal)
}

/// Reads an acceptance out of a payload.
fn read_redirect(payload: &JsonObject) -> (read: Option<FondyRedirectUrlResponse>)
    ensures
        read is Some == redirect_shape(payload@) is Some,
        read matches Some(redirect) ==> redirect_shape(payload@) == Some(redirect@),
{
    match (payload.get_text("checkout_url"), payload.get_text("payment_id")) {
        (Some(checkout_url), Some(payment_id)) => Some(
            FondyRedirectUrlResponse { checkout_url, payment_id },
        ),
        _ => None,
    }
}

/// Reads a refusal out of a payload.
fn read_refusal(payload: &JsonObject) -> (read: Option<FondyInvalidResponse>)
    ensures
        read is Some == refusal_shape(payload@) is Some,
        read matches Some(refusal) ==> refusal_shape(payload@) == Some(refusal@),
{
    match (
        payload.get_text("response_status"),
        payload.get_i32("error_code"),
        payload.get_text("error_message"),
    ) {
        (Some(response_status), Some(error_code), Some(error_message)) => Some(
            FondyInvalidResponse { response_status, error_code, error_message },
        ),
        _ => None,
    }
}

/// Decodes a body of the gateway into an acceptance or a refusal.
///
/// Fails, with a `DecodeError`, exactly where the body has neither shape.
pub fn decode_answer(body: &JsonValue) -> (result: Result<
    FondyDataOrErrorResponse<FondyRedirectUrlResponse, FondyInvalidResponse>,
    FondyError,
>)
    ensures
        match result {
            Ok(answer) => decoded_answer(body@) == Some(answer_view(answer)),
            Err(error) => decoded_answer(body@) is None && error@ == unknown_answer(),
        },
{
    let payload = match body {
        JsonValue::Object(envelope) => envelope.get_object("response"),
        _ => None,
    };
    match payload {
        Some(payload) => {
            match read_redirect(payload) {
                Some(redirect) => {
                    return Ok(FondyDataOrErrorResponse::Data(FondyResponse { response: redirect }));
                },
                None => {},
            }
            match read_refusal(payload) {
                Some(refusal) => {
                    return Ok(FondyDataOrErrorResponse::Error(FondyResponse { response: refusal }));
                },
                None => {},
            }
        },
        None => {},
    }
    Err(FondyError::DecodeError(String::from_str("neither a checkout address nor a refusal")))
}

/// What a body of the gateway comes to for the purchase: the acceptance, or
/// the error that rejects the attempt.
pub open spec fn checkout_of_body(body: JsonModel) -> Result<RedirectUrlView, ErrorView> {
    match decoded_answer(body) {
        Some(Ok(redirect)) => Ok(redirect),
        Some(Err(refusal)) => Err(rejected(refusal)),
        None => Err(unknown_answer()),
    }
}

/// The view of the outcome of a checkout call.
pub open spec fn checkout_view(result: Result<FondyRedirectUrlResponse, FondyError>) -> Result<
    RedirectUrlView,
    ErrorView,
> {
    match result {
        Ok(redirect) => Ok(redirect@),
        Err(error) => Err(error@),
    }
}

/// Decodes a body of the gateway and takes it as the outcome of the
/// checkout call: the acceptance, a `GatewayRejected` with the gateway's
/// refusal, or a `DecodeError`.
pub fn checkout_from_body(body: &JsonValue) -> (result: Result<
    FondyRedirectUrlResponse,
    FondyError,
>)
    ensures
        checkout_view(result) == checkout_of_body(body@),
{
    match decode_answer(body) {
        Ok(answer) => match answer.into_result() {
            Ok(redirect) => Ok(redirect),
            Err(refusal) => Err(FondyError::GatewayRejected(refusal)),
        },
        Err(error) => Err(error),
    }
}

} // verus!
