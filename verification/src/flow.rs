//! One purchase attempt from the buyer's request to the reply that ends it.
//!
//! An attempt is initiated, signed, submitted to the gateway and then either
//! redirected to the gateway's checkout page or rejected. The library decides
//! each step; the call to the gateway itself is made by whoever runs the
//! attempt, who hands back what came of it.

use vstd::prelude::*;
use vstd::string::StringExecFns;
use crate::application::AppConfig;
use crate::error::{message_text, ErrorView, FondyError};
use crate::json::{has_key, Entries, JsonModel, JsonNumber, JsonObject, JsonValue};
use crate::notification::{
    action_of, checked_report, entries_of, notification_of, signed_part, verified_notification,
    verify_notification, ActionView, NotificationAction, NotificationView,
};
use crate::signature::signature_text;
use crate::request::{
    body_model, build_request, is_built_request, is_order_id, new_order_id, request_body,
    BuyItemParams,
};
use crate::uri::{is_valid_uri, uri_is_valid};
use crate::responses::{
    checkout_from_body, checkout_of_body, checkout_view, FondyRedirectUrlResponse,
    RedirectUrlView,
};

verus! {

/// What came of the call to the gateway.
#[derive(Debug, PartialEq, Eq)]
pub enum GatewayOutcome {
    /// The call did not complete. Holds the transport's account of it.
    TransportFailed(String),
    /// The gateway answered with a body that is JSON.
    Answered { status: u16, body: JsonValue },
    /// The gateway answered with a body that is not JSON. Holds the parser's
    /// account of it.
    Unreadable { status: u16, detail: String },
}

/// An outcome as contracts see it.
pub enum OutcomeView {
    TransportFailed(Seq<char>),
    Answered { status: int, body: JsonModel },
    Unreadable { status: int, detail: Seq<char> },
}

impl View for GatewayOutcome {
    type V = OutcomeView;

    open spec fn view(&self) -> OutcomeView {
        match self {
            GatewayOutcome::TransportFailed(detail) => OutcomeView::TransportFailed(detail@),
            GatewayOutcome::Answered { status, body } => OutcomeView::Answered {
                status: *status as int,
                body: body@,
            },
            GatewayOutcome::Unreadable { status, detail } => OutcomeView::Unreadable {
                status: *status as int,
                detail: detail@,
            },
        }
    }
}

/// Whether an HTTP status reports success.
pub open spec fn is_success(status: int) -> bool {
    200 <= status < 300
}

/// The error for an answer whose status does not report success.
pub open spec fn failed_status() -> ErrorView {
    ErrorView::DecodeError("gateway answered with an error status"@)
}

/// What an outcome comes to for the purchase. A call that did not complete
/// is a transport error; an answer without a success status, or with a body
/// that cannot be read, is a decode error; any other answer is what its
/// body says.
pub open spec fn checkout_of_outcome(outcome: OutcomeView) -> Result<RedirectUrlView, ErrorView> {
    match outcome {
        OutcomeView::TransportFailed(detail) => Err(ErrorView::TransportError(detail)),
        OutcomeView::Answered { status, body } => if is_success(status) {
            checkout_of_body(body)
        } else {
            Err(failed_status())
        },
        OutcomeView::Unreadable { status, detail } => if is_success(status) {
            Err(ErrorView::DecodeError(detail))
        } else {
            Err(failed_status())
        },
    }
}

/// Takes what came of the call to the gateway as the outcome of the
/// checkout: the acceptance, or the error that rejects the attempt.
pub fn checkout_result(outcome: GatewayOutcome) -> (result: Result<
    FondyRedirectUrlResponse,
    FondyError,
>)
    ensures
        checkout_view(result) == checkout_of_outcome(outcome@),
{
    match outcome {
        GatewayOutcome::TransportFailed(detail) => Err(FondyError::TransportError(detail)),
        GatewayOutcome::Answered { status, body } => {
            if 200 <= status && status < 300 {
                checkout_from_body(&body)
            } else {
                Err(
                    FondyError::DecodeError(
                        String::from_str("gateway answered with an error status"),
                    ),
                )
            }
        },
        GatewayOutcome::Unreadable { status, detail } => {
            if 200 <= status && status < 300 {
                Err(FondyError::DecodeError(detail))
            } else {
                Err(
                    FondyError::DecodeError(
                        String::from_str("gateway answered with an error status"),
                    ),
                )
            }
        },
    }
}

/// A call to be made to the gateway: `body` is posted to `url` as JSON.
#[derive(Debug, PartialEq, Eq)]
pub struct GatewayCall {
    pub url: String,
    pub body: JsonValue,
}

/// Where a purchase attempt stands.
#[derive(Debug, PartialEq, Eq)]
pub enum PurchaseState {
    /// The buyer's request is accepted.
    Initiated(BuyItemParams),
    /// The parameters are built and signed.
    Signed(JsonObject),
    /// The call to the gateway is under way.
    Submitted,
    /// The buyer is sent to the checkout page at this address. Final.
    Redirected(String),
    /// The attempt failed. Final.
    Rejected(FondyError),
}

/// A state as contracts see it.
pub enum StateView {
    Initiated(int),
    Signed(Entries),
    Submitted,
    Redirected(Seq<char>),
    Rejected(ErrorView),
}

impl View for PurchaseState {
    type V = StateView;

    open spec fn view(&self) -> StateView {
        match self {
            PurchaseState::Initiated(buy) => StateView::Initiated(buy.item_id as int),
            PurchaseState::Signed(parameters) => StateView::Signed(parameters@),
            PurchaseState::Submitted => StateView::Submitted,
            PurchaseState::Redirected(location) => StateView::Redirected(location@),
            PurchaseState::Rejected(error) => StateView::Rejected(error@),
        }
    }
}

/// The state that a built request leads to.
pub open spec fn signed_state(built: Result<JsonObject, FondyError>) -> StateView {
    match built {
        Ok(parameters) => StateView::Signed(parameters@),
        Err(error) => StateView::Rejected(error@),
    }
}

/// The state in which an accepted checkout ends: the buyer is redirected
/// where the checkout address is a URI, and the attempt is rejected with a
/// `UrlError` that holds the address where it is not.
pub open spec fn redirect_state(redirect: RedirectUrlView, uri_valid: bool) -> StateView {
    if uri_valid {
        StateView::Redirected(redirect.checkout_url)
    } else {
        StateView::Rejected(ErrorView::UrlError(redirect.checkout_url))
    }
}

/// The state in which a submitted attempt ends, given what came of the call.
pub open spec fn final_state(outcome: OutcomeView) -> StateView {
    match checkout_of_outcome(outcome) {
        Ok(redirect) => redirect_state(redirect, is_valid_uri(redirect.checkout_url)),
        Err(error) => StateView::Rejected(error),
    }
}

/// The address of the gateway's checkout endpoint.
pub open spec fn checkout_endpoint() -> Seq<char> {
    "https://pay.fondy.eu/api/checkout/url"@
}

/// Decides how an accepted checkout ends, given whether its address is a
/// URI.
pub fn redirect_decision(redirect: FondyRedirectUrlResponse, uri_valid: bool) -> (state:
    PurchaseState)
    ensures
        state@ == redirect_state(redirect@, uri_valid),
{
    if uri_valid {
        PurchaseState::Redirected(redirect.checkout_url)
    } else {
        PurchaseState::Rejected(FondyError::UrlError(redirect.checkout_url))
    }
}

impl PurchaseState {
    /// The first state of an attempt.
    pub fn initiate(buy: BuyItemParams) -> (state: PurchaseState)
        ensures
            state@ == StateView::Initiated(buy.item_id as int),
    {
        PurchaseState::Initiated(buy)
    }

    /// Whether the attempt has ended.
    pub fn is_final(&self) -> (ended: bool)
        ensures
            ended == (self@ is Redirected || self@ is Rejected),
    {
        match self {
            PurchaseState::Redirected(_) => true,
            PurchaseState::Rejected(_) => true,
            _ => false,
        }
    }

    /// Builds and signs the parameters of an initiated attempt under the
    /// order identifier `order_id`. The attempt is then signed, or rejected
    /// with the error that building gave. Every other state stays as it is.
    pub fn sign(self, config: &AppConfig, order_id: String) -> (next: PurchaseState)
        ensures
            match self {
                PurchaseState::Initiated(buy) => exists|built: Result<JsonObject, FondyError>|
                    #[trigger] is_built_request(*config, buy.item_id as int, order_id@, built)
                        && next@ == signed_state(built),
                _ => next@ == self@,
            },
    {
        match self {
            PurchaseState::Initiated(buy) => {
                let built = build_request(config, &buy, order_id);
                let ghost witness = built;
                let next = match built {
                    Ok(parameters) => PurchaseState::Signed(parameters),
                    Err(error) => PurchaseState::Rejected(error),
                };
                assert(is_built_request(*config, buy.item_id as int, order_id@, witness)
                    && next@ == signed_state(witness));
                next
            },
            other => other,
        }
    }

    /// Hands out the call that submits a signed attempt: the parameters,
    /// wrapped under `request`, for the gateway's checkout endpoint. Every
    /// other state stays as it is and has no call.
    pub fn submit(self) -> (next: (PurchaseState, Option<GatewayCall>))
        ensures
            match self {
                PurchaseState::Signed(parameters) => {
                    &&& next.0@ == StateView::Submitted
                    &&& next.1 matches Some(call)
                    &&& call.url@ == checkout_endpoint()
                    &&& call.body@ == body_model(parameters@)
                },
                _ => next.0@ == self@ && next.1 is None,
            },
    {
        match self {
            PurchaseState::Signed(parameters) => {
                let call = GatewayCall {
                    url: String::from_str("https://pay.fondy.eu/api/checkout/url"),
                    body: request_body(parameters),
                };
                (PurchaseState::Submitted, Some(call))
            },
            other => (other, None),
        }
    }

    /// Ends a submitted attempt with what came of the call to the gateway.
    /// Every other state stays as it is.
    pub fn complete(self, outcome: GatewayOutcome) -> (next: PurchaseState)
        ensures
            match self {
                PurchaseState::Submitted => next@ == final_state(outcome@),
                _ => next@ == self@,
            },
    {
        match self {
            PurchaseState::Submitted => match checkout_result(outcome) {
                Ok(redirect) => {
                    let uri_valid = uri_is_valid(redirect.checkout_url.as_str());
                    redirect_decision(redirect, uri_valid)
                },
                Err(error) => PurchaseState::Rejected(error),
            },
            other => other,
        }
    }
}

/// What holds of the start of an attempt for the buyer's request `item_id`
/// under the order identifier `order_id`: a request that could be built is
/// submitted with its call, and one that could not is rejected without one.
pub open spec fn is_begun(
    config: AppConfig,
    item_id: int,
    order_id: Seq<char>,
    begun: (PurchaseState, Option<GatewayCall>),
) -> bool {
    exists|built: Result<JsonObject, FondyError>|
        #[trigger] is_built_request(config, item_id, order_id, built) && match built {
            Ok(parameters) => {
                &&& begun.0@ == StateView::Submitted
                &&& begun.1 matches Some(call)
                &&& call.url@ == checkout_endpoint()
                &&& call.body@ == body_model(parameters@)
            },
            Err(error) => begun.0@ == StateView::Rejected(error@) && begun.1 is None,
        }
}

/// Starts an attempt under the order identifier `order_id`: initiates it,
/// signs it and hands out the call to the gateway.
pub fn begin_purchase_as(config: &AppConfig, buy: BuyItemParams, order_id: String) -> (begun: (
    PurchaseState,
    Option<GatewayCall>,
))
    ensures
        is_begun(*config, buy.item_id as int, order_id@, begun),
{
    let signed = PurchaseState::initiate(buy).sign(config, order_id);
    let ghost before = signed;
    let begun = signed.submit();
    proof {
        let built = choose|built: Result<JsonObject, FondyError>|
            #[trigger] is_built_request(*config, buy.item_id as int, order_id@, built)
                && before@ == signed_state(built);
        assert(is_built_request(*config, buy.item_id as int, order_id@, built));
    }
    begun
}

/// Starts an attempt under an order identifier that is new.
pub fn begin_purchase(config: &AppConfig, buy: BuyItemParams) -> (begun: (
    PurchaseState,
    Option<GatewayCall>,
))
    ensures
        exists|order_id: Seq<char>|
            is_order_id(order_id) && #[trigger] is_begun(
                *config,
                buy.item_id as int,
                order_id,
                begun,
            ),
{
    let order_id = new_order_id();
    begin_purchase_as(config, buy, order_id)
}

/// A reply to an HTTP request.
#[derive(Debug, PartialEq, Eq)]
pub enum HttpReply {
    /// `303 See Other`, with the address in the `Location` header.
    SeeOther { location: String },
    /// `500 Internal Server Error`, with its code and a message as JSON.
    Failure { message: String },
    /// `400 Bad Request`, with its code and a message as JSON.
    BadRequest { message: String },
    /// `200 OK` without a body.
    Acknowledged,
    /// `200 OK` with a page of HTML.
    Page { html: String },
}

/// A reply as contracts see it.
pub enum ReplyView {
    SeeOther { location: Seq<char> },
    Failure { message: Seq<char> },
    BadRequest { message: Seq<char> },
    Acknowledged,
    Page { html: Seq<char> },
}

impl View for HttpReply {
    type V = ReplyView;

    open spec fn view(&self) -> ReplyView {
        match self {
            HttpReply::SeeOther { location } => ReplyView::SeeOther { location: location@ },
            HttpReply::Failure { message } => ReplyView::Failure { message: message@ },
            HttpReply::BadRequest { message } => ReplyView::BadRequest { message: message@ },
            HttpReply::Acknowledged => ReplyView::Acknowledged,
            HttpReply::Page { html } => ReplyView::Page { html: html@ },
        }
    }
}

/// The HTTP status of a reply.
pub open spec fn status_of(reply: ReplyView) -> int {
    match reply {
        ReplyView::SeeOther { .. } => 303,
        ReplyView::Failure { .. } => 500,
        ReplyView::BadRequest { .. } => 400,
        ReplyView::Acknowledged => 200,
        ReplyView::Page { .. } => 200,
    }
}

/// The JSON that reports a failure: its status as `code` and a `message`.
pub open spec fn failure_body(code: int, message: Seq<char>) -> JsonModel {
    JsonModel::Object(
        seq![("code"@, JsonModel::Integer(code)), ("message"@, JsonModel::String(message))],
    )
}

/// The JSON body of a reply, for the replies that have one.
pub open spec fn json_body_of(reply: ReplyView) -> Option<JsonModel> {
    match reply {
        ReplyView::Failure { message } => Some(failure_body(500, message)),
        ReplyView::BadRequest { message } => Some(failure_body(400, message)),
        _ => None,
    }
}

/// The reply with which a state answers the buyer: a redirect to the
/// checkout page, or the failure with the error's message. A state that is
/// not final has no reply yet.
pub open spec fn reply_of(state: StateView) -> Option<ReplyView> {
    match state {
        StateView::Redirected(location) => Some(ReplyView::SeeOther { location }),
        StateView::Rejected(error) => Some(ReplyView::Failure { message: message_text(error) }),
        _ => None,
    }
}

/// The view of a reply that may be absent.
pub open spec fn reply_view(reply: Option<HttpReply>) -> Option<ReplyView> {
    match reply {
        Some(r) => Some(r@),
        None => None,
    }
}

/// The view of a JSON value that may be absent.
pub open spec fn body_view(body: Option<JsonValue>) -> Option<JsonModel> {
    match body {
        Some(b) => Some(b@),
        None => None,
    }
}

/// Writes the JSON that reports a failure.
fn failure_json(code: u16, message: &String) -> (body: JsonValue)
    ensures
        body@ == failure_body(code as int, message@),
{
    proof {
        reveal_strlit("code");
        reveal_strlit("message");
    }
    let mut body = JsonObject::new();
    body.insert(String::from_str("code"), JsonValue::Number(JsonNumber::Unsigned(code as u64)));
    assert(body@ =~= seq![("code"@, JsonModel::Integer(code as int))]);
    assert("code"@.len() == 4 && "message"@.len() == 7);
    assert(!has_key(body@, "message"@));
    body.insert(String::from_str("message"), JsonValue::String(message.clone()));
    assert(body@ =~= seq![
        ("code"@, JsonModel::Integer(code as int)),
        ("message"@, JsonModel::String(message@)),
    ]);
    JsonValue::Object(body)
}

impl HttpReply {
    /// The HTTP status of the reply.
    pub fn status(&self) -> (status: u16)
        ensures
            status == status_of(self@),
    {
        match self {
            HttpReply::SeeOther { .. } => 303,
            HttpReply::Failure { .. } => 500,
            HttpReply::BadRequest { .. } => 400,
            HttpReply::Acknowledged => 200,
            HttpReply::Page { .. } => 200,
        }
    }

    /// The JSON body of the reply, if it has one.
    pub fn json_body(&self) -> (body: Option<JsonValue>)
        ensures
            body_view(body) == json_body_of(self@),
    {
        match self {
            HttpReply::Failure { message } => Some(failure_json(500, message)),
            HttpReply::BadRequest { message } => Some(failure_json(400, message)),
            _ => None,
        }
    }
}

/// The reply that reports an error of a purchase attempt.
pub fn error_reply(error: &FondyError) -> (reply: HttpReply)
    ensures
        reply@ == (ReplyView::Failure { message: message_text(error@) }),
{
    HttpReply::Failure { message: error.message() }
}

impl PurchaseState {
    /// The reply that ends the attempt, once it has ended.
    pub fn reply(&self) -> (reply: Option<HttpReply>)
        ensures
            reply_view(reply) == reply_of(self@),
    {
        match self {
            PurchaseState::Redirected(location) => Some(
                HttpReply::SeeOther { location: location.clone() },
            ),
            PurchaseState::Rejected(error) => Some(error_reply(error)),
            _ => None,
        }
    }
}

/// The reply to one who sent what is not trusted as a report.
pub open spec fn refusal_reply(error: ErrorView) -> ReplyView {
    ReplyView::BadRequest { message: message_text(error) }
}

/// The reply to a report of the gateway: an acknowledgement exactly where
/// the body holds a report whose signature is that of its other entries
/// under `password`; a bad request with the error's message otherwise.
pub open spec fn notification_reply_of(password: Seq<char>, body: Option<JsonModel>) -> ReplyView {
    match checked_report(password, body) {
        Ok(_) => ReplyView::Acknowledged,
        Err(error) => refusal_reply(error),
    }
}

/// The reply that goes with an action: what is processed, now or before, is
/// acknowledged; what is rejected is a bad request with the error's message.
pub open spec fn action_reply_of(action: ActionView) -> ReplyView {
    match action {
        ActionView::Process(_) => ReplyView::Acknowledged,
        ActionView::AlreadyProcessed => ReplyView::Acknowledged,
        ActionView::Reject(error) => refusal_reply(error),
    }
}

/// The reply that goes with what was decided about a report.
pub fn action_reply(action: &NotificationAction) -> (reply: HttpReply)
    ensures
        reply@ == action_reply_of(action@),
{
    match action {
        NotificationAction::Process(_) => HttpReply::Acknowledged,
        NotificationAction::AlreadyProcessed => HttpReply::Acknowledged,
        NotificationAction::Reject(error) => HttpReply::BadRequest { message: error.message() },
    }
}

/// Answers a report of the gateway. `body` is the body of the report, or
/// `None` where that was no JSON.
pub fn notification_reply(password: &str, body: Option<&JsonValue>) -> (reply: HttpReply)
    ensures
        reply@ == notification_reply_of(
            password@,
            match body {
                Some(json) => Some(json@),
                None => None,
            },
        ),
{
    let checked = match body {
        Some(json) => verify_notification(password, json),
        None => Err(FondyError::DecodeError(String::from_str("not a payment notification"))),
    };
    match checked {
        Ok(_) => HttpReply::Acknowledged,
        Err(error) => HttpReply::BadRequest { message: error.message() },
    }
}

/// A report with a signature that does not match is answered with a bad
/// request that says so, whatever else it holds.
pub proof fn lemma_mismatch_is_refused(password: Seq<char>, body: JsonModel)
    requires
        notification_of(body) matches Some(notification) && notification.signature
            != signature_text(password, signed_part(entries_of(body))),
    ensures
        verified_notification(password, body) == Err::<NotificationView, ErrorView>(
            ErrorView::SignatureMismatch,
        ),
        notification_reply_of(password, Some(body)) == refusal_reply(ErrorView::SignatureMismatch),
        status_of(notification_reply_of(password, Some(body))) == 400,
        forall|processed: Seq<String>|
            action_of(password, processed, Some(body)) == ActionView::Reject(
                ErrorView::SignatureMismatch,
            ),
{
}

/// The page that greets a buyer whom the gateway has sent back.
pub fn browser_callback_reply() -> (reply: HttpReply)
    ensures
        reply@ == (ReplyView::Page { html: "Success"@ }),
{
    HttpReply::Page { html: String::from_str("Success") }
}

/// Failure propagation: a call to the gateway that does not complete rejects
/// the attempt with a `TransportError` that holds the transport's account,
/// never with anything else.
pub proof fn lemma_transport_failure_rejects(detail: Seq<char>)
    ensures
        checkout_of_outcome(OutcomeView::TransportFailed(detail)) == Err::<
            RedirectUrlView,
            ErrorView,
        >(ErrorView::TransportError(detail)),
        final_state(OutcomeView::TransportFailed(detail)) == StateView::Rejected(
            ErrorView::TransportError(detail),
        ),
{
}

} // verus!
