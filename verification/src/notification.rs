//! The gateway's report of a payment's status.
//!
//! A report is trusted only where its signature is the one that its other
//! entries have under the merchant's password. A report that is trusted is
//! processed once: a second report on the same order changes nothing.

use vstd::prelude::*;
use vstd::string::StringExecFns;
use crate::error::{ErrorView, FondyError};
use crate::json::{text_field, Entries, JsonModel, JsonValue};
use crate::keys::same_key;
use crate::signature::{
    fits_sha1, object_signing_string_without, sign_text, signature_of_text, signing_text,
    without_key,
};

verus! {

/// The status of an order as the gateway reports it.
#[derive(Debug, Clone, PartialEq, Eq)]
pub enum OrderStatus {
    Approved,
    Declined,
    Expired,
    Processing,
    /// A status this library has no name for, as the gateway wrote it.
    Other(String),
}

/// A status as contracts see it.
pub enum OrderStatusView {
    Approved,
    Declined,
    Expired,
    Processing,
    Other(Seq<char>),
}

impl View for OrderStatus {
    type V = OrderStatusView;

    open spec fn view(&self) -> OrderStatusView {
        match self {
            OrderStatus::Approved => OrderStatusView::Approved,
            OrderStatus::Declined => OrderStatusView::Declined,
            OrderStatus::Expired => OrderStatusView::Expired,
            OrderStatus::Processing => OrderStatusView::Processing,
            OrderStatus::Other(text) => OrderStatusView::Other(text@),
        }
    }
}

/// The status that the gateway's word `text` names.
pub open spec fn status_named(text: Seq<char>) -> OrderStatusView {
    if text == "approved"@ {
        OrderStatusView::Approved
    } else if text == "declined"@ {
        OrderStatusView::Declined
    } else if text == "expired"@ {
        OrderStatusView::Expired
    } else if text == "processing"@ {
        OrderStatusView::Processing
    } else {
        OrderStatusView::Other(text)
    }
}

impl OrderStatus {
    /// The status that the gateway's word `text` names.
    pub fn from_name(text: String) -> (status: OrderStatus)
        ensures
            status@ == status_named(text@),
    {
        if same_key(text.as_str(), "approved") {
            OrderStatus::Approved
        } else if same_key(text.as_str(), "declined") {
            OrderStatus::Declined
        } else if same_key(text.as_str(), "expired") {
            OrderStatus::Expired
        } else if same_key(text.as_str(), "processing") {
            OrderStatus::Processing
        } else {
            OrderStatus::Other(text)
        }
    }
}

/// The gateway's report on one order.
#[derive(Debug, Clone, PartialEq, Eq)]
pub struct PaymentNotification {
    pub order_id: String,
    pub order_status: OrderStatus,
    /// The signature that came with the report.
    pub signature: String,
}

/// A report as contracts see it.
pub struct NotificationView {
    pub order_id: Seq<char>,
    pub order_status: OrderStatusView,
    pub signature: Seq<char>,
}

impl View for PaymentNotification {
    type V = NotificationView;

    open spec fn view(&self) -> NotificationView {
        NotificationView {
            order_id: self.order_id@,
            order_status: self.order_status@,
            signature: self.signature@,
        }
    }
}

/// The report that the entries of a body hold: they name the order, its
/// status and a signature, each as a string. Other entries are passed over.
pub open spec fn notification_shape(body: Entries) -> Option<NotificationView> {
    match (
        text_field(body, "order_id"@),
        text_field(body, "order_status"@),
        text_field(body, "signature"@),
    ) {
        (Some(order_id), Some(status), Some(signature)) => Some(
            NotificationView { order_id, order_status: status_named(status), signature },
        ),
        _ => None,
    }
}

/// The report that a body holds, if it is an object that holds one.
pub open spec fn notification_of(body: JsonModel) -> Option<NotificationView> {
    match body {
        JsonModel::Object(entries) => notification_shape(entries),
        _ => None,
    }
}

/// The error for a body that holds no report.
pub open spec fn not_a_notification() -> ErrorView {
    ErrorView::DecodeError("not a payment notification"@)
}

/// Decodes the body of a report.
///
/// Fails, with a `DecodeError`, exactly where the body holds no report.
pub fn decode_notification(body: &JsonValue) -> (result: Result<PaymentNotification, FondyError>)
    ensures
        match result {
            Ok(notification) => notification_of(body@) == Some(notification@),
            Err(error) => notification_of(body@) is None && error@ == not_a_notification(),
        },
{
    match body {
        JsonValue::Object(entries) => {
            match (
                entries.get_text("order_id"),
                entries.get_text("order_status"),
                entries.get_text("signature"),
            ) {
                (Some(order_id), Some(status), Some(signature)) => {
                    return Ok(
                        PaymentNotification {
                            order_id,
                            order_status: OrderStatus::from_name(status),
                            signature,
                        },
                    );
                },
                _ => {},
            }
        },
        _ => {},
    }
    Err(FondyError::DecodeError(String::from_str("not a payment notification")))
}

/// The entries of a body that is an object; no entries for any other body.
pub open spec fn entries_of(body: JsonModel) -> Entries {
    match body {
        JsonModel::Object(entries) => entries,
        _ => Seq::empty(),
    }
}

/// The entries that the signature of a report covers: all but the signature
/// itself.
pub open spec fn signed_part(body: Entries) -> Entries {
    without_key(body, "signature"@)
}

/// What checking a body under `password` comes to: the report it holds,
/// where its signature is the signature of its other entries; a
/// `SignatureMismatch` where it holds a report with another signature, or
/// one whose entries are too long to be signed; a `DecodeError` where it
/// holds no report.
pub open spec fn verified_notification(password: Seq<char>, body: JsonModel) -> Result<
    NotificationView,
    ErrorView,
> {
    match notification_of(body) {
        Some(notification) => {
            let text = signing_text(password, signed_part(entries_of(body)));
            if fits_sha1(text) && notification.signature == signature_of_text(text) {
                Ok(notification)
            } else {
                Err(ErrorView::SignatureMismatch)
            }
        },
        None => Err(not_a_notification()),
    }
}

/// The view of a report or the error in its place.
pub open spec fn notification_view(result: Result<PaymentNotification, FondyError>) -> Result<
    NotificationView,
    ErrorView,
> {
    match result {
        Ok(notification) => Ok(notification@),
        Err(error) => Err(error@),
    }
}

/// Decodes the body of a report and checks its signature against the
/// signature of its other entries under `password`.
pub fn verify_notification(password: &str, body: &JsonValue) -> (result: Result<
    PaymentNotification,
    FondyError,
>)
    ensures
        notification_view(result) == verified_notification(password@, body@),
{
    let notification = match decode_notification(body) {
        Ok(notification) => notification,
        Err(error) => {
            return Err(error);
        },
    };
    match body {
        JsonValue::Object(entries) => {
            let text = object_signing_string_without(password, entries, "signature");
            match sign_text(text.as_str()) {
                Some(signature) => {
                    if same_key(signature.as_str(), notification.signature.as_str()) {
                        Ok(notification)
                    } else {
                        Err(FondyError::SignatureMismatch)
                    }
                },
                None => Err(FondyError::SignatureMismatch),
            }
        },
        _ => Err(FondyError::DecodeError(String::from_str("not a payment notification"))),
    }
}

/// What is done about a report.
#[derive(Debug, Clone, PartialEq, Eq)]
pub enum NotificationAction {
    /// The report is trusted and its order was not processed before: it is
    /// to be processed now.
    Process(PaymentNotification),
    /// The report is trusted, but its order was processed before: nothing is
    /// to be done.
    AlreadyProcessed,
    /// The report is not trusted. Nothing of what it says is handed on.
    Reject(FondyError),
}

/// An action as contracts see it.
pub enum ActionView {
    Process(NotificationView),
    AlreadyProcessed,
    Reject(ErrorView),
}

impl View for NotificationAction {
    type V = ActionView;

    open spec fn view(&self) -> ActionView {
        match self {
            NotificationAction::Process(notification) => ActionView::Process(notification@),
            NotificationAction::AlreadyProcessed => ActionView::AlreadyProcessed,
            NotificationAction::Reject(error) => ActionView::Reject(error@),
        }
    }
}

/// Whether `order_id` is among the identifiers `processed`.
pub open spec fn is_processed(processed: Seq<String>, order_id: Seq<char>) -> bool {
    exists|i: int| 0 <= i < processed.len() && (#[trigger] processed[i])@ == order_id
}

/// What checking a body that may be no JSON (`None`) comes to.
pub open spec fn checked_report(password: Seq<char>, body: Option<JsonModel>) -> Result<
    NotificationView,
    ErrorView,
> {
    match body {
        Some(json) => verified_notification(password, json),
        None => Err(not_a_notification()),
    }
}

/// The action for a body, given the orders that were processed before: a
/// report that is not trusted is rejected; one that is trusted is processed,
/// unless its order is among those processed before.
pub open spec fn action_of(password: Seq<char>, processed: Seq<String>, body: Option<JsonModel>)
    -> ActionView {
    match checked_report(password, body) {
        Ok(notification) => if is_processed(processed, notification.order_id) {
            ActionView::AlreadyProcessed
        } else {
            ActionView::Process(notification)
        },
        Err(error) => ActionView::Reject(error),
    }
}

/// Whether `order_id` is among the identifiers `processed`.
pub fn was_processed(processed: &Vec<String>, order_id: &str) -> (found: bool)
    ensures
        found == is_processed(processed@, order_id@),
{
    let mut i: usize = 0;
    while i < processed.len()
        invariant
            i <= processed@.len(),
            forall|j: int| 0 <= j < i ==> (#[trigger] processed@[j])@ != order_id@,
        decreases processed@.len() - i,
    {
        if same_key(processed[i].as_str(), order_id) {
            return true;
        }
        i = i + 1;
    }
    false
}

/// Decides what is done about a report of the gateway. `body` is the body
/// of the report, or `None` where that was no JSON; `processed` holds the
/// identifiers of the orders that were processed before.
pub fn notification_action(password: &str, processed: &Vec<String>, body: Option<&JsonValue>)
    -> (action: NotificationAction)
    ensures
        action@ == action_of(
            password@,
            processed@,
            match body {
                Some(json) => Some(json@),
                None => None,
            },
        ),
{
    let checked = match body {
        Some(json) => verify_notification(password, json),
        None => Err(FondyError::DecodeError(String::from_str("not a payment notification"))),
    };
    match checked {
        Ok(notification) => {
            if was_processed(processed, notification.order_id.as_str()) {
                NotificationAction::AlreadyProcessed
            } else {
                NotificationAction::Process(notification)
            }
        },
        Err(error) => NotificationAction::Reject(error),
    }
}

} // verus!
