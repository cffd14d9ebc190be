//! The ways in which a purchase attempt fails.

use vstd::prelude::*;
use vstd::string::StringExecFns;
use crate::responses::{FondyInvalidResponse, InvalidResponseView};

verus! {

/// Why a purchase attempt was rejected.
#[derive(Debug, Clone, PartialEq, Eq)]
pub enum FondyError {
    /// The gateway could not be reached, or the connection broke. Holds the
    /// transport's account of the failure.
    TransportError(String),
    /// The gateway answered, but not with a body this library can read.
    DecodeError(String),
    /// The parameters handed to the signer cannot be signed.
    SignatureError(String),
    /// An address is malformed. Holds the text that is no address.
    UrlError(String),
    /// The gateway read the request and refused it.
    GatewayRejected(FondyInvalidResponse),
    /// A report came with a signature that is not the one its entries have
    /// under the merchant's password.
    SignatureMismatch,
}

/// An error as contracts see it.
pub enum ErrorView {
    TransportError(Seq<char>),
    DecodeError(Seq<char>),
    SignatureError(Seq<char>),
    UrlError(Seq<char>),
    GatewayRejected(InvalidResponseView),
    SignatureMismatch,
}

impl View for FondyError {
    type V = ErrorView;

    open spec fn view(&self) -> ErrorView {
        match self {
            FondyError::TransportError(detail) => ErrorView::TransportError(detail@),
            FondyError::DecodeError(detail) => ErrorView::DecodeError(detail@),
            FondyError::SignatureError(detail) => ErrorView::SignatureError(detail@),
            FondyError::UrlError(text) => ErrorView::UrlError(text@),
            FondyError::GatewayRejected(refusal) => ErrorView::GatewayRejected(refusal@),
            FondyError::SignatureMismatch => ErrorView::SignatureMismatch,
        }
    }
}

/// The message shown for an error: what kind of failure it is, then its
/// detail; for a refusal, the gateway's own message.
pub open spec fn message_text(error: ErrorView) -> Seq<char> {
    match error {
        ErrorView::TransportError(detail) => "gateway request failed: "@ + detail,
        ErrorView::DecodeError(detail) => "gateway response not understood: "@ + detail,
        ErrorView::SignatureError(detail) => "signature not computed: "@ + detail,
        ErrorView::UrlError(text) => "malformed address: "@ + text,
        ErrorView::GatewayRejected(refusal) => "gateway refused the request: "@
            + refusal.error_message,
        ErrorView::SignatureMismatch => "signature mismatch"@,
    }
}

impl FondyError {
    /// The message to show for this error.
    pub fn message(&self) -> (text: String)
        ensures
            text@ == message_text(self@),
    {
        match self {
            FondyError::TransportError(detail) => {
                String::from_str("gateway request failed: ").concat(detail.as_str())
            },
            FondyError::DecodeError(detail) => {
                String::from_str("gateway response not understood: ").concat(detail.as_str())
            },
            FondyError::SignatureError(detail) => {
                String::from_str("signature not computed: ").concat(detail.as_str())
            },
            FondyError::UrlError(text) => {
                String::from_str("malformed address: ").concat(text.as_str())
            },
            FondyError::GatewayRejected(refusal) => {
                String::from_str("gateway refused the request: ").concat(
                    refusal.error_message.as_str(),
                )
            },
            FondyError::SignatureMismatch => String::from_str("signature mismatch"),
        }
    }
}

} // verus!
