//! The values that the JSON service exchanges with its clients, and how a
//! failure becomes an error body.

use crate::errors::{ApplicationError, ErrorView};
use crate::text::{decimal, decimal_string};
use vstd::prelude::*;

verus! {

/// The body of a deposit or a withdrawal.
#[derive(Debug)]
pub struct AccountUpdateRequest {
    pub signer: String,
    pub amount: u64,
}

/// The body of a balance inquiry.
#[derive(Debug)]
pub struct AccountBalanceRequest {
    pub signer: String,
}

/// The body of a transfer.
#[derive(Debug)]
pub struct SendRequest {
    pub sender: String,
    pub recipient: String,
    pub amount: u64,
}

/// A failure of the platform on its way to the client.
#[derive(Debug)]
pub struct OctopusError(pub ApplicationError);

impl OctopusError {
    pub fn new(error: ApplicationError) -> (wrapped: Self)
        ensures
            wrapped.0 == error,
    {
        OctopusError(error)
    }
}

/// The body of an error response.
pub struct ErrorMessage {
    pub code: u16,
    pub message: String,
}

/// Why a request got no answer.
#[derive(Debug)]
pub enum Rejection {
    /// No route leads to the path.
    NotFound,
    /// The body is no value of the type that the route takes.
    MalformedBody,
    /// The route does not take the method.
    MethodNotAllowed,
    /// The platform refused the operation.
    Platform(OctopusError),
    /// Anything else.
    Unhandled,
}

/// The mathematical value of a [`Rejection`].
pub enum RejectionView {
    NotFound,
    MalformedBody,
    MethodNotAllowed,
    Platform(ErrorView),
    Unhandled,
}

impl View for Rejection {
    type V = RejectionView;

    open spec fn view(&self) -> RejectionView {
        match *self {
            Rejection::NotFound => RejectionView::NotFound,
            Rejection::MalformedBody => RejectionView::MalformedBody,
            Rejection::MethodNotAllowed => RejectionView::MethodNotAllowed,
            Rejection::Platform(error) => RejectionView::Platform(error.0@),
            Rejection::Unhandled => RejectionView::Unhandled,
        }
    }
}

impl RejectionView {
    /// The status code of the response: 404 for an unknown path or account,
    /// 400 for a body or an order that cannot be taken, 405 for a wrong
    /// method, 500 for a balance that an operation would overdraw or
    /// overfill, and for everything else.
    pub open spec fn status(self) -> u16 {
        match self {
            RejectionView::NotFound => 404,
            RejectionView::MalformedBody => 400,
            RejectionView::MethodNotAllowed => 405,
            RejectionView::Platform(ErrorView::AccountNotFound(_)) => 404,
            RejectionView::Platform(ErrorView::OrderRejected(_)) => 400,
            RejectionView::Platform(_) => 500,
            RejectionView::Unhandled => 500,
        }
    }

    /// The message of the response.
    pub open spec fn message(self) -> Seq<char> {
        match self {
            RejectionView::NotFound => "NOT_FOUND"@,
            RejectionView::MalformedBody => "BAD_REQUEST"@,
            RejectionView::MethodNotAllowed => "METHOD_NOT_ALLOWED"@,
            RejectionView::Platform(ErrorView::AccountNotFound(signer)) => "Cannot find account "@
                + signer,
            RejectionView::Platform(ErrorView::AccountOverFunded(signer, amount)) =>
                "Cannot exceed maximum with deposit of "@ + decimal(amount as nat)
                + " to  account "@ + signer,
            RejectionView::Platform(ErrorView::AccountUnderFunded(signer, amount)) =>
                "Cannot withdraw from "@ + decimal(amount as nat)
                + "  from underfunded  account "@ + signer,
            RejectionView::Platform(ErrorView::OrderRejected(_)) => "BAD_REQUEST"@,
            RejectionView::Unhandled => "UNHANDLED_REJECTION"@,
        }
    }
}

/// The error body that answers a rejected request.
pub fn error_message(rejection: &Rejection) -> (body: ErrorMessage)
    ensures
        body.code == rejection@.status(),
        body.message@ == rejection@.message(),
{
    match rejection {
        Rejection::NotFound => ErrorMessage { code: 404, message: String::from_str("NOT_FOUND") },
        Rejection::MalformedBody => ErrorMessage {
            code: 400,
            message: String::from_str("BAD_REQUEST"),
        },
        Rejection::MethodNotAllowed => ErrorMessage {
            code: 405,
            message: String::from_str("METHOD_NOT_ALLOWED"),
        },
        Rejection::Platform(OctopusError(ApplicationError::AccountNotFound(signer))) => {
            let mut message = String::from_str("Cannot find account ");
            message.append(signer.as_str());
            ErrorMessage { code: 404, message }
        },
        Rejection::Platform(OctopusError(ApplicationError::AccountOverFunded(signer, amount))) => {
            let mut message = String::from_str("Cannot exceed maximum with deposit of ");
            message.append(decimal_string(*amount).as_str());
            message.append(" to  account ");
            message.append(signer.as_str());
            ErrorMessage { code: 500, message }
        },
        Rejection::Platform(OctopusError(ApplicationError::AccountUnderFunded(signer, amount))) => {
            let mut message = String::from_str("Cannot withdraw from ");
            message.append(decimal_string(*amount).as_str());
            message.append("  from underfunded  account ");
            message.append(signer.as_str());
            ErrorMessage { code: 500, message }
        },
        Rejection::Platform(OctopusError(ApplicationError::OrderRejected(_))) => ErrorMessage {
            code: 400,
            message: String::from_str("BAD_REQUEST"),
        },
        Rejection::Unhandled => ErrorMessage {
            code: 500,
            message: String::from_str("UNHANDLED_REJECTION"),
        },
    }
}

} // verus!
