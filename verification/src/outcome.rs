//! Failure kinds, responses, and the status that each way a request can end
//! is reported with.

use vstd::prelude::*;

verus! {

/// Why a request did not end in a stored record.
#[derive(Clone, Copy, Debug, PartialEq, Eq, Structural)]
pub enum FailureKind {
    /// A required field was missing from the submitted form.
    ClientInput,
    /// The store could not take the record.
    Persistence,
}

/// What is sent back to the client. Every response of this service has an
/// empty body.
#[derive(Debug)]
pub struct Response {
    pub status: u16,
    pub body: Vec<u8>,
}

/// What a [`Response`] holds.
pub struct ResponseModel {
    pub status: u16,
    pub body: Seq<u8>,
}

impl View for Response {
    type V = ResponseModel;

    open spec fn view(&self) -> ResponseModel {
        ResponseModel { status: self.status, body: self.body@ }
    }
}

/// The response with the given status and no body.
pub open spec fn empty_response(status: u16) -> ResponseModel {
    ResponseModel { status, body: Seq::empty() }
}

/// The status that reports how a request ended: 200 for a stored record,
/// 400 for a form that lacks a field, 500 for a store that failed.
pub open spec fn status_of(ended: Result<(), FailureKind>) -> u16 {
    match ended {
        Ok(()) => 200,
        Err(FailureKind::ClientInput) => 400,
        Err(FailureKind::Persistence) => 500,
    }
}

/// Answers a liveness probe: success, no body, and nothing consulted.
pub fn health_check() -> (response: Response)
    ensures
        response@ == empty_response(200),
{
    Response { status: 200, body: Vec::new() }
}

/// The response to a request that ended as `ended`. The cause of a failure
/// never reaches the body.
pub fn respond(ended: Result<(), FailureKind>) -> (response: Response)
    ensures
        response@ == empty_response(status_of(ended)),
{
    let status: u16 = match ended {
        Ok(()) => 200,
        Err(FailureKind::ClientInput) => 400,
        Err(FailureKind::Persistence) => 500,
    };
    Response { status, body: Vec::new() }
}

/// Requests that ended differently are reported with different statuses.
pub proof fn lemma_status_tells_endings_apart(
    a: Result<(), FailureKind>,
    b: Result<(), FailureKind>,
)
    ensures
        status_of(a) == status_of(b) <==> a == b,
{
    if let (Ok(x), Ok(y)) = (a, b) {
        assert(x == y);
    }
}

} // verus!
