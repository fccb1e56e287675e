//! Diagnostic context, carried by value: what ties every trace entry of one
//! request back to that request.

use vstd::prelude::*;

use crate::form::{FormModel, SubscriberData};
use crate::record::{RecordModel, SubscriberRecord};

verus! {

/// The context of one request: its own identifier and the submitted fields.
/// Everything recorded while the request is handled refers back to it.
#[derive(Debug)]
pub struct RequestSpan {
    pub request_id: u128,
    pub subscriber_name: String,
    pub subscriber_email: String,
}

/// What a [`RequestSpan`] holds.
pub struct RequestSpanModel {
    pub request_id: u128,
    pub subscriber_name: Seq<char>,
    pub subscriber_email: Seq<char>,
}

impl View for RequestSpan {
    type V = RequestSpanModel;

    open spec fn view(&self) -> RequestSpanModel {
        RequestSpanModel {
            request_id: self.request_id,
            subscriber_name: self.subscriber_name@,
            subscriber_email: self.subscriber_email@,
        }
    }
}

/// The context of the request with the given identifier that submitted `form`.
pub open spec fn span_for(request_id: u128, form: FormModel) -> RequestSpanModel {
    RequestSpanModel { request_id, subscriber_name: form.name, subscriber_email: form.email }
}

impl RequestSpan {
    /// Opens the context of a request before any work is done on its form.
    pub fn open(request_id: u128, form: &SubscriberData) -> (span: RequestSpan)
        ensures
            span@ == span_for(request_id, form@),
    {
        RequestSpan {
            request_id,
            subscriber_name: form.name.clone(),
            subscriber_email: form.email.clone(),
        }
    }
}

impl Clone for RequestSpan {
    fn clone(&self) -> (copy: RequestSpan)
        ensures
            copy@ == self@,
    {
        RequestSpan {
            request_id: self.request_id,
            subscriber_name: self.subscriber_name.clone(),
            subscriber_email: self.subscriber_email.clone(),
        }
    }
}

/// An entry at error severity: the request it belongs to, the record that
/// could not be stored, and what the store gave as the cause.
#[derive(Debug)]
pub struct ErrorRecord {
    pub context: RequestSpan,
    pub record: SubscriberRecord,
    pub cause: String,
}

/// What an [`ErrorRecord`] holds.
pub struct ErrorRecordModel {
    pub context: RequestSpanModel,
    pub record: RecordModel,
    pub cause: Seq<char>,
}

impl View for ErrorRecord {
    type V = ErrorRecordModel;

    open spec fn view(&self) -> ErrorRecordModel {
        ErrorRecordModel { context: self.context@, record: self.record@, cause: self.cause@ }
    }
}

} // verus!
