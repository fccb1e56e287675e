//! A subscription intake service without its I/O: from the body of a request
//! to the one insert of a subscriber record and the response that reports
//! how the request ended.
//!
//! - [`form`] decodes the submitted form.
//! - [`record`] holds the durable record and what is drawn for it from
//!   outside: identifiers and the time.
//! - [`diagnostics`] holds the context that ties trace entries to a request.
//! - [`gateway`] holds the insert handed to the store.
//! - [`outcome`] maps the ways a request can end to responses.
//! - [`intake`] is the handler, a state machine over all of these.
//! - [`laws`] and [`store`] state what holds of every run of the handler and
//!   of what the store comes to hold.

pub mod diagnostics;
pub mod form;
pub mod gateway;
pub mod intake;
pub mod laws;
pub mod outcome;
pub mod record;
pub mod store;
