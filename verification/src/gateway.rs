//! The boundary to the subscriber store: the one insert that a request
//! issues, and what is kept of a failure that the store answers with.

use vstd::prelude::*;

use crate::diagnostics::{ErrorRecord, ErrorRecordModel, RequestSpan, RequestSpanModel};
use crate::record::{RecordModel, SubscriberRecord, Timestamp};

verus! {

/// The statement that stores one record. Its four parameters are bound, in
/// this order, to the record's `id`, `email`, `name` and `subscribed_at`.
pub const INSERT_STATEMENT: &'static str =
    "INSERT INTO subscriptions (id, email, name, subscribed_at) VALUES ($1, $2, $3, $4)";

/// One insert to run against the store: a single statement that stores the
/// whole record or nothing, traced in a span of its own under `parent`.
#[derive(Debug)]
pub struct InsertCommand {
    pub parent: RequestSpan,
    pub record: SubscriberRecord,
}

/// What an [`InsertCommand`] holds.
pub struct InsertCommandModel {
    pub parent: RequestSpanModel,
    pub record: RecordModel,
}

impl View for InsertCommand {
    type V = InsertCommandModel;

    open spec fn view(&self) -> InsertCommandModel {
        InsertCommandModel { parent: self.parent@, record: self.record@ }
    }
}

impl InsertCommandModel {
    /// The context names the subscriber whose record is being stored.
    pub open spec fn names_its_subscriber(self) -> bool {
        &&& self.parent.subscriber_name == self.record.name
        &&& self.parent.subscriber_email == self.record.email
    }
}

/// A value bound to one parameter of the statement.
#[derive(Debug)]
pub enum Parameter {
    Identifier(u128),
    Text(String),
    Instant(Timestamp),
}

/// What a [`Parameter`] holds.
pub enum ParameterModel {
    Identifier(u128),
    Text(Seq<char>),
    Instant(Timestamp),
}

impl View for Parameter {
    type V = ParameterModel;

    open spec fn view(&self) -> ParameterModel {
        match self {
            Parameter::Identifier(id) => ParameterModel::Identifier(*id),
            Parameter::Text(text) => ParameterModel::Text(text@),
            Parameter::Instant(at) => ParameterModel::Instant(*at),
        }
    }
}

/// What each of the values bound holds.
pub open spec fn bound_view(bound: Seq<Parameter>) -> Seq<ParameterModel> {
    bound.map_values(|parameter: Parameter| parameter@)
}

/// The values that store `record`, in the order of the statement's
/// parameters: identifier, email, name, time of subscription.
pub open spec fn row_of(record: RecordModel) -> Seq<ParameterModel> {
    seq![
        ParameterModel::Identifier(record.id),
        ParameterModel::Text(record.email),
        ParameterModel::Text(record.name),
        ParameterModel::Instant(record.subscribed_at),
    ]
}

impl Clone for InsertCommand {
    fn clone(&self) -> (copy: InsertCommand)
        ensures
            copy@ == self@,
    {
        InsertCommand { parent: self.parent.clone(), record: self.record.clone() }
    }
}

/// The store's refusal, tagged with the cause it gave.
#[derive(Debug)]
pub struct PersistenceFailure {
    pub cause: String,
}

/// The error entry for an insert that failed for the given cause.
pub open spec fn failure_entry(command: InsertCommandModel, cause: Seq<char>) -> ErrorRecordModel {
    ErrorRecordModel { context: command.parent, record: command.record, cause }
}

/// Prepares the insert of `record` for the request whose context is
/// `parent`.
pub fn insert_subscriber(record: SubscriberRecord, parent: RequestSpan) -> (command: InsertCommand)
    ensures
        command@ == (InsertCommandModel { parent: parent@, record: record@ }),
{
    InsertCommand { parent, record }
}

impl InsertCommand {
    /// The values to bind to the statement's parameters, first to last.
    pub fn parameters(&self) -> (bound: Vec<Parameter>)
        ensures
            bound_view(bound@) == row_of(self@.record),
    {
        let mut bound: Vec<Parameter> = Vec::new();
        bound.push(Parameter::Identifier(self.record.id));
        bound.push(Parameter::Text(self.record.email.clone()));
        bound.push(Parameter::Text(self.record.name.clone()));
        bound.push(Parameter::Instant(self.record.subscribed_at));
        assert(bound_view(bound@) =~= row_of(self@.record));
        bound
    }

    /// What is kept of this insert once the store has failed it: the
    /// request, the record and the cause, for an entry at error severity.
    /// The insert is not tried again.
    pub fn failed(self, failure: PersistenceFailure) -> (entry: ErrorRecord)
        ensures
            entry@ == failure_entry(self@, failure.cause@),
    {
        ErrorRecord { context: self.parent, record: self.record, cause: failure.cause }
    }
}

} // verus!
