//! The handler of a subscription request as a state machine. It is handed
//! what happened outside, one event at a time, and answers with the next
//! state and with what it asks of its caller: to run an insert, or to send a
//! response. Reading the request, running the insert and sending the
//! response are the caller's part; every decision is made here.

use vstd::prelude::*;

use crate::diagnostics::{span_for, ErrorRecord, ErrorRecordModel, RequestSpan};
use crate::form::{decoded_form, FormModel, SubscriberData};
use crate::gateway::{
    failure_entry, insert_subscriber, InsertCommand, InsertCommandModel, PersistenceFailure,
};
use crate::outcome::{empty_response, respond, status_of, FailureKind, Response, ResponseModel};
use crate::record::{is_random_identifier, record_for, Stamp, SubscriberRecord, Timestamp};

verus! {

/// Where one request stands.
#[derive(Debug)]
pub enum Intake {
    /// Nothing has been read yet.
    Received,
    /// The body is at hand and not yet decoded.
    Decoding { body: Vec<u8> },
    /// The form is decoded; the record is not yet built.
    Constructing { form: SubscriberData },
    /// The insert has been handed out and the store has not answered.
    Persisting { command: InsertCommand },
    /// The record is stored.
    Succeeded,
    /// The request failed.
    Failed { kind: FailureKind },
}

/// What an [`Intake`] holds.
pub enum IntakeModel {
    Received,
    Decoding { body: Seq<u8> },
    Constructing { form: FormModel },
    Persisting { command: InsertCommandModel },
    Succeeded,
    Failed { kind: FailureKind },
}

impl View for Intake {
    type V = IntakeModel;

    open spec fn view(&self) -> IntakeModel {
        match self {
            Intake::Received => IntakeModel::Received,
            Intake::Decoding { body } => IntakeModel::Decoding { body: body@ },
            Intake::Constructing { form } => IntakeModel::Constructing { form: form@ },
            Intake::Persisting { command } => IntakeModel::Persisting { command: command@ },
            Intake::Succeeded => IntakeModel::Succeeded,
            Intake::Failed { kind } => IntakeModel::Failed { kind: *kind },
        }
    }
}

/// What happened outside since the last step.
#[derive(Debug)]
pub enum Event {
    /// The request body arrived.
    Body(Vec<u8>),
    /// Nothing happened outside: the handler may go on by itself.
    Proceed,
    /// The store took the record.
    Stored,
    /// The store refused or could not be reached.
    StoreFailed(PersistenceFailure),
}

/// What an [`Event`] holds.
pub enum EventModel {
    Body(Seq<u8>),
    Proceed,
    Stored,
    StoreFailed(Seq<char>),
}

impl View for Event {
    type V = EventModel;

    open spec fn view(&self) -> EventModel {
        match self {
            Event::Body(body) => EventModel::Body(body@),
            Event::Proceed => EventModel::Proceed,
            Event::Stored => EventModel::Stored,
            Event::StoreFailed(failure) => EventModel::StoreFailed(failure.cause@),
        }
    }
}

/// What the caller is to do after a step.
#[derive(Debug)]
pub enum Action {
    /// The event did not concern the state: nothing changed, nothing to do.
    Idle,
    /// Nothing to do outside: step again with [`Event::Proceed`].
    Continue,
    /// Run this insert, once, and report [`Event::Stored`] or
    /// [`Event::StoreFailed`].
    Persist(InsertCommand),
    /// Send this response; if there is an error entry, record it first.
    Respond { response: Response, error: Option<ErrorRecord> },
}

/// What an [`Action`] holds.
pub enum ActionModel {
    Idle,
    Continue,
    Persist(InsertCommandModel),
    Respond { response: ResponseModel, error: Option<ErrorRecordModel> },
}

impl View for Action {
    type V = ActionModel;

    open spec fn view(&self) -> ActionModel {
        match self {
            Action::Idle => ActionModel::Idle,
            Action::Continue => ActionModel::Continue,
            Action::Persist(command) => ActionModel::Persist(command@),
            Action::Respond { response, error } => ActionModel::Respond {
                response: response@,
                error: match error {
                    Some(entry) => Some(entry@),
                    None => None,
                },
            },
        }
    }
}

/// The state that a request ends in, and the response that reports it.
pub open spec fn ending(ended: Result<(), FailureKind>, error: Option<ErrorRecordModel>) -> (
    IntakeModel,
    ActionModel,
) {
    (
        match ended {
            Ok(()) => IntakeModel::Succeeded,
            Err(kind) => IntakeModel::Failed { kind },
        },
        ActionModel::Respond { response: empty_response(status_of(ended)), error },
    )
}

/// The insert that a request with the given form and stamp issues: the
/// context is opened under the stamp's request identifier, the record built
/// under its record identifier and time, and both hold the form's fields
/// verbatim.
pub open spec fn insert_of(form: FormModel, stamp: Stamp) -> InsertCommandModel {
    InsertCommandModel {
        parent: span_for(stamp.request_id, form),
        record: record_for(stamp.record_id, stamp.now, form),
    }
}

/// One step of the handler: the state after `event`, and what the caller is
/// to do. `stamp` is read only by the step that builds the record.
pub open spec fn transition(state: IntakeModel, event: EventModel, stamp: Stamp) -> (
    IntakeModel,
    ActionModel,
) {
    match (state, event) {
        (IntakeModel::Received, EventModel::Body(body)) => (
            IntakeModel::Decoding { body },
            ActionModel::Continue,
        ),
        (IntakeModel::Decoding { body }, EventModel::Proceed) => match decoded_form(body) {
            Some(form) => (IntakeModel::Constructing { form }, ActionModel::Continue),
            None => ending(Err(FailureKind::ClientInput), None),
        },
        (IntakeModel::Constructing { form }, EventModel::Proceed) => {
            let command = insert_of(form, stamp);
            (IntakeModel::Persisting { command }, ActionModel::Persist(command))
        },
        (IntakeModel::Persisting { .. }, EventModel::Stored) => ending(Ok(()), None),
        (IntakeModel::Persisting { command }, EventModel::StoreFailed(cause)) => ending(
            Err(FailureKind::Persistence),
            Some(failure_entry(command, cause)),
        ),
        _ => (state, ActionModel::Idle),
    }
}

impl IntakeModel {
    /// The request has ended: the record is stored, or the request failed.
    pub open spec fn is_finished(self) -> bool {
        self is Succeeded || self is Failed
    }

    /// How far the request has come, counted in states passed.
    pub open spec fn progress(self) -> nat {
        match self {
            IntakeModel::Received => 0,
            IntakeModel::Decoding { .. } => 1,
            IntakeModel::Constructing { .. } => 2,
            IntakeModel::Persisting { .. } => 3,
            IntakeModel::Succeeded => 4,
            IntakeModel::Failed { .. } => 4,
        }
    }
}

impl Intake {
    /// The state of a request of which nothing has been read.
    pub fn new() -> (state: Intake)
        ensures
            state@ == IntakeModel::Received,
    {
        Intake::Received
    }

    /// Takes one step with the identifiers and the time given in `stamp`.
    pub fn step_with(self, event: Event, stamp: Stamp) -> (next: (Intake, Action))
        ensures
            (next.0@, next.1@) == transition(self@, event@, stamp),
    {
        match (self, event) {
            (Intake::Received, Event::Body(body)) => (Intake::Decoding { body }, Action::Continue),
            (Intake::Decoding { body }, Event::Proceed) => match SubscriberData::decode(
                body.as_slice(),
            ) {
                Ok(form) => (Intake::Constructing { form }, Action::Continue),
                Err(kind) => (
                    Intake::Failed { kind },
                    Action::Respond { response: respond(Err(kind)), error: None },
                ),
            },
            (Intake::Constructing { form }, Event::Proceed) => {
                let context = RequestSpan::open(stamp.request_id, &form);
                let record = SubscriberRecord::assemble(stamp.record_id, stamp.now, form);
                let command = insert_subscriber(record, context);
                let issued = command.clone();
                (Intake::Persisting { command }, Action::Persist(issued))
            },
            (Intake::Persisting { .. }, Event::Stored) => (
                Intake::Succeeded,
                Action::Respond { response: respond(Ok(())), error: None },
            ),
            (Intake::Persisting { command }, Event::StoreFailed(failure)) => {
                let kind = FailureKind::Persistence;
                let entry = command.failed(failure);
                (
                    Intake::Failed { kind },
                    Action::Respond { response: respond(Err(kind)), error: Some(entry) },
                )
            },
            (state, _) => (state, Action::Idle),
        }
    }
}

/// Whether a step from `state` on `event` builds the record, and so reads
/// its stamp.
pub open spec fn builds_record(state: IntakeModel, event: EventModel) -> bool {
    state is Constructing && event is Proceed
}

/// The step on `event`, and after it every step that needs nothing from
/// outside: the state in which the handler next waits for its caller, and
/// what it asks of the caller there.
pub open spec fn advance(state: IntakeModel, event: EventModel, stamp: Stamp) -> (
    IntakeModel,
    ActionModel,
)
    decreases 4 - state.progress(),
{
    let next = transition(state, event, stamp);
    if next.1 is Continue {
        advance(next.0, EventModel::Proceed, stamp)
    } else {
        next
    }
}

/// Where a step that led to `next` leads once the handler has gone on for
/// as long as it asked to continue.
pub open spec fn carried_on(next: (IntakeModel, ActionModel), stamp: Stamp) -> (
    IntakeModel,
    ActionModel,
) {
    if next.1 is Continue {
        advance(next.0, EventModel::Proceed, stamp)
    } else {
        next
    }
}

impl Action {
    /// Whether the handler asks to be stepped again with nothing new.
    pub fn asks_to_continue(&self) -> (asked: bool)
        ensures
            asked == (self@ is Continue),
    {
        match self {
            Action::Continue => true,
            _ => false,
        }
    }
}

/// Takes one step, drawing a stamp if the step builds the record.
fn step(state: Intake, event: Event) -> (next: (Intake, Action))
    ensures
        exists|stamp: Stamp| #[trigger]
            stamp.is_fresh() && (next.0@, next.1@) == transition(state@, event@, stamp),
        !builds_record(state@, event@) ==> forall|stamp: Stamp|
            (next.0@, next.1@) == #[trigger] transition(state@, event@, stamp),
{
    let building = match (&state, &event) {
        (Intake::Constructing { .. }, Event::Proceed) => true,
        _ => false,
    };
    if building {
        state.step_with(event, Stamp::draw())
    } else {
        let unread = Stamp { request_id: 0, record_id: 0, now: Timestamp { seconds: 0, nanos: 0 } };
        proof {
            let fresh = Stamp {
                request_id: 0x4000_8000_0000_0000_0000u128,
                record_id: 0x4000_8000_0000_0000_0000u128,
                now: unread.now,
            };
            assert(is_random_identifier(0x4000_8000_0000_0000_0000u128)) by (bit_vector);
            assert(fresh.is_fresh());
            assert(transition(state@, event@, fresh) == transition(state@, event@, unread));
        }
        state.step_with(event, unread)
    }
}

/// Handles one event of a subscription request, and goes on for as long as
/// nothing is needed from outside: it returns when there is an insert to
/// run or a response to send, or when the event did not concern the state.
/// The step that builds the record takes a new identifier for the request,
/// one for the record, and the current time.
pub fn subscribe(state: Intake, event: Event) -> (next: (Intake, Action))
    ensures
        exists|stamp: Stamp| #[trigger]
            stamp.is_fresh() && (next.0@, next.1@) == advance(state@, event@, stamp),
{
    let ghost start = (state@, event@);
    let mut current: (Intake, Action) = step(state, event);
    proof {
        let drawn = choose|stamp: Stamp| #[trigger]
            stamp.is_fresh() && (current.0@, current.1@) == transition(start.0, start.1, stamp);
        assert(carried_on((current.0@, current.1@), drawn) == advance(start.0, start.1, drawn));
    }
    while current.1.asks_to_continue()
        invariant
            exists|stamp: Stamp| #[trigger]
                stamp.is_fresh() && carried_on((current.0@, current.1@), stamp) == advance(
                    start.0,
                    start.1,
                    stamp,
                ),
            current.1@ is Continue ==> forall|stamp: Stamp|
                advance(current.0@, EventModel::Proceed, stamp) == #[trigger] advance(
                    start.0,
                    start.1,
                    stamp,
                ),
        decreases (if current.1@ is Continue { 5 - current.0@.progress() } else { 0 }),
    {
        let (state, _) = current;
        let ghost before = state@;
        current = step(state, Event::Proceed);
        proof {
            let drawn = choose|stamp: Stamp| #[trigger]
                stamp.is_fresh() && (current.0@, current.1@) == transition(
                    before,
                    EventModel::Proceed,
                    stamp,
                );
            assert(carried_on((current.0@, current.1@), drawn) == advance(
                before,
                EventModel::Proceed,
                drawn,
            ));
            assert(advance(before, EventModel::Proceed, drawn) == advance(start.0, start.1, drawn));
            if current.1@ is Continue {
                assert forall|stamp: Stamp|
                    advance(current.0@, EventModel::Proceed, stamp) == #[trigger] advance(
                        start.0,
                        start.1,
                        stamp,
                    ) by {
                    assert((current.0@, current.1@) == transition(
                        before,
                        EventModel::Proceed,
                        stamp,
                    ));
                    assert(advance(before, EventModel::Proceed, stamp) == advance(
                        start.0,
                        start.1,
                        stamp,
                    ));
                }
            }
        }
    }
    current
}

} // verus!
