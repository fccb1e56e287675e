//! What holds of every run of the handler, whatever events arrive and in
//! whatever order.

use vstd::prelude::*;

use crate::diagnostics::ErrorRecordModel;
use crate::form::decoded_form;
use crate::gateway::{failure_entry, InsertCommandModel};
use crate::intake::{advance, ending, insert_of, transition, ActionModel, EventModel, IntakeModel};
use crate::outcome::{empty_response, FailureKind, ResponseModel};
use crate::record::Stamp;

verus! {

/// One step's input: the event, and the stamp that the step may read.
pub type Input = (EventModel, Stamp);

/// The state that a new request reaches on `inputs`, and the actions
/// answered on the way, in order.
pub open spec fn run(inputs: Seq<Input>) -> (IntakeModel, Seq<ActionModel>)
    decreases inputs.len(),
{
    if inputs.len() == 0 {
        (IntakeModel::Received, Seq::empty())
    } else {
        let (before, actions) = run(inputs.drop_last());
        let (after, action) = transition(before, inputs.last().0, inputs.last().1);
        (after, actions.push(action))
    }
}

/// The inserts among `actions`, in order.
pub open spec fn inserts_issued(actions: Seq<ActionModel>) -> Seq<InsertCommandModel> {
    actions.filter_map(
        |action: ActionModel|
            match action {
                ActionModel::Persist(command) => Some(command),
                _ => None,
            },
    )
}

/// The responses among `actions`, each with its error entry, in order.
pub open spec fn responses_sent(actions: Seq<ActionModel>) -> Seq<
    (ResponseModel, Option<ErrorRecordModel>),
> {
    actions.filter_map(
        |action: ActionModel|
            match action {
                ActionModel::Respond { response, error } => Some((response, error)),
                _ => None,
            },
    )
}

/// A response with the given status, without body or error entry.
pub open spec fn plain_response(status: u16) -> (ResponseModel, Option<ErrorRecordModel>) {
    (empty_response(status), None)
}

/// What a request in `state` has asked of its caller so far, if `actions` is
/// all it answered:
/// - before the record is built: nothing;
/// - while the store is awaited: the one insert that the state holds;
/// - after success: one insert, then status 200;
/// - after a refused form: no insert, and status 400;
/// - after a failed insert: one insert, then status 500 with an error entry
///   that names the context and the record of that very insert.
/// The context of an insert names the subscriber of its record. No response
/// has a body, and only a failed insert leaves an error entry.
pub open spec fn accounts_for(state: IntakeModel, actions: Seq<ActionModel>) -> bool {
    let inserts = inserts_issued(actions);
    let responses = responses_sent(actions);
    match state {
        IntakeModel::Received | IntakeModel::Decoding { .. } | IntakeModel::Constructing { .. } => {
            inserts.len() == 0 && responses.len() == 0
        },
        IntakeModel::Persisting { command } => {
            &&& inserts == seq![command]
            &&& command.names_its_subscriber()
            &&& responses.len() == 0
        },
        IntakeModel::Succeeded => {
            &&& inserts.len() == 1
            &&& inserts[0].names_its_subscriber()
            &&& responses == seq![plain_response(200)]
        },
        IntakeModel::Failed { kind: FailureKind::ClientInput } => {
            inserts.len() == 0 && responses == seq![plain_response(400)]
        },
        IntakeModel::Failed { kind: FailureKind::Persistence } => {
            &&& inserts.len() == 1
            &&& inserts[0].names_its_subscriber()
            &&& responses.len() == 1
            &&& responses[0].0 == empty_response(500)
            &&& responses[0].1 matches Some(entry)
            &&& entry == failure_entry(inserts[0], entry.cause)
        },
    }
}

/// One more action adds at most itself to the inserts and to the responses.
pub(crate) proof fn lemma_one_more_action(actions: Seq<ActionModel>, action: ActionModel)
    ensures
        inserts_issued(actions.push(action)) == match action {
            ActionModel::Persist(command) => inserts_issued(actions).push(command),
            _ => inserts_issued(actions),
        },
        responses_sent(actions.push(action)) == match action {
            ActionModel::Respond { response, error } => responses_sent(actions).push(
                (response, error),
            ),
            _ => responses_sent(actions),
        },
{
    reveal(Seq::filter_map);
    assert(actions.push(action).drop_last() =~= actions);
}

/// A step either changes nothing and asks for nothing, or moves the request
/// forward.
pub proof fn lemma_step_goes_forward(state: IntakeModel, event: EventModel, stamp: Stamp)
    ensures
        ({
            let (after, action) = transition(state, event, stamp);
            (after == state && action is Idle) || after.progress() > state.progress()
        }),
{
}

/// A request that has ended stays as it ended: no event starts it again,
/// and none makes it ask for anything. In particular nothing is retried.
pub proof fn lemma_finished_request_stays_finished(
    state: IntakeModel,
    event: EventModel,
    stamp: Stamp,
)
    requires
        state.is_finished(),
    ensures
        transition(state, event, stamp) == (state, ActionModel::Idle),
{
}

/// Going on by itself, the handler stops where it needs its caller: it
/// never hands back a request to continue.
pub proof fn lemma_advance_waits_for_the_caller(
    state: IntakeModel,
    event: EventModel,
    stamp: Stamp,
)
    ensures
        !(advance(state, event, stamp).1 is Continue),
    decreases 4 - state.progress(),
{
    let next = transition(state, event, stamp);
    if next.1 is Continue {
        lemma_advance_waits_for_the_caller(next.0, EventModel::Proceed, stamp);
    }
}

/// From its body, a new request goes as far as the store: a body that
/// carries a form leads to the insert of that form's record, with the store
/// awaited; any other body ends the request with status 400, and nothing
/// is built.
pub proof fn lemma_body_leads_to_the_store_or_is_refused(body: Seq<u8>, stamp: Stamp)
    ensures
        advance(IntakeModel::Received, EventModel::Body(body), stamp) == match decoded_form(body) {
            Some(form) => (
                IntakeModel::Persisting { command: insert_of(form, stamp) },
                ActionModel::Persist(insert_of(form, stamp)),
            ),
            None => ending(Err(FailureKind::ClientInput), None),
        },
{
    reveal_with_fuel(advance, 3);
}

/// The store's answer ends the request at once: success with status 200,
/// failure with status 500 and an error entry for the insert that failed.
/// Nothing is tried again.
pub proof fn lemma_answer_ends_the_request(
    command: InsertCommandModel,
    answer: EventModel,
    stamp: Stamp,
)
    ensures
        advance(IntakeModel::Persisting { command }, answer, stamp) == match answer {
            EventModel::Stored => ending(Ok(()), None),
            EventModel::StoreFailed(cause) => ending(
                Err(FailureKind::Persistence),
                Some(failure_entry(command, cause)),
            ),
            _ => (IntakeModel::Persisting { command }, ActionModel::Idle),
        },
{
}

/// Whatever events arrive, the actions of a run are accounted for by the
/// state it reached, as [`accounts_for`] says.
pub proof fn lemma_every_run_is_accounted_for(inputs: Seq<Input>)
    ensures
        accounts_for(run(inputs).0, run(inputs).1),
    decreases inputs.len(),
{
    if inputs.len() == 0 {
        reveal(Seq::filter_map);
    } else {
        lemma_every_run_is_accounted_for(inputs.drop_last());
        let (before, actions) = run(inputs.drop_last());
        let (after, action) = transition(before, inputs.last().0, inputs.last().1);
        assert(run(inputs) == (after, actions.push(action)));
        lemma_one_more_action(actions, action);
        let inserts = inserts_issued(actions);
        let responses = responses_sent(actions);
        match action {
            ActionModel::Persist(command) => {
                assert(inserts.push(command) =~= seq![command]);
            },
            ActionModel::Respond { response, error } => {
                assert(responses.push((response, error)) =~= seq![(response, error)]);
            },
            _ => {},
        }
    }
}

/// No run issues more than one insert or sends more than one response, and
/// a response is sent exactly when the request has ended.
pub proof fn lemma_one_insert_one_response(inputs: Seq<Input>)
    ensures
        inserts_issued(run(inputs).1).len() <= 1,
        responses_sent(run(inputs).1).len() == if run(inputs).0.is_finished() {
            1nat
        } else {
            0nat
        },
{
    lemma_every_run_is_accounted_for(inputs);
}

/// Once a request has ended, further events change nothing: the state, the
/// inserts issued and the responses sent stay as they were.
pub proof fn lemma_nothing_follows_the_end(inputs: Seq<Input>, later: Seq<Input>)
    requires
        run(inputs).0.is_finished(),
    ensures
        run(inputs + later).0 == run(inputs).0,
        inserts_issued(run(inputs + later).1) == inserts_issued(run(inputs).1),
        responses_sent(run(inputs + later).1) == responses_sent(run(inputs).1),
    decreases later.len(),
{
    if later.len() == 0 {
        assert(inputs + later =~= inputs);
    } else {
        lemma_nothing_follows_the_end(inputs, later.drop_last());
        assert((inputs + later).drop_last() =~= inputs + later.drop_last());
        lemma_one_more_action(run(inputs + later.drop_last()).1, ActionModel::Idle);
    }
}

/// The inputs of one request from its body to the store's answer: the body
/// arrives, the form is decoded, the record is built, the store answers.
pub open spec fn submission(body: Seq<u8>, stamp: Stamp, answer: EventModel) -> Seq<Input> {
    seq![
        (EventModel::Body(body), stamp),
        (EventModel::Proceed, stamp),
        (EventModel::Proceed, stamp),
        (answer, stamp),
    ]
}

/// The run of a submission is its four steps, one after the other; before
/// the store answers, the first three have been taken.
pub(crate) proof fn lemma_submission_unfolds(body: Seq<u8>, stamp: Stamp, answer: EventModel)
    ensures
        ({
            let (decoding, a0) = transition(IntakeModel::Received, EventModel::Body(body), stamp);
            let (constructing, a1) = transition(decoding, EventModel::Proceed, stamp);
            let (persisting, a2) = transition(constructing, EventModel::Proceed, stamp);
            let (ended, a3) = transition(persisting, answer, stamp);
            &&& run(submission(body, stamp, answer).drop_last()) == (persisting, seq![a0, a1, a2])
            &&& run(submission(body, stamp, answer)) == (ended, seq![a0, a1, a2, a3])
        }),
{
    let inputs = submission(body, stamp, answer);
    let three = inputs.drop_last();
    let two = three.drop_last();
    let one = two.drop_last();
    assert(one.drop_last() =~= Seq::<Input>::empty());
    reveal_with_fuel(run, 5);
    let (decoding, a0) = transition(IntakeModel::Received, EventModel::Body(body), stamp);
    let (constructing, a1) = transition(decoding, EventModel::Proceed, stamp);
    let (persisting, a2) = transition(constructing, EventModel::Proceed, stamp);
    let (ended, a3) = transition(persisting, answer, stamp);
    assert(run(one) == (decoding, seq![a0])) by {
        assert(Seq::<ActionModel>::empty().push(a0) =~= seq![a0]);
    }
    assert(run(two) == (constructing, seq![a0, a1])) by {
        assert(seq![a0].push(a1) =~= seq![a0, a1]);
    }
    assert(run(three) == (persisting, seq![a0, a1, a2])) by {
        assert(seq![a0, a1].push(a2) =~= seq![a0, a1, a2]);
    }
    assert(seq![a0, a1, a2].push(a3) =~= seq![a0, a1, a2, a3]);
}

/// The inserts and responses of actions taken one after the other are those
/// of the first followed by those of the second.
pub(crate) proof fn lemma_actions_in_sequence(first: Seq<ActionModel>, second: Seq<ActionModel>)
    ensures
        inserts_issued(first + second) == inserts_issued(first) + inserts_issued(second),
        responses_sent(first + second) == responses_sent(first) + responses_sent(second),
    decreases second.len(),
{
    if second.len() == 0 {
        reveal(Seq::filter_map);
        assert(first + second =~= first);
        assert(inserts_issued(first) + inserts_issued(second) =~= inserts_issued(first));
        assert(responses_sent(first) + responses_sent(second) =~= responses_sent(first));
    } else {
        let shorter = second.drop_last();
        lemma_actions_in_sequence(first, shorter);
        lemma_one_more_action(first + shorter, second.last());
        lemma_one_more_action(shorter, second.last());
        assert((first + shorter).push(second.last()) =~= first + second);
        assert(shorter.push(second.last()) =~= second);
        match second.last() {
            ActionModel::Persist(command) => {
                assert((inserts_issued(first) + inserts_issued(shorter)).push(command)
                    =~= inserts_issued(first) + inserts_issued(shorter).push(command));
            },
            ActionModel::Respond { response, error } => {
                assert((responses_sent(first) + responses_sent(shorter)).push((response, error))
                    =~= responses_sent(first) + responses_sent(shorter).push((response, error)));
            },
            _ => {},
        }
    }
}

/// A request served in two calls, the body first and then the store's
/// answer, runs as a submission does: it ends in the same state, having
/// issued the same inserts and sent the same responses.
pub proof fn lemma_two_calls_serve_a_submission(body: Seq<u8>, stamp: Stamp, answer: EventModel)
    ensures
        ({
            let (waiting, asked) = advance(IntakeModel::Received, EventModel::Body(body), stamp);
            let (ended, replied) = advance(waiting, answer, stamp);
            let (state, actions) = run(submission(body, stamp, answer));
            &&& state == ended
            &&& inserts_issued(actions) == inserts_issued(seq![asked, replied])
            &&& responses_sent(actions) == responses_sent(seq![asked, replied])
        }),
{
    let (waiting, asked) = advance(IntakeModel::Received, EventModel::Body(body), stamp);
    let (ended, replied) = advance(waiting, answer, stamp);
    let actions = run(submission(body, stamp, answer)).1;
    lemma_body_leads_to_the_store_or_is_refused(body, stamp);
    lemma_submission_unfolds(body, stamp, answer);
    let idle = ActionModel::Idle;
    let go_on = ActionModel::Continue;
    reveal_with_fuel(Seq::filter_map, 3);
    if decoded_form(body) is Some {
        assert(actions =~= seq![go_on, go_on] + seq![asked, replied]);
        lemma_actions_in_sequence(seq![go_on, go_on], seq![asked, replied]);
        lemma_one_more_action(seq![go_on], go_on);
        lemma_one_more_action(Seq::empty(), go_on);
        assert(Seq::<ActionModel>::empty().push(go_on) =~= seq![go_on]);
        assert(seq![go_on].push(go_on) =~= seq![go_on, go_on]);
        assert(inserts_issued(seq![go_on, go_on]) + inserts_issued(seq![asked, replied])
            =~= inserts_issued(seq![asked, replied]));
        assert(responses_sent(seq![go_on, go_on]) + responses_sent(seq![asked, replied])
            =~= responses_sent(seq![asked, replied]));
    } else {
        assert(replied == idle);
        assert(actions =~= seq![go_on] + seq![asked, replied] + seq![idle]);
        lemma_actions_in_sequence(seq![go_on] + seq![asked, replied], seq![idle]);
        lemma_actions_in_sequence(seq![go_on], seq![asked, replied]);
        lemma_one_more_action(Seq::empty(), go_on);
        lemma_one_more_action(Seq::empty(), idle);
        assert(Seq::<ActionModel>::empty().push(go_on) =~= seq![go_on]);
        assert(Seq::<ActionModel>::empty().push(idle) =~= seq![idle]);
        assert(inserts_issued(seq![go_on]) + inserts_issued(seq![asked, replied]) + inserts_issued(
            seq![idle],
        ) =~= inserts_issued(seq![asked, replied]));
        assert(responses_sent(seq![go_on]) + responses_sent(seq![asked, replied]) + responses_sent(
            seq![idle],
        ) =~= responses_sent(seq![asked, replied]));
    }
}

} // verus!
