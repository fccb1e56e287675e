//! What the subscriber store comes to hold as requests are served, for a
//! store that keeps its word: it holds the whole record of an insert that it
//! answered [`EventModel::Stored`] to, and nothing of any other.

use vstd::prelude::*;

use crate::form::{decoded_form, FormModel};
use crate::gateway::failure_entry;
use crate::intake::{insert_of, transition, ActionModel, EventModel, IntakeModel};
use crate::laws::{
    inserts_issued, lemma_every_run_is_accounted_for, lemma_nothing_follows_the_end,
    lemma_one_more_action, lemma_submission_unfolds, plain_response, responses_sent, run,
    submission, Input,
};
use crate::outcome::{empty_response, FailureKind};
use crate::record::{record_for, RecordModel, Stamp};

verus! {

/// The rows of the subscriber store, oldest first.
pub type Rows = Seq<RecordModel>;

/// The rows after a request with the given inputs: the record of its insert
/// is added at the step at which the store answers that it took it.
pub open spec fn rows_after(rows: Rows, inputs: Seq<Input>) -> Rows
    decreases inputs.len(),
{
    if inputs.len() == 0 {
        rows
    } else {
        let earlier = rows_after(rows, inputs.drop_last());
        match (run(inputs.drop_last()).0, inputs.last().0) {
            (IntakeModel::Persisting { command }, EventModel::Stored) => earlier.push(
                command.record,
            ),
            _ => earlier,
        }
    }
}

/// The record that a request has stored: that of its insert, once the
/// request has ended in success.
pub open spec fn stored_by(inputs: Seq<Input>) -> Option<RecordModel> {
    let (state, actions) = run(inputs);
    if state is Succeeded {
        Some(inserts_issued(actions)[0].record)
    } else {
        None
    }
}

/// Whatever events arrive, a request adds a record to the store exactly
/// when it ends in success, which is exactly when its response has status
/// 200; the record is that of its one insert, whole. In every other case
/// the store is left as it was.
pub proof fn lemma_stored_exactly_on_success(rows: Rows, inputs: Seq<Input>)
    ensures
        rows_after(rows, inputs) == match stored_by(inputs) {
            Some(record) => rows.push(record),
            None => rows,
        },
        stored_by(inputs) is Some <==> responses_sent(run(inputs).1) == seq![plain_response(200)],
    decreases inputs.len(),
{
    lemma_every_run_is_accounted_for(inputs);
    if inputs.len() > 0 {
        let shorter = inputs.drop_last();
        lemma_stored_exactly_on_success(rows, shorter);
        lemma_every_run_is_accounted_for(shorter);
        let (before, actions) = run(shorter);
        let (after, action) = transition(before, inputs.last().0, inputs.last().1);
        assert(run(inputs) == (after, actions.push(action)));
        lemma_one_more_action(actions, action);
    }
    let responses = responses_sent(run(inputs).1);
    if responses == seq![plain_response(200)] {
        assert(responses[0] == plain_response(200));
    }
}

/// One request served from its body to the store's answer.
pub struct Submission {
    pub body: Seq<u8>,
    pub stamp: Stamp,
    pub answer: EventModel,
}

impl Submission {
    /// The inputs of the request, step by step.
    pub open spec fn inputs(self) -> Seq<Input> {
        submission(self.body, self.stamp, self.answer)
    }

    /// The record that the request stores: that of the form it carries,
    /// under its stamp, if it carries a form and the store takes the record.
    pub open spec fn record(self) -> Option<RecordModel> {
        match (decoded_form(self.body), self.answer) {
            (Some(form), EventModel::Stored) => Some(insert_of(form, self.stamp).record),
            _ => None,
        }
    }
}

/// The rows after serving `submissions` one after the other.
pub open spec fn served(rows: Rows, submissions: Seq<Submission>) -> Rows
    decreases submissions.len(),
{
    if submissions.len() == 0 {
        rows
    } else {
        rows_after(served(rows, submissions.drop_last()), submissions.last().inputs())
    }
}

/// A submission adds its record to the store, or leaves the store as it was.
pub proof fn lemma_submission_stores_its_record(rows: Rows, request: Submission)
    ensures
        rows_after(rows, request.inputs()) == match request.record() {
            Some(record) => rows.push(record),
            None => rows,
        },
{
    let inputs = request.inputs();
    lemma_submission_unfolds(request.body, request.stamp, request.answer);
    lemma_stored_exactly_on_success(rows, inputs);
    lemma_every_run_is_accounted_for(inputs.drop_last());
    let (persisting, issued) = run(inputs.drop_last());
    let (ended, action) = transition(persisting, request.answer, request.stamp);
    lemma_one_more_action(issued, action);
}

/// A body that carries a form, and a store that takes the record: the
/// request issues the one insert of that form's record and ends with
/// status 200 and no body, and the record is in the store afterward, once
/// more than before.
pub proof fn lemma_complete_form_is_stored(
    rows: Rows,
    body: Seq<u8>,
    form: FormModel,
    stamp: Stamp,
)
    requires
        decoded_form(body) == Some(form),
    ensures
        run(submission(body, stamp, EventModel::Stored)) == (
            IntakeModel::Succeeded,
            seq![
                ActionModel::Continue,
                ActionModel::Continue,
                ActionModel::Persist(insert_of(form, stamp)),
                ActionModel::Respond { response: empty_response(200), error: None },
            ],
        ),
        rows_after(rows, submission(body, stamp, EventModel::Stored)) == rows.push(
            record_for(stamp.record_id, stamp.now, form),
        ),
{
    lemma_submission_unfolds(body, stamp, EventModel::Stored);
    lemma_submission_stores_its_record(rows, Submission { body, stamp, answer: EventModel::Stored });
}

/// A body that carries no form, for want of a field or otherwise: the
/// request ends with status 400 before anything is built, and whatever
/// events follow, no insert is issued and the store is left as it was.
pub proof fn lemma_incomplete_form_is_refused(
    rows: Rows,
    body: Seq<u8>,
    stamp: Stamp,
    later: Seq<Input>,
)
    requires
        decoded_form(body) is None,
    ensures
        ({
            let inputs = seq![(EventModel::Body(body), stamp), (EventModel::Proceed, stamp)]
                + later;
            let (state, actions) = run(inputs);
            &&& state == IntakeModel::Failed { kind: FailureKind::ClientInput }
            &&& inserts_issued(actions).len() == 0
            &&& responses_sent(actions) == seq![plain_response(400)]
            &&& rows_after(rows, inputs) == rows
        }),
{
    let first = seq![(EventModel::Body(body), stamp), (EventModel::Proceed, stamp)];
    reveal_with_fuel(run, 3);
    assert(first.drop_last() =~= seq![(EventModel::Body(body), stamp)]);
    assert(first.drop_last().drop_last() =~= Seq::<Input>::empty());
    assert(run(first).0 == IntakeModel::Failed { kind: FailureKind::ClientInput });
    lemma_every_run_is_accounted_for(first);
    lemma_nothing_follows_the_end(first, later);
    lemma_stored_exactly_on_success(rows, first + later);
}

/// A body that carries a form, and a store that fails: the request issues
/// the one insert, ends with status 500 and no body, and leaves an error
/// entry with the context and record of that insert and the store's cause.
/// The store is left as it was.
pub proof fn lemma_store_failure_is_a_server_error(
    rows: Rows,
    body: Seq<u8>,
    form: FormModel,
    stamp: Stamp,
    cause: Seq<char>,
)
    requires
        decoded_form(body) == Some(form),
    ensures
        run(submission(body, stamp, EventModel::StoreFailed(cause))) == (
            IntakeModel::Failed { kind: FailureKind::Persistence },
            seq![
                ActionModel::Continue,
                ActionModel::Continue,
                ActionModel::Persist(insert_of(form, stamp)),
                ActionModel::Respond {
                    response: empty_response(500),
                    error: Some(failure_entry(insert_of(form, stamp), cause)),
                },
            ],
        ),
        rows_after(rows, submission(body, stamp, EventModel::StoreFailed(cause))) == rows,
{
    lemma_submission_unfolds(body, stamp, EventModel::StoreFailed(cause));
    lemma_submission_stores_its_record(
        rows,
        Submission { body, stamp, answer: EventModel::StoreFailed(cause) },
    );
}

/// The same form submitted twice is stored twice: nothing compares a
/// submission with an earlier one. The two records hold the same name and
/// email, and differ in their identifiers as their stamps do.
pub proof fn lemma_resubmission_is_stored_again(
    rows: Rows,
    body: Seq<u8>,
    form: FormModel,
    first: Stamp,
    second: Stamp,
)
    requires
        decoded_form(body) == Some(form),
    ensures
        ({
            let twice = seq![
                Submission { body, stamp: first, answer: EventModel::Stored },
                Submission { body, stamp: second, answer: EventModel::Stored },
            ];
            let one = record_for(first.record_id, first.now, form);
            let other = record_for(second.record_id, second.now, form);
            &&& served(rows, twice) == rows.push(one).push(other)
            &&& one.name == other.name
            &&& one.email == other.email
            &&& first.record_id != second.record_id ==> one.id != other.id
        }),
{
    let a = Submission { body, stamp: first, answer: EventModel::Stored };
    let b = Submission { body, stamp: second, answer: EventModel::Stored };
    let twice = seq![a, b];
    reveal_with_fuel(served, 3);
    assert(twice.drop_last() =~= seq![a]);
    assert(twice.drop_last().drop_last() =~= Seq::<Submission>::empty());
    lemma_submission_stores_its_record(rows, a);
    lemma_submission_stores_its_record(rows.push(record_for(first.record_id, first.now, form)), b);
}

/// Every row was stored by one of the submissions.
pub open spec fn rows_stem_from(rows: Rows, submissions: Seq<Submission>) -> bool {
    forall|i: int|
        #![trigger rows[i]]
        0 <= i < rows.len() ==> exists|k: int|
            #![trigger submissions[k]]
            0 <= k < submissions.len() && submissions[k].record() == Some(rows[i])
}

/// A store that started empty holds nothing but what the submissions served
/// have stored.
pub proof fn lemma_rows_stem_from_submissions(submissions: Seq<Submission>)
    ensures
        rows_stem_from(served(Seq::empty(), submissions), submissions),
    decreases submissions.len(),
{
    if submissions.len() > 0 {
        let earlier = submissions.drop_last();
        let last = submissions.last();
        let before = served(Seq::empty(), earlier);
        let rows = served(Seq::empty(), submissions);
        lemma_rows_stem_from_submissions(earlier);
        lemma_submission_stores_its_record(before, last);
        assert forall|i: int| #![trigger rows[i]] 0 <= i < rows.len() implies exists|k: int|
            #![trigger submissions[k]]
            0 <= k < submissions.len() && submissions[k].record() == Some(rows[i]) by {
            if i < before.len() {
                assert(rows[i] == before[i]);
                let k = choose|k: int|
                    #![trigger earlier[k]]
                    0 <= k < earlier.len() && earlier[k].record() == Some(before[i]);
                assert(submissions[k] == earlier[k]);
            } else {
                assert(submissions[submissions.len() - 1].record() == Some(rows[i]));
            }
        }
    }
}

/// Stored identifiers are pairwise distinct, as far as the identifiers drawn
/// are: a store that started empty, after submissions of which no two that
/// stored a record drew the same record identifier, holds no identifier
/// twice. That two draws differ is a matter of chance, and not claimed here.
pub proof fn lemma_stored_identifiers_are_distinct(submissions: Seq<Submission>)
    requires
        forall|i: int, j: int|
            0 <= i < j < submissions.len() && submissions[i].record() is Some
                && submissions[j].record() is Some ==> submissions[i].stamp.record_id
                != submissions[j].stamp.record_id,
    ensures
        ({
            let rows = served(Seq::empty(), submissions);
            forall|i: int, j: int| 0 <= i < j < rows.len() ==> rows[i].id != rows[j].id
        }),
    decreases submissions.len(),
{
    if submissions.len() > 0 {
        let earlier = submissions.drop_last();
        let last = submissions.last();
        let before = served(Seq::empty(), earlier);
        let rows = served(Seq::empty(), submissions);
        lemma_stored_identifiers_are_distinct(earlier);
        lemma_rows_stem_from_submissions(earlier);
        lemma_submission_stores_its_record(before, last);
        assert forall|i: int, j: int| 0 <= i < j < rows.len() implies rows[i].id != rows[j].id by {
            assert(rows[i] == before[i]);
            if j < before.len() {
                assert(rows[j] == before[j]);
            } else {
                let k = choose|k: int|
                    #![trigger earlier[k]]
                    0 <= k < earlier.len() && earlier[k].record() == Some(before[i]);
                assert(submissions[k] == earlier[k]);
                assert(last.record() == Some(rows[j]));
            }
        }
    }
}

/// Records keep the order of their stamps: a store that started empty,
/// after submissions of which none that stored a record was stamped earlier
/// than one that stored a record before it, holds no record earlier than
/// the one before it. That a later draw reads a later time is the clock's
/// matter, and not claimed here.
pub proof fn lemma_records_keep_the_order_of_their_stamps(submissions: Seq<Submission>)
    requires
        forall|i: int, j: int|
            0 <= i < j < submissions.len() && submissions[i].record() is Some
                && submissions[j].record() is Some ==> submissions[j].stamp.now.at_or_after(
                submissions[i].stamp.now,
            ),
    ensures
        ({
            let rows = served(Seq::empty(), submissions);
            forall|i: int, j: int|
                0 <= i < j < rows.len() ==> rows[j].subscribed_at.at_or_after(
                    rows[i].subscribed_at,
                )
        }),
    decreases submissions.len(),
{
    if submissions.len() > 0 {
        let earlier = submissions.drop_last();
        let last = submissions.last();
        let before = served(Seq::empty(), earlier);
        let rows = served(Seq::empty(), submissions);
        lemma_records_keep_the_order_of_their_stamps(earlier);
        lemma_rows_stem_from_submissions(earlier);
        lemma_submission_stores_its_record(before, last);
        assert forall|i: int, j: int|
            0 <= i < j < rows.len() implies rows[j].subscribed_at.at_or_after(
            rows[i].subscribed_at,
        ) by {
            assert(rows[i] == before[i]);
            if j < before.len() {
                assert(rows[j] == before[j]);
            } else {
                let k = choose|k: int|
                    #![trigger earlier[k]]
                    0 <= k < earlier.len() && earlier[k].record() == Some(before[i]);
                assert(submissions[k] == earlier[k]);
                assert(last.record() == Some(rows[j]));
                assert(last == submissions[submissions.len() - 1]);
            }
        }
    }
}

} // verus!
