//! The durable subscriber record, and the two things only the outside world
//! can supply for it: a new identifier and the current time.

use vstd::prelude::*;

use crate::form::{FormModel, SubscriberData};

verus! {

/// An instant in UTC: whole seconds since 1970-01-01T00:00:00Z and the
/// nanoseconds into that second.
#[derive(Clone, Copy, Debug, PartialEq, Eq, PartialOrd, Ord)]
pub struct Timestamp {
    pub seconds: i64,
    pub nanos: u32,
}

impl Timestamp {
    /// The nanosecond part stays within one second.
    pub open spec fn well_formed(self) -> bool {
        self.nanos < 1_000_000_000
    }

    /// This instant is `earlier`, or comes after it.
    pub open spec fn at_or_after(self, earlier: Timestamp) -> bool {
        ||| self.seconds > earlier.seconds
        ||| self.seconds == earlier.seconds && self.nanos >= earlier.nanos
    }
}

/// `id` has the layout of a random (version 4) identifier: the version
/// nibble is 4 and the two variant bits are `10`.
pub open spec fn is_random_identifier(id: u128) -> bool {
    id & 0xf000_c000_0000_0000_0000u128 == 0x4000_8000_0000_0000_0000u128
}

/// What one request takes from the outside world: an identifier for the
/// request, an identifier for the record, and the time of insertion.
#[derive(Clone, Copy, Debug)]
pub struct Stamp {
    pub request_id: u128,
    pub record_id: u128,
    pub now: Timestamp,
}

impl Stamp {
    /// What holds of every stamp that [`Stamp::draw`] hands out.
    pub open spec fn is_fresh(self) -> bool {
        &&& is_random_identifier(self.request_id)
        &&& is_random_identifier(self.record_id)
        &&& self.now.well_formed()
        &&& self.now.seconds >= 0
    }

    /// Takes two new identifiers and the current time.
    pub fn draw() -> (stamp: Stamp)
        ensures
            stamp.is_fresh(),
    {
        let request_id: u128 = new_identifier();
        let record_id: u128 = new_identifier();
        let now: Timestamp = current_time();
        Stamp { request_id, record_id, now }
    }
}

/// Calls `uuid::Uuid::new_v4` and returns the identifier as the 128-bit
/// number that `Uuid::as_u128` gives. Trusted: the identifier is random, so
/// only its fixed bits are stated, the version nibble and the variant bits
/// that `new_v4` sets on every identifier it returns. The call does not
/// return if the system's source of randomness fails.
#[verifier::external_body]
fn new_identifier() -> (id: u128)
    ensures
        is_random_identifier(id),
{
    uuid::Uuid::new_v4().as_u128()
}

/// Calls `chrono::Utc::now` and returns the instant as `DateTime::timestamp`
/// and `DateTime::timestamp_subsec_nanos` give it. Trusted: `now` builds the
/// instant from the time elapsed since the Unix epoch, so the seconds are
/// not negative and the nanoseconds stay below one second; it does not
/// return if the system clock stands before that epoch. Nothing is said of
/// how two calls compare: the system clock may be set back.
#[verifier::external_body]
fn current_time() -> (now: Timestamp)
    ensures
        now.well_formed(),
        now.seconds >= 0,
{
    let now = chrono::Utc::now();
    Timestamp { seconds: now.timestamp(), nanos: now.timestamp_subsec_nanos() }
}

/// One stored subscriber. A record is built once and never changed.
#[derive(Debug)]
pub struct SubscriberRecord {
    pub id: u128,
    pub email: String,
    pub name: String,
    pub subscribed_at: Timestamp,
}

/// What a [`SubscriberRecord`] holds.
pub struct RecordModel {
    pub id: u128,
    pub email: Seq<char>,
    pub name: Seq<char>,
    pub subscribed_at: Timestamp,
}

impl View for SubscriberRecord {
    type V = RecordModel;

    open spec fn view(&self) -> RecordModel {
        RecordModel {
            id: self.id,
            email: self.email@,
            name: self.name@,
            subscribed_at: self.subscribed_at,
        }
    }
}

/// The record for `form` under the given identifier and time: both fields
/// copied verbatim.
pub open spec fn record_for(id: u128, at: Timestamp, form: FormModel) -> RecordModel {
    RecordModel { id, email: form.email, name: form.name, subscribed_at: at }
}

impl Clone for SubscriberRecord {
    fn clone(&self) -> (copy: SubscriberRecord)
        ensures
            copy@ == self@,
    {
        SubscriberRecord {
            id: self.id,
            email: self.email.clone(),
            name: self.name.clone(),
            subscribed_at: self.subscribed_at,
        }
    }
}

impl SubscriberRecord {
    /// Builds the record for `form` under the given identifier and time.
    pub fn assemble(id: u128, at: Timestamp, form: SubscriberData) -> (record: SubscriberRecord)
        ensures
            record@ == record_for(id, at, form@),
    {
        SubscriberRecord { id, email: form.email, name: form.name, subscribed_at: at }
    }
}

} // verus!
