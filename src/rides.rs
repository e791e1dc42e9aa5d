//! The ride lifecycle: create, check arrival, finalise.
//!
//! A ride is pending while its record is in the store. Arrival is computed
//! afresh on every check and never stored. Finalising hands the arrival
//! message to the notifier and then deletes the record, whatever became of
//! the message; after that every operation on the id reports `NotFound`.
use vstd::prelude::*;
use crate::coord::{coordinate_value, parse_coordinate};
use crate::geo::{arrived, is_arrived};
use crate::ident::{is_v4_uuid_text, new_ride_id};
use crate::phone::{normalized_contact, PhonePolicy};
use crate::ride::{Ride, RideModel};
use crate::store::{RideStore, StoreError};

verus! {

/// Why a lifecycle operation failed.
#[derive(Clone, Copy, Debug, PartialEq, Eq, Structural)]
pub enum RideError {
    /// No ride holds this id: never created, or already finalised.
    NotFound,
    /// The store could not be reached.
    StoreUnavailable,
    /// The store refused the write; nothing was written.
    StoreWriteError,
    /// The notifier could not be reached.
    NotifierUnavailable,
    /// The notifier refused the address.
    InvalidAddress,
}

/// A message for the notifier: one delivery to `address`.
pub struct Notification {
    pub address: String,
    pub subject: String,
    pub body: String,
}

/// What the lifecycle works against: the ride store, the contact policy,
/// and the messages handed to the notifier, oldest first.
pub struct Context {
    pub store: RideStore,
    pub phone_policy: PhonePolicy,
    pub outbox: Vec<Notification>,
}

/// What an arrival check reports on a keyspace.
pub open spec fn arrival_outcome(
    records: Map<Seq<char>, RideModel>,
    id: Seq<char>,
    latitude: int,
    longitude: int,
) -> Result<bool, RideError> {
    if records.contains_key(id) {
        Ok(arrived(latitude, longitude, records[id].latitude, records[id].longitude))
    } else {
        Err(RideError::NotFound)
    }
}

/// What finalising reports on a keyspace.
pub open spec fn removal_outcome(records: Map<Seq<char>, RideModel>, id: Seq<char>) -> Result<(), RideError> {
    if records.contains_key(id) {
        Ok(())
    } else {
        Err(RideError::NotFound)
    }
}

/// The arrival message for a stored contact under a policy.
pub fn arrival_notification(policy: &PhonePolicy, contact: &str) -> (n: Notification)
    ensures
        n.address@ == normalized_contact(policy.country_prefix@, contact@),
        n.subject@ == "AtHome"@,
        n.body@ == "Your friend is at home!"@,
{
    Notification {
        address: policy.normalize(contact),
        subject: String::from_str("AtHome"),
        body: String::from_str("Your friend is at home!"),
    }
}

/// The path under which ride `id` is addressed.
pub fn ride_location(id: &str) -> (r: String)
    ensures
        r@ == "/rides/"@ + id@,
{
    let mut r = String::from_str("/rides/");
    r.append(id);
    r
}

impl Context {
    pub open spec fn wf(&self) -> bool {
        self.store.wf()
    }

    /// A context with an empty store and an empty outbox.
    pub fn new(phone_policy: PhonePolicy) -> (r: Context)
        ensures
            r.wf(),
            r.store.records() == Map::<Seq<char>, RideModel>::empty(),
            r.store.retired_keys() == Set::<Seq<char>>::empty(),
            r.phone_policy == phone_policy,
            r.outbox@.len() == 0,
    {
        Context { store: RideStore::new(), phone_policy, outbox: Vec::new() }
    }
}

/// Stores `ride` under a given id. Fails, writing nothing, exactly when the
/// id is live or has been retired.
pub fn create_ride_with_id(context: &mut Context, id: String, ride: Ride) -> (r: Result<String, RideError>)
    requires
        old(context).wf(),
    ensures
        final(context).wf(),
        final(context).phone_policy == old(context).phone_policy,
        final(context).outbox@ == old(context).outbox@,
        final(context).store.retired_keys() == old(context).store.retired_keys(),
        r is Err <==> (old(context).store.records().contains_key(id@)
            || old(context).store.retired_keys().contains(id@)),
        r is Ok ==> r->Ok_0@ == id@ && final(context).store.records() == old(context).store.records().insert(id@, ride@),
        r is Err ==> r->Err_0 == RideError::StoreWriteError && final(context).store.records() == old(context).store.records(),
{
    let copy = id.clone();
    match context.store.create(id, ride) {
        Ok(()) => Ok(copy),
        Err(StoreError::KeyTaken) => Err(RideError::StoreWriteError),
    }
}

/// Creates a ride under a fresh random id and returns the id. It fails only
/// when the id drawn is already live or retired, so on a store that holds no
/// UUID key it always succeeds.
pub fn create_ride(context: &mut Context, ride: Ride) -> (r: Result<String, RideError>)
    requires
        old(context).wf(),
    ensures
        final(context).wf(),
        final(context).phone_policy == old(context).phone_policy,
        final(context).outbox@ == old(context).outbox@,
        final(context).store.retired_keys() == old(context).store.retired_keys(),
        r is Ok ==> is_v4_uuid_text(r->Ok_0@) && !old(context).store.records().contains_key(r->Ok_0@)
            && !old(context).store.retired_keys().contains(r->Ok_0@)
            && final(context).store.records() == old(context).store.records().insert(r->Ok_0@, ride@),
        r is Err ==> r->Err_0 == RideError::StoreWriteError && final(context).store.records() == old(context).store.records(),
        r is Err ==> exists|k: Seq<char>|
            is_v4_uuid_text(k) && (old(context).store.records().contains_key(k)
                || old(context).store.retired_keys().contains(k)),
{
    let id = new_ride_id();
    let ghost text = id@;
    let r = create_ride_with_id(context, id, ride);
    proof {
        if r is Ok {
            assert(r->Ok_0@ == text);
        }
    }
    r
}

/// Whether the traveller at (`latitude`, `longitude`) has reached the
/// destination of ride `ride_id`. Reads only.
pub fn check_is_arrived(context: &Context, ride_id: &String, latitude: i64, longitude: i64) -> (r: Result<bool, RideError>)
    requires
        context.wf(),
    ensures
        r == arrival_outcome(context.store.records(), ride_id@, latitude as int, longitude as int),
{
    match context.store.get(ride_id) {
        Some(ride) => Ok(is_arrived(latitude, longitude, ride.latitude, ride.longitude)),
        None => Err(RideError::NotFound),
    }
}

/// The arrival check on the destination fields read from an outside store:
/// `None` for a field the store does not hold. A missing field means the ride
/// has no record; a field that does not read as a coordinate means the record
/// was not written whole by this library, and is reported as a bad write.
pub fn arrival_from_fields(
    destination_latitude: Option<String>,
    destination_longitude: Option<String>,
    latitude: i64,
    longitude: i64,
) -> (r: Result<bool, RideError>)
    ensures
        match (destination_latitude, destination_longitude) {
            (Some(a), Some(b)) => match (coordinate_value(a@), coordinate_value(b@)) {
                (Some(x), Some(y)) => r == Ok::<bool, RideError>(arrived(latitude as int, longitude as int, x, y)),
                _ => r == Err::<bool, RideError>(RideError::StoreWriteError),
            },
            _ => r == Err::<bool, RideError>(RideError::NotFound),
        },
{
    match (destination_latitude, destination_longitude) {
        (Some(a), Some(b)) => match (parse_coordinate(a.as_str()), parse_coordinate(b.as_str())) {
            (Some(x), Some(y)) => Ok(is_arrived(latitude, longitude, x, y)),
            _ => Err(RideError::StoreWriteError),
        },
        _ => Err(RideError::NotFound),
    }
}

/// Finalises ride `ride_id`: hands the arrival message for its contact to
/// the notifier, then deletes the record and retires the id. On an id with
/// no record nothing is sent or changed.
pub fn remove_ride(context: &mut Context, ride_id: &String) -> (r: Result<(), RideError>)
    requires
        old(context).wf(),
    ensures
        final(context).wf(),
        final(context).phone_policy == old(context).phone_policy,
        r == removal_outcome(old(context).store.records(), ride_id@),
        final(context).store.records() == old(context).store.records().remove(ride_id@),
        r is Ok ==> final(context).store.retired_keys() == old(context).store.retired_keys().insert(ride_id@),
        r is Ok ==> final(context).outbox@.len() == old(context).outbox@.len() + 1
            && final(context).outbox@.drop_last() == old(context).outbox@
            && final(context).outbox@.last().address@ == normalized_contact(
                old(context).phone_policy.country_prefix@,
                old(context).store.records()[ride_id@].phone_number,
            )
            && final(context).outbox@.last().subject@ == "AtHome"@
            && final(context).outbox@.last().body@ == "Your friend is at home!"@,
        r is Err ==> final(context).store.retired_keys() == old(context).store.retired_keys()
            && final(context).outbox@ == old(context).outbox@,
{
    let notification = match context.store.get(ride_id) {
        Some(ride) => arrival_notification(&context.phone_policy, ride.phone_number.as_str()),
        None => {
            return Err(RideError::NotFound);
        },
    };
    context.outbox.push(notification);
    context.store.delete(ride_id);
    Ok(())
}

/// A ride just created is arrived when checked at its own destination.
pub proof fn lemma_created_ride_arrived_at_destination(
    records: Map<Seq<char>, RideModel>,
    id: Seq<char>,
    ride: RideModel,
)
    ensures
        arrival_outcome(records.insert(id, ride), id, ride.latitude, ride.longitude) == Ok::<bool, RideError>(true),
{
}

/// An id that holds no record, never created or already finalised, is
/// reported `NotFound` by an arrival check, wherever the traveller is.
pub proof fn lemma_absent_ride_not_found(
    records: Map<Seq<char>, RideModel>,
    id: Seq<char>,
    latitude: int,
    longitude: int,
)
    ensures
        !records.contains_key(id) ==> arrival_outcome(records, id, latitude, longitude) == Err::<bool, RideError>(RideError::NotFound),
        arrival_outcome(records.remove(id), id, latitude, longitude) == Err::<bool, RideError>(RideError::NotFound),
{
}

/// Finalising twice leaves the keyspace as finalising once does; the second
/// call reports `NotFound` and deletes nothing more.
pub proof fn lemma_removal_idempotent(records: Map<Seq<char>, RideModel>, id: Seq<char>)
    ensures
        records.remove(id).remove(id) == records.remove(id),
        removal_outcome(records.remove(id), id) == Err::<(), RideError>(RideError::NotFound),
{
    assert(records.remove(id).remove(id) =~= records.remove(id));
}

} // verus!
