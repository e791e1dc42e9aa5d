//! Finalisation against an outside store and notifier, as a state machine.
//!
//! The caller performs each action and hands back what came of it. The
//! machine reads the contact, has the arrival message sent, and then has the
//! record deleted whether or not the message went out; a failed message is
//! reported beside the outcome, never in place of the deletion.
use vstd::prelude::*;
use crate::phone::{normalized_contact, PhonePolicy};
use crate::rides::{arrival_notification, Notification, RideError};

verus! {

/// Where a finalisation stands.
#[derive(Clone, Copy, Debug)]
pub enum FinalizeState {
    AwaitingContact,
    AwaitingSend,
    AwaitingDelete { notify_failure: Option<RideError> },
    Finished,
}

/// What came of the last action.
pub enum FinalizeEvent {
    /// The stored contact: `Ok(None)` when the ride has no record.
    ContactRead(Result<Option<String>, RideError>),
    SendResult(Result<(), RideError>),
    DeleteResult(Result<(), RideError>),
}

/// What the caller does next.
pub enum FinalizeAction {
    FetchContact,
    Send(Notification),
    Delete,
    /// Stop: `Ok` carries the notifier's failure, if it failed.
    Finish(Result<Option<RideError>, RideError>),
    /// The event does not answer the pending action; nothing changed.
    Ignored,
}

impl FinalizeState {
    /// The first state and action of a finalisation.
    pub fn start() -> (r: (FinalizeState, FinalizeAction))
        ensures
            r.0 == FinalizeState::AwaitingContact,
            r.1 is FetchContact,
    {
        (FinalizeState::AwaitingContact, FinalizeAction::FetchContact)
    }

    /// One transition.
    pub fn step(self, event: FinalizeEvent, policy: &PhonePolicy) -> (r: (FinalizeState, FinalizeAction))
        ensures
            match (self, event) {
                (FinalizeState::AwaitingContact, FinalizeEvent::ContactRead(Ok(Some(contact)))) => {
                    &&& r.0 == FinalizeState::AwaitingSend
                    &&& r.1 is Send
                    &&& r.1->Send_0.address@ == normalized_contact(policy.country_prefix@, contact@)
                    &&& r.1->Send_0.subject@ == "AtHome"@
                    &&& r.1->Send_0.body@ == "Your friend is at home!"@
                },
                (FinalizeState::AwaitingContact, FinalizeEvent::ContactRead(Ok(None))) => {
                    r.0 == FinalizeState::Finished && r.1 == FinalizeAction::Finish(
                        Err(RideError::NotFound),
                    )
                },
                (FinalizeState::AwaitingContact, FinalizeEvent::ContactRead(Err(e))) => {
                    r.0 == FinalizeState::Finished && r.1 == FinalizeAction::Finish(Err(e))
                },
                (FinalizeState::AwaitingSend, FinalizeEvent::SendResult(sent)) => {
                    &&& r.0 == (FinalizeState::AwaitingDelete {
                        notify_failure: match sent {
                            Ok(()) => None,
                            Err(e) => Some(e),
                        },
                    })
                    &&& r.1 is Delete
                },
                (
                    FinalizeState::AwaitingDelete { notify_failure },
                    FinalizeEvent::DeleteResult(Ok(())),
                ) => {
                    r.0 == FinalizeState::Finished && r.1 == FinalizeAction::Finish(Ok(notify_failure))
                },
                (FinalizeState::AwaitingDelete { .. }, FinalizeEvent::DeleteResult(Err(e))) => {
                    r.0 == FinalizeState::Finished && r.1 == FinalizeAction::Finish(Err(e))
                },
                _ => r.0 == self && r.1 is Ignored,
            },
    {
        match (self, event) {
            (FinalizeState::AwaitingContact, FinalizeEvent::ContactRead(Ok(Some(contact)))) => {
                let n = arrival_notification(policy, contact.as_str());
                (FinalizeState::AwaitingSend, FinalizeAction::Send(n))
            },
            (FinalizeState::AwaitingContact, FinalizeEvent::ContactRead(Ok(None))) => {
                (FinalizeState::Finished, FinalizeAction::Finish(Err(RideError::NotFound)))
            },
            (FinalizeState::AwaitingContact, FinalizeEvent::ContactRead(Err(e))) => {
                (FinalizeState::Finished, FinalizeAction::Finish(Err(e)))
            },
            (FinalizeState::AwaitingSend, FinalizeEvent::SendResult(sent)) => {
                let notify_failure = match sent {
                    Ok(()) => None,
                    Err(e) => Some(e),
                };
                (FinalizeState::AwaitingDelete { notify_failure }, FinalizeAction::Delete)
            },
            (FinalizeState::AwaitingDelete { notify_failure }, FinalizeEvent::DeleteResult(Ok(()))) => {
                (FinalizeState::Finished, FinalizeAction::Finish(Ok(notify_failure)))
            },
            (FinalizeState::AwaitingDelete { .. }, FinalizeEvent::DeleteResult(Err(e))) => {
                (FinalizeState::Finished, FinalizeAction::Finish(Err(e)))
            },
            (state, _) => (state, FinalizeAction::Ignored),
        }
    }
}

} // verus!
