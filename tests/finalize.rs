use at_home::finalize::{FinalizeAction, FinalizeEvent, FinalizeState};
use at_home::phone::PhonePolicy;
use at_home::rides::RideError;

fn contact(text: &str) -> FinalizeEvent {
    FinalizeEvent::ContactRead(Ok(Some(String::from(text))))
}

#[test]
fn finalize_sends_then_deletes() {
    let policy = PhonePolicy::france();
    let (state, action) = FinalizeState::start();
    assert!(matches!(action, FinalizeAction::FetchContact));
    let (state, action) = state.step(contact("01 02 03 04 05"), &policy);
    match action {
        FinalizeAction::Send(n) => {
            assert_eq!(n.address, "+33102030405");
            assert_eq!(n.subject, "AtHome");
            assert_eq!(n.body, "Your friend is at home!");
        }
        _ => panic!("expected a message to send"),
    }
    let (state, action) = state.step(FinalizeEvent::SendResult(Ok(())), &policy);
    assert!(matches!(action, FinalizeAction::Delete));
    let (state, action) = state.step(FinalizeEvent::DeleteResult(Ok(())), &policy);
    assert!(matches!(state, FinalizeState::Finished));
    assert!(matches!(action, FinalizeAction::Finish(Ok(None))));
}

#[test]
fn finalize_deletes_even_when_the_message_fails() {
    let policy = PhonePolicy::france();
    let (state, _) = FinalizeState::start();
    let (state, _) = state.step(contact("0102030405"), &policy);
    let (state, action) = state.step(FinalizeEvent::SendResult(Err(RideError::NotifierUnavailable)), &policy);
    assert!(matches!(action, FinalizeAction::Delete));
    let (_, action) = state.step(FinalizeEvent::DeleteResult(Ok(())), &policy);
    assert!(matches!(action, FinalizeAction::Finish(Ok(Some(RideError::NotifierUnavailable)))));
}

#[test]
fn finalize_missing_ride_short_circuits() {
    let policy = PhonePolicy::france();
    let (state, _) = FinalizeState::start();
    let (state, action) = state.step(FinalizeEvent::ContactRead(Ok(None)), &policy);
    assert!(matches!(state, FinalizeState::Finished));
    assert!(matches!(action, FinalizeAction::Finish(Err(RideError::NotFound))));
}

#[test]
fn finalize_reports_store_failures() {
    let policy = PhonePolicy::france();
    let (state, _) = FinalizeState::start();
    let (_, action) = state.step(FinalizeEvent::ContactRead(Err(RideError::StoreUnavailable)), &policy);
    assert!(matches!(action, FinalizeAction::Finish(Err(RideError::StoreUnavailable))));
    let (state, _) = FinalizeState::start();
    let (state, _) = state.step(contact("0102030405"), &policy);
    let (state, _) = state.step(FinalizeEvent::SendResult(Err(RideError::InvalidAddress)), &policy);
    let (_, action) = state.step(FinalizeEvent::DeleteResult(Err(RideError::StoreUnavailable)), &policy);
    assert!(matches!(action, FinalizeAction::Finish(Err(RideError::StoreUnavailable))));
}

#[test]
fn finalize_ignores_out_of_order_events() {
    let policy = PhonePolicy::france();
    let (state, _) = FinalizeState::start();
    let (state, action) = state.step(FinalizeEvent::DeleteResult(Ok(())), &policy);
    assert!(matches!(state, FinalizeState::AwaitingContact));
    assert!(matches!(action, FinalizeAction::Ignored));
}
