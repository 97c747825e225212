use dpoll::sequencer::{
    Cause, InterrogationSequencer, SeqAction, SeqEvent, SeqState, SessionStatus,
};

fn status(cancelled: bool, connected: bool, active: bool) -> SeqEvent {
    SeqEvent::Status(SessionStatus { cancelled, connected, active })
}

#[test]
fn the_cycle_runs_in_order() {
    let mut seq = InterrogationSequencer::new();
    assert_eq!(seq.state, SeqState::CheckPoint);
    let a = seq.on_event(status(false, true, true));
    assert_eq!(a, SeqAction::SendCounterInterrogation(Cause::Activation));
    let a = seq.on_event(SeqEvent::Sent(true));
    assert_eq!(a, SeqAction::Dwell(10));
    let a = seq.on_event(SeqEvent::DwellElapsed);
    assert_eq!(a, SeqAction::SendCounterInterrogation(Cause::ActivationTermination));
    let a = seq.on_event(SeqEvent::Sent(true));
    assert_eq!(a, SeqAction::SendGeneralInterrogation(Cause::Activation, 20));
    let a = seq.on_event(SeqEvent::Sent(true));
    assert_eq!(a, SeqAction::Dwell(20));
    let a = seq.on_event(SeqEvent::DwellElapsed);
    assert_eq!(a, SeqAction::SendGeneralInterrogation(Cause::ActivationTermination, 20));
    let a = seq.on_event(SeqEvent::Sent(true));
    assert_eq!(a, SeqAction::SendStopDt);
    let a = seq.on_event(SeqEvent::Sent(true));
    assert_eq!(a, SeqAction::Dwell(1));
    let a = seq.on_event(SeqEvent::DwellElapsed);
    assert_eq!(a, SeqAction::Poll);
    assert_eq!(seq.state, SeqState::CheckPoint);
}

#[test]
fn cancellation_mid_dwell_waits_for_the_next_check() {
    // run into the 10-second dwell
    let mut seq = InterrogationSequencer::new();
    seq.on_event(status(false, true, true));
    let a = seq.on_event(SeqEvent::Sent(true));
    assert_eq!(a, SeqAction::Dwell(10));
    // the cancel flag fires while the dwell is in progress; the dwell
    // is not interrupted, and its end does not acknowledge anything
    let a = seq.on_event(SeqEvent::DwellElapsed);
    assert_ne!(a, SeqAction::SignalCompletion);
    assert!(!seq.is_terminated());
    // the rest of the cycle still runs
    let a = seq.on_event(SeqEvent::Sent(true));
    assert_eq!(a, SeqAction::SendGeneralInterrogation(Cause::Activation, 20));
    seq.on_event(SeqEvent::Sent(true));
    let a = seq.on_event(SeqEvent::DwellElapsed);
    assert_ne!(a, SeqAction::SignalCompletion);
    seq.on_event(SeqEvent::Sent(true));
    seq.on_event(SeqEvent::Sent(true));
    let a = seq.on_event(SeqEvent::DwellElapsed);
    assert_eq!(a, SeqAction::Poll);
    // only the loop-top check observes the flag and acknowledges
    let a = seq.on_event(status(true, true, true));
    assert_eq!(a, SeqAction::SignalCompletion);
    assert!(seq.is_terminated());
}

#[test]
fn cancellation_beats_every_other_concern_at_the_check() {
    let mut seq = InterrogationSequencer::new();
    let a = seq.on_event(status(true, false, false));
    assert_eq!(a, SeqAction::SignalCompletion);
    assert_eq!(seq.state, SeqState::Terminated);
}

#[test]
fn waiting_while_disconnected() {
    let mut seq = InterrogationSequencer::new();
    let a = seq.on_event(status(false, false, false));
    assert_eq!(a, SeqAction::Wait);
    assert_eq!(seq.state, SeqState::CheckPoint);
}

#[test]
fn start_activation_when_connected_but_inactive() {
    let mut seq = InterrogationSequencer::new();
    let a = seq.on_event(status(false, true, false));
    assert_eq!(a, SeqAction::SendStartDt);
    assert_eq!(seq.state, SeqState::Starting);
    // once the start command is away, the cycle begins
    let a = seq.on_event(SeqEvent::Sent(true));
    assert_eq!(a, SeqAction::SendCounterInterrogation(Cause::Activation));
}

#[test]
fn a_failed_send_restarts_from_the_check() {
    let mut seq = InterrogationSequencer::new();
    seq.on_event(status(false, true, true));
    assert_eq!(seq.state, SeqState::CounterBegin);
    let a = seq.on_event(SeqEvent::Sent(false));
    assert_eq!(a, SeqAction::Poll);
    assert_eq!(seq.state, SeqState::CheckPoint);

    // a failure later in the cycle restarts it as well
    seq.on_event(status(false, true, true));
    seq.on_event(SeqEvent::Sent(true));
    seq.on_event(SeqEvent::DwellElapsed);
    let a = seq.on_event(SeqEvent::Sent(false));
    assert_eq!(a, SeqAction::Poll);
    assert_eq!(seq.state, SeqState::CheckPoint);
}
