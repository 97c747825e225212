//! The interrogation sequencing state machine for the event-driven
//! protocol session.
//!
//! The sequencer cycles a connected device through activation, counter
//! interrogation, general interrogation, and deactivation:
//! check status, then send counter interrogation (activation cause),
//! dwell 10 s, send its termination, send general interrogation
//! (activation cause, qualifier 20 for all stations), dwell 20 s, send
//! its termination, send the stop-activation command, dwell 1 s, and
//! repeat.  Any send failure abandons the cycle and restarts from the
//! status check; nothing is fatal.  Cancellation is cooperative: the
//! one-shot cancel flag is read once per cycle, at the status check,
//! so the completion acknowledgement fires only after an in-progress
//! dwell has run out, never in its middle.
//!
//! The machine is pure: a driver performs each emitted action (a send,
//! a dwell, a status poll) and feeds the completing event back in.

use vstd::prelude::*;

verus! {

/// The cause of transmission carried by an interrogation command.
#[derive(Clone, Copy, Debug, PartialEq, Eq, Structural)]
pub enum Cause {
    Activation,
    ActivationTermination,
}

/// Where the sequencer stands in its cycle.
#[derive(Clone, Copy, Debug, PartialEq, Eq, Structural)]
pub enum SeqState {
    /// Top of the loop: cancellation, connection and activation are
    /// checked here, and only here.
    CheckPoint,
    /// The start-activation command is in flight.
    Starting,
    /// The counter interrogation (activation) is in flight.
    CounterBegin,
    /// Dwelling after the counter interrogation.
    CounterDwell,
    /// The counter interrogation termination is in flight.
    CounterEnd,
    /// The general interrogation (activation) is in flight.
    GeneralBegin,
    /// Dwelling after the general interrogation.
    GeneralDwell,
    /// The general interrogation termination is in flight.
    GeneralEnd,
    /// The stop-activation command is in flight.
    Stopping,
    /// The short dwell before the next cycle.
    TailDwell,
    /// Cancellation was observed and acknowledged; the machine is done.
    Terminated,
}

/// What a status poll of the session reported.
#[derive(Clone, Copy, Debug, PartialEq, Eq, Structural)]
pub struct SessionStatus {
    /// The external one-shot cancellation signal has fired.
    pub cancelled: bool,
    /// The connection is established.
    pub connected: bool,
    /// The session is activated (start acknowledged by the state flag).
    pub active: bool,
}

/// What just finished: a status poll, a send (with its success), or a
/// dwell running out.
#[derive(Clone, Copy, Debug, PartialEq, Eq, Structural)]
pub enum SeqEvent {
    Status(SessionStatus),
    Sent(bool),
    DwellElapsed,
}

/// What the driver must do next.
#[derive(Clone, Copy, Debug, PartialEq, Eq, Structural)]
pub enum SeqAction {
    /// Fire the completion acknowledgement and stop the task.
    SignalCompletion,
    /// Wait briefly for the connection, then poll the status again.
    Wait,
    /// Poll cancellation, connection and activation status.
    Poll,
    /// Send the start-activation command.
    SendStartDt,
    /// Send a counter interrogation with the given cause.
    SendCounterInterrogation(Cause),
    /// Send a general interrogation with the given cause and qualifier.
    SendGeneralInterrogation(Cause, u8),
    /// Send the stop-activation command.
    SendStopDt,
    /// Dwell for the given number of seconds.
    Dwell(u64),
}

/// One transition: the state entered and the action to perform there.
#[derive(Clone, Copy, Debug, PartialEq, Eq, Structural)]
pub struct Transition {
    pub next: SeqState,
    pub action: SeqAction,
}

/// Whether `e` is the kind of event state `s` is waiting for.  The
/// terminated state waits for nothing.
pub open spec fn event_matches(s: SeqState, e: SeqEvent) -> bool {
    match s {
        SeqState::CheckPoint => e is Status,
        SeqState::Starting => e is Sent,
        SeqState::CounterBegin => e is Sent,
        SeqState::CounterDwell => e is DwellElapsed,
        SeqState::CounterEnd => e is Sent,
        SeqState::GeneralBegin => e is Sent,
        SeqState::GeneralDwell => e is DwellElapsed,
        SeqState::GeneralEnd => e is Sent,
        SeqState::Stopping => e is Sent,
        SeqState::TailDwell => e is DwellElapsed,
        SeqState::Terminated => false,
    }
}

/// The transition function.  The status check orders its concerns:
/// cancellation first, then connection, then activation; a failed send
/// anywhere in the cycle restarts from the status check.
pub open spec fn spec_step(s: SeqState, e: SeqEvent) -> Transition {
    match s {
        SeqState::CheckPoint => {
            let st = e->Status_0;
            if st.cancelled {
                Transition { next: SeqState::Terminated, action: SeqAction::SignalCompletion }
            } else if !st.connected {
                Transition { next: SeqState::CheckPoint, action: SeqAction::Wait }
            } else if !st.active {
                Transition { next: SeqState::Starting, action: SeqAction::SendStartDt }
            } else {
                Transition {
                    next: SeqState::CounterBegin,
                    action: SeqAction::SendCounterInterrogation(Cause::Activation),
                }
            }
        },
        SeqState::Starting => if e->Sent_0 {
            Transition {
                next: SeqState::CounterBegin,
                action: SeqAction::SendCounterInterrogation(Cause::Activation),
            }
        } else {
            Transition { next: SeqState::CheckPoint, action: SeqAction::Poll }
        },
        SeqState::CounterBegin => if e->Sent_0 {
            Transition { next: SeqState::CounterDwell, action: SeqAction::Dwell(10) }
        } else {
            Transition { next: SeqState::CheckPoint, action: SeqAction::Poll }
        },
        SeqState::CounterDwell => Transition {
            next: SeqState::CounterEnd,
            action: SeqAction::SendCounterInterrogation(Cause::ActivationTermination),
        },
        SeqState::CounterEnd => if e->Sent_0 {
            Transition {
                next: SeqState::GeneralBegin,
                action: SeqAction::SendGeneralInterrogation(Cause::Activation, 20),
            }
        } else {
            Transition { next: SeqState::CheckPoint, action: SeqAction::Poll }
        },
        SeqState::GeneralBegin => if e->Sent_0 {
            Transition { next: SeqState::GeneralDwell, action: SeqAction::Dwell(20) }
        } else {
            Transition { next: SeqState::CheckPoint, action: SeqAction::Poll }
        },
        SeqState::GeneralDwell => Transition {
            next: SeqState::GeneralEnd,
            action: SeqAction::SendGeneralInterrogation(Cause::ActivationTermination, 20),
        },
        SeqState::GeneralEnd => if e->Sent_0 {
            Transition { next: SeqState::Stopping, action: SeqAction::SendStopDt }
        } else {
            Transition { next: SeqState::CheckPoint, action: SeqAction::Poll }
        },
        SeqState::Stopping => if e->Sent_0 {
            Transition { next: SeqState::TailDwell, action: SeqAction::Dwell(1) }
        } else {
            Transition { next: SeqState::CheckPoint, action: SeqAction::Poll }
        },
        SeqState::TailDwell => Transition { next: SeqState::CheckPoint, action: SeqAction::Poll },
        SeqState::Terminated => Transition {
            next: SeqState::Terminated,
            action: SeqAction::SignalCompletion,
        },
    }
}

/// The transition function, executable (see `spec_step`).
pub fn step(s: SeqState, e: SeqEvent) -> (t: Transition)
    requires
        event_matches(s, e),
    ensures
        t == spec_step(s, e),
{
    match s {
        SeqState::CheckPoint => {
            let st = match e {
                SeqEvent::Status(st) => st,
                _ => {
                    proof {
                        assert(false);
                    }
                    SessionStatus { cancelled: false, connected: false, active: false }
                },
            };
            if st.cancelled {
                Transition { next: SeqState::Terminated, action: SeqAction::SignalCompletion }
            } else if !st.connected {
                Transition { next: SeqState::CheckPoint, action: SeqAction::Wait }
            } else if !st.active {
                Transition { next: SeqState::Starting, action: SeqAction::SendStartDt }
            } else {
                Transition {
                    next: SeqState::CounterBegin,
                    action: SeqAction::SendCounterInterrogation(Cause::Activation),
                }
            }
        },
        SeqState::Starting => if sent_ok(e) {
            Transition {
                next: SeqState::CounterBegin,
                action: SeqAction::SendCounterInterrogation(Cause::Activation),
            }
        } else {
            Transition { next: SeqState::CheckPoint, action: SeqAction::Poll }
        },
        SeqState::CounterBegin => if sent_ok(e) {
            Transition { next: SeqState::CounterDwell, action: SeqAction::Dwell(10) }
        } else {
            Transition { next: SeqState::CheckPoint, action: SeqAction::Poll }
        },
        SeqState::CounterDwell => Transition {
            next: SeqState::CounterEnd,
            action: SeqAction::SendCounterInterrogation(Cause::ActivationTermination),
        },
        SeqState::CounterEnd => if sent_ok(e) {
            Transition {
                next: SeqState::GeneralBegin,
                action: SeqAction::SendGeneralInterrogation(Cause::Activation, 20),
            }
        } else {
            Transition { next: SeqState::CheckPoint, action: SeqAction::Poll }
        },
        SeqState::GeneralBegin => if sent_ok(e) {
            Transition { next: SeqState::GeneralDwell, action: SeqAction::Dwell(20) }
        } else {
            Transition { next: SeqState::CheckPoint, action: SeqAction::Poll }
        },
        SeqState::GeneralDwell => Transition {
            next: SeqState::GeneralEnd,
            action: SeqAction::SendGeneralInterrogation(Cause::ActivationTermination, 20),
        },
        SeqState::GeneralEnd => if sent_ok(e) {
            Transition { next: SeqState::Stopping, action: SeqAction::SendStopDt }
        } else {
            Transition { next: SeqState::CheckPoint, action: SeqAction::Poll }
        },
        SeqState::Stopping => if sent_ok(e) {
            Transition { next: SeqState::TailDwell, action: SeqAction::Dwell(1) }
        } else {
            Transition { next: SeqState::CheckPoint, action: SeqAction::Poll }
        },
        SeqState::TailDwell => Transition { next: SeqState::CheckPoint, action: SeqAction::Poll },
        SeqState::Terminated => {
            proof {
                assert(false);
            }
            Transition { next: SeqState::Terminated, action: SeqAction::SignalCompletion }
        },
    }
}

/// Whether a send event reports success.
fn sent_ok(e: SeqEvent) -> (r: bool)
    requires
        e is Sent,
    ensures
        r == e->Sent_0,
{
    match e {
        SeqEvent::Sent(ok) => ok,
        _ => false,
    }
}

/// The completion acknowledgement fires only from the status check, on
/// seeing the cancellation flag there: no send result and no elapsing
/// dwell ever produces it, so an in-progress cycle step is never
/// interrupted.
pub proof fn lemma_completion_only_at_checkpoint(s: SeqState, e: SeqEvent)
    requires
        event_matches(s, e),
    ensures
        (spec_step(s, e).action is SignalCompletion) <==> (s is CheckPoint && (e matches
        SeqEvent::Status(st) && st.cancelled)),
        (spec_step(s, e).next is Terminated) <==> (spec_step(s, e).action is SignalCompletion),
{
}

/// A failed send is never fatal: every send state returns to the
/// status check, whose next action is a fresh poll.
pub proof fn lemma_send_failure_restarts_cycle(s: SeqState)
    requires
        s is Starting || s is CounterBegin || s is CounterEnd || s is GeneralBegin || s
            is GeneralEnd || s is Stopping,
    ensures
        spec_step(s, SeqEvent::Sent(false)) == (Transition {
            next: SeqState::CheckPoint,
            action: SeqAction::Poll,
        }),
{
}

/// The sequencer: the current state, stepped by the driver's events.
pub struct InterrogationSequencer {
    pub state: SeqState,
}

impl InterrogationSequencer {
    /// A fresh sequencer, standing at the status check; the driver's
    /// first move is to poll the session status.
    pub fn new() -> (s: InterrogationSequencer)
        ensures
            s.state == SeqState::CheckPoint,
    {
        InterrogationSequencer { state: SeqState::CheckPoint }
    }

    /// Feed the event that completed and learn the next action.
    pub fn on_event(&mut self, e: SeqEvent) -> (a: SeqAction)
        requires
            event_matches(old(self).state, e),
        ensures
            final(self).state == spec_step(old(self).state, e).next,
            a == spec_step(old(self).state, e).action,
    {
        let t = step(self.state, e);
        self.state = t.next;
        t.action
    }

    /// Whether the machine has terminated.
    pub fn is_terminated(&self) -> (r: bool)
        ensures
            r == (self.state is Terminated),
    {
        matches!(self.state, SeqState::Terminated)
    }
}

} // verus!
