//! The decisions of a generated client call's two-phase result: first sign and
//! dispatch the request, then, once, run the response handler. Each poll of
//! the running phase reports an event; the step says what happens next.

use vstd::prelude::*;

verus! {

/// Where a call stands.
#[derive(PartialEq, Eq, Structural, Clone, Copy, Debug)]
pub enum Phase {
    /// Signing and dispatching the request; a timeout applies here only.
    SignAndDispatch,
    /// Parsing the response into the typed result.
    RunningResponseHandler,
    /// The result or an error has been handed out.
    Finished,
}

/// What a poll of the running phase reported.
#[derive(PartialEq, Eq, Structural, Clone, Copy, Debug)]
pub enum PollEvent {
    DispatchPending,
    /// The request was dispatched and a response came back.
    DispatchResponse,
    CredentialsFailed,
    DispatchFailed,
    HandlerPending,
    HandlerReady,
    HandlerFailed,
}

/// What the runner does after a step.
#[derive(PartialEq, Eq, Structural, Clone, Copy, Debug)]
pub enum PollAction {
    /// Report that the result is not ready yet.
    Wait,
    /// Hand the response to the handler and poll again at once.
    StartHandler,
    /// Hand out the handler's value.
    Complete,
    /// Fail with the credentials error, converted into the call's error type.
    FailCredentials,
    /// Fail with the dispatch error, converted into the call's error type.
    FailDispatch,
    /// Fail with the handler's own error.
    FailHandler,
}

/// The step from a phase on an event; `None` where the event cannot come in
/// that phase (a finished call is never polled again).
pub open spec fn step_of(phase: Phase, event: PollEvent) -> Option<(Phase, PollAction)> {
    match (phase, event) {
        (Phase::SignAndDispatch, PollEvent::DispatchPending) => Some(
            (Phase::SignAndDispatch, PollAction::Wait),
        ),
        (Phase::SignAndDispatch, PollEvent::DispatchResponse) => Some(
            (Phase::RunningResponseHandler, PollAction::StartHandler),
        ),
        (Phase::SignAndDispatch, PollEvent::CredentialsFailed) => Some(
            (Phase::Finished, PollAction::FailCredentials),
        ),
        (Phase::SignAndDispatch, PollEvent::DispatchFailed) => Some(
            (Phase::Finished, PollAction::FailDispatch),
        ),
        (Phase::RunningResponseHandler, PollEvent::HandlerPending) => Some(
            (Phase::RunningResponseHandler, PollAction::Wait),
        ),
        (Phase::RunningResponseHandler, PollEvent::HandlerReady) => Some(
            (Phase::Finished, PollAction::Complete),
        ),
        (Phase::RunningResponseHandler, PollEvent::HandlerFailed) => Some(
            (Phase::Finished, PollAction::FailHandler),
        ),
        _ => None,
    }
}

/// Decides the next phase and action of a call on a poll event.
pub fn poll_step(phase: Phase, event: PollEvent) -> (r: Option<(Phase, PollAction)>)
    ensures
        r == step_of(phase, event),
{
    match (phase, event) {
        (Phase::SignAndDispatch, PollEvent::DispatchPending) => Some(
            (Phase::SignAndDispatch, PollAction::Wait),
        ),
        (Phase::SignAndDispatch, PollEvent::DispatchResponse) => Some(
            (Phase::RunningResponseHandler, PollAction::StartHandler),
        ),
        (Phase::SignAndDispatch, PollEvent::CredentialsFailed) => Some(
            (Phase::Finished, PollAction::FailCredentials),
        ),
        (Phase::SignAndDispatch, PollEvent::DispatchFailed) => Some(
            (Phase::Finished, PollAction::FailDispatch),
        ),
        (Phase::RunningResponseHandler, PollEvent::HandlerPending) => Some(
            (Phase::RunningResponseHandler, PollAction::Wait),
        ),
        (Phase::RunningResponseHandler, PollEvent::HandlerReady) => Some(
            (Phase::Finished, PollAction::Complete),
        ),
        (Phase::RunningResponseHandler, PollEvent::HandlerFailed) => Some(
            (Phase::Finished, PollAction::FailHandler),
        ),
        _ => None,
    }
}

/// Whether setting or clearing a timeout in this phase takes effect: only
/// before the request has been dispatched.
pub fn accepts_timeout(phase: Phase) -> (r: bool)
    ensures
        r == (phase == Phase::SignAndDispatch),
{
    match phase {
        Phase::SignAndDispatch => true,
        _ => false,
    }
}

/// The phase a step leads to; the phase itself where no step is defined.
pub open spec fn phase_after(phase: Phase, event: PollEvent) -> Phase {
    match step_of(phase, event) {
        Some((next, _)) => next,
        None => phase,
    }
}

/// The response handler is entered only from the dispatch phase, on a
/// response; every error ends the call at once, with no retry; a finished
/// call takes no further step.
pub proof fn lemma_call_phases(phase: Phase, event: PollEvent)
    ensures
        phase_after(phase, event) == Phase::RunningResponseHandler && phase
            != Phase::RunningResponseHandler ==> phase == Phase::SignAndDispatch && event
            == PollEvent::DispatchResponse,
        step_of(phase, event) is Some && (event == PollEvent::CredentialsFailed || event
            == PollEvent::DispatchFailed || event == PollEvent::HandlerFailed) ==> phase_after(
            phase,
            event,
        ) == Phase::Finished,
        phase == Phase::Finished ==> step_of(phase, event) is None,
{
}

} // verus!
