use vstd::prelude::*;

verus! {

/// The phases one capture-to-response session moves through.
#[derive(Clone, Copy, Debug, PartialEq, Eq, Structural)]
pub enum SessionState {
    Idle,
    Opening,
    Streaming,
    Draining,
    Failed,
    Closed,
}

/// What can happen to a session.
#[derive(Clone, Copy, Debug, PartialEq, Eq, Structural)]
pub enum SessionEvent {
    OpenRequested,
    SourceReady,
    OpenFailed,
    SourceExhausted,
    SourceError,
    ConsumerDisconnected,
    FlushComplete,
}

/// What the surrounding runtime must do after a transition.
#[derive(Clone, Copy, Debug, PartialEq, Eq, Structural)]
pub enum SessionAction {
    NoAction,
    AcquireSource,
    ReleaseSource,
    FlushFinalChunk,
}

/// The session transition table. Opening fails fast, before any response
/// byte; source exhaustion drains the final partial chunk; a source error
/// fails the session; a consumer disconnect closes it at once, releasing
/// the source without draining. Every pair the table does not name leaves
/// the state unchanged and demands nothing.
pub open spec fn spec_step(s: SessionState, e: SessionEvent) -> (SessionState, SessionAction) {
    match (s, e) {
        (SessionState::Idle, SessionEvent::OpenRequested) => (
            SessionState::Opening,
            SessionAction::AcquireSource,
        ),
        (SessionState::Opening, SessionEvent::SourceReady) => (
            SessionState::Streaming,
            SessionAction::NoAction,
        ),
        (SessionState::Opening, SessionEvent::OpenFailed) => (
            SessionState::Failed,
            SessionAction::NoAction,
        ),
        (SessionState::Streaming, SessionEvent::SourceExhausted) => (
            SessionState::Draining,
            SessionAction::FlushFinalChunk,
        ),
        (SessionState::Streaming, SessionEvent::SourceError) => (
            SessionState::Failed,
            SessionAction::ReleaseSource,
        ),
        (SessionState::Streaming, SessionEvent::ConsumerDisconnected) => (
            SessionState::Closed,
            SessionAction::ReleaseSource,
        ),
        (SessionState::Draining, SessionEvent::FlushComplete) => (
            SessionState::Closed,
            SessionAction::ReleaseSource,
        ),
        (SessionState::Failed, _) => (SessionState::Closed, SessionAction::ReleaseSource),
        _ => (s, SessionAction::NoAction),
    }
}

/// Performs one transition of the session state machine.
pub fn step(s: SessionState, e: SessionEvent) -> (r: (SessionState, SessionAction))
    ensures
        r == spec_step(s, e),
{
    match (s, e) {
        (SessionState::Idle, SessionEvent::OpenRequested) => (
            SessionState::Opening,
            SessionAction::AcquireSource,
        ),
        (SessionState::Opening, SessionEvent::SourceReady) => (
            SessionState::Streaming,
            SessionAction::NoAction,
        ),
        (SessionState::Opening, SessionEvent::OpenFailed) => (
            SessionState::Failed,
            SessionAction::NoAction,
        ),
        (SessionState::Streaming, SessionEvent::SourceExhausted) => (
            SessionState::Draining,
            SessionAction::FlushFinalChunk,
        ),
        (SessionState::Streaming, SessionEvent::SourceError) => (
            SessionState::Failed,
            SessionAction::ReleaseSource,
        ),
        (SessionState::Streaming, SessionEvent::ConsumerDisconnected) => (
            SessionState::Closed,
            SessionAction::ReleaseSource,
        ),
        (SessionState::Draining, SessionEvent::FlushComplete) => (
            SessionState::Closed,
            SessionAction::ReleaseSource,
        ),
        (SessionState::Failed, _) => (SessionState::Closed, SessionAction::ReleaseSource),
        _ => (s, SessionAction::NoAction),
    }
}

/// Law: a closed session stays closed, whatever happens next.
pub proof fn lemma_closed_is_final(e: SessionEvent)
    ensures
        spec_step(SessionState::Closed, e).0 == SessionState::Closed,
{
}

/// Law: a consumer disconnect during streaming closes the session in one
/// step and demands that the source be released at once — the bounded
/// cancellation latency of the pipeline.
pub proof fn lemma_disconnect_closes_promptly()
    ensures
        spec_step(SessionState::Streaming, SessionEvent::ConsumerDisconnected) == (
            SessionState::Closed,
            SessionAction::ReleaseSource,
        ),
{
}

} // verus!
