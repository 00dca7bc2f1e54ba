use vstd::prelude::*;

use crate::idle::IdleEvent;

verus! {

/// The session signals of the login manager.
#[derive(Debug, Clone, Copy, PartialEq, Eq, Structural)]
pub enum SessionSignal {
    Lock,
    Unlock,
}

/// Locking the session counts as becoming idle; unlocking as waking up.
pub fn session_signal_event(signal: SessionSignal) -> (event: IdleEvent)
    ensures
        event == match signal {
            SessionSignal::Lock => IdleEvent::Idle,
            SessionSignal::Unlock => IdleEvent::Wake,
        },
{
    match signal {
        SessionSignal::Lock => IdleEvent::Idle,
        SessionSignal::Unlock => IdleEvent::Wake,
    }
}

} // verus!
