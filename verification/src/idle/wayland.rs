use vstd::prelude::*;

use crate::idle::IdleEvent;

verus! {

/// Idle detection through the `ext-idle-notify-v1` Wayland protocol: the compositor
/// notifies when the seat has been idle for the threshold and when it resumes.
pub struct WaylandIdleDetector;

/// The events of an idle notification object.
#[derive(Debug, Clone, Copy, PartialEq, Eq, Structural)]
pub enum IdleNotification {
    Idled,
    Resumed,
    /// An event that a later revision of the protocol may add.
    Other,
}

impl WaylandIdleDetector {
    /// The threshold handed to the compositor: `timeout_secs * 1000` truncated to its
    /// low 32 bits, as the protocol carries a 32-bit millisecond count.
    pub fn notification_timeout_ms(timeout_secs: u64) -> (ms: u32)
        requires
            timeout_secs * 1000 <= u64::MAX,
        ensures
            ms == (timeout_secs * 1000) % 0x1_0000_0000,
    {
        let total: u64 = timeout_secs * 1000;
        (total % 0x1_0000_0000) as u32
    }

    /// The event reported for a notification: Idle for `Idled`, Wake for `Resumed`.
    pub fn notification_event(n: IdleNotification) -> (event: Option<IdleEvent>)
        ensures
            event == match n {
                IdleNotification::Idled => Some(IdleEvent::Idle),
                IdleNotification::Resumed => Some(IdleEvent::Wake),
                IdleNotification::Other => None::<IdleEvent>,
            },
    {
        match n {
            IdleNotification::Idled => Some(IdleEvent::Idle),
            IdleNotification::Resumed => Some(IdleEvent::Wake),
            IdleNotification::Other => None,
        }
    }
}

} // verus!
