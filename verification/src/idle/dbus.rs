use vstd::prelude::*;

use crate::idle::IdlePoller;

verus! {

/// Idle detection through the KDE or GNOME idle-time services on the session bus,
/// polled every five seconds.
pub struct DbusIdleDetector;

impl DbusIdleDetector {
    /// The poller for a threshold of `timeout_secs` seconds; the threshold in
    /// milliseconds saturates at `u64::MAX`.
    pub fn idle_poller(timeout_secs: u64) -> (p: IdlePoller)
        ensures
            p.timeout_ms == if timeout_secs * 1000 <= u64::MAX {
                (timeout_secs * 1000) as u64
            } else {
                u64::MAX
            },
            !p.was_idle,
    {
        let timeout_ms = match timeout_secs.checked_mul(1000) {
            Some(ms) => ms,
            None => u64::MAX,
        };
        IdlePoller::new(timeout_ms)
    }
}

} // verus!
