use vstd::prelude::*;

use crate::idle::IdlePoller;

verus! {

/// Idle detection through the X11 MIT-SCREEN-SAVER extension, polled every five
/// seconds.
pub struct X11IdleDetector;

impl X11IdleDetector {
    /// The poller for a threshold of `timeout_secs` seconds, in milliseconds.
    pub fn idle_poller(timeout_secs: u64) -> (p: IdlePoller)
        requires
            timeout_secs * 1000 <= u64::MAX,
        ensures
            p.timeout_ms == timeout_secs * 1000,
            !p.was_idle,
    {
        IdlePoller::new(timeout_secs * 1000)
    }
}

} // verus!
