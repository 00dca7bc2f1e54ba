//! Idle detection: the events the backends report, the order in which backends are
//! probed, and the polling state machine shared by the polling backends.

pub mod dbus;
pub mod lock;
pub mod wayland;
pub mod x11;

use vstd::prelude::*;

verus! {

/// What an idle backend reports: the user became idle, or became active again.
#[derive(Debug, Clone, Copy, PartialEq, Eq, Structural)]
pub enum IdleEvent {
    Idle,
    Wake,
}

/// The idle-detection backends.
#[derive(Debug, Clone, Copy, PartialEq, Eq, Structural)]
pub enum Backend {
    /// The `ext-idle-notify-v1` Wayland protocol.
    Wayland,
    /// The KDE or GNOME idle-time services on the session bus.
    Dbus,
    /// The X11 MIT-SCREEN-SAVER extension.
    X11,
}

/// The order in which backends are tried.
pub open spec fn probe_order() -> Seq<Backend> {
    seq![Backend::Wayland, Backend::Dbus, Backend::X11]
}

/// The backend probed after `after` (the first one when `after` is `None`), or `None`
/// when every backend has been tried.
pub open spec fn next_backend_spec(after: Option<Backend>) -> Option<Backend> {
    match after {
        None => Some(Backend::Wayland),
        Some(Backend::Wayland) => Some(Backend::Dbus),
        Some(Backend::Dbus) => Some(Backend::X11),
        Some(Backend::X11) => None,
    }
}

/// The next backend to probe: Wayland first, then D-Bus, then X11, then none.
pub fn next_backend(after: Option<Backend>) -> (next: Option<Backend>)
    ensures
        next == next_backend_spec(after),
{
    match after {
        None => Some(Backend::Wayland),
        Some(Backend::Wayland) => Some(Backend::Dbus),
        Some(Backend::Dbus) => Some(Backend::X11),
        Some(Backend::X11) => None,
    }
}

/// Probing starts with the first backend of `probe_order`, goes on from each backend
/// to the next one in that order, and stops after the last: every backend is tried
/// exactly once, Wayland, then D-Bus, then X11.
pub proof fn lemma_probe_order()
    ensures
        next_backend_spec(None) == Some(probe_order()[0]),
        forall|i: int|
            0 <= i < probe_order().len() ==> #[trigger] next_backend_spec(Some(probe_order()[i]))
                == if i + 1 < probe_order().len() {
                Some(probe_order()[i + 1])
            } else {
                None::<Backend>
            },
        probe_order().len() == 3,
        probe_order()[0] == Backend::Wayland,
        probe_order()[1] == Backend::Dbus,
        probe_order()[2] == Backend::X11,
{
    assert forall|i: int| 0 <= i < probe_order().len() implies #[trigger] next_backend_spec(
        Some(probe_order()[i]),
    ) == if i + 1 < probe_order().len() {
        Some(probe_order()[i + 1])
    } else {
        None::<Backend>
    } by {
        if i == 0 {
        } else if i == 1 {
        } else {
        }
    }
}

/// One poll of a polling backend: with the idle threshold `timeout_ms`, whether the
/// user was idle at the last report, and the time since the last input, the new
/// idleness and the event to report. Idle is reported when the threshold is first
/// reached, Wake when the idle time drops below it again.
pub open spec fn poll_step(timeout_ms: u64, was_idle: bool, idle_ms: u64) -> (bool, Option<IdleEvent>) {
    if !was_idle && idle_ms >= timeout_ms {
        (true, Some(IdleEvent::Idle))
    } else if was_idle && idle_ms < timeout_ms {
        (false, Some(IdleEvent::Wake))
    } else {
        (was_idle, None)
    }
}

/// A poll reports Idle exactly when the user was not idle and the idle time has reached
/// the threshold, Wake exactly when the user was idle and the idle time is below it,
/// and otherwise nothing; the new idleness is the last event reported.
pub proof fn lemma_poll_step_threshold(timeout_ms: u64, was_idle: bool, idle_ms: u64)
    ensures
        poll_step(timeout_ms, was_idle, idle_ms).1 == Some(IdleEvent::Idle) <==> (!was_idle && idle_ms
            >= timeout_ms),
        poll_step(timeout_ms, was_idle, idle_ms).1 == Some(IdleEvent::Wake) <==> (was_idle && idle_ms
            < timeout_ms),
        poll_step(timeout_ms, was_idle, idle_ms).0 == match poll_step(timeout_ms, was_idle, idle_ms).1 {
            Some(IdleEvent::Idle) => true,
            Some(IdleEvent::Wake) => false,
            None => was_idle,
        },
{
}

/// The idleness after a series of polls and the events reported on the way.
pub open spec fn run_polls(timeout_ms: u64, was_idle: bool, readings: Seq<u64>) -> (bool, Seq<IdleEvent>)
    decreases readings.len(),
{
    if readings.len() == 0 {
        (was_idle, Seq::empty())
    } else {
        let (w, events) = run_polls(timeout_ms, was_idle, readings.drop_last());
        let (w2, e) = poll_step(timeout_ms, w, readings.last());
        (
            w2,
            match e {
                Some(ev) => events.push(ev),
                None => events,
            },
        )
    }
}

/// State of a backend that polls the idle time.
pub struct IdlePoller {
    /// The idle threshold in milliseconds.
    pub timeout_ms: u64,
    /// Whether Idle was the last event reported.
    pub was_idle: bool,
}

impl IdlePoller {
    /// A poller with the given threshold that has reported nothing yet.
    pub fn new(timeout_ms: u64) -> (p: IdlePoller)
        ensures
            p.timeout_ms == timeout_ms,
            !p.was_idle,
    {
        IdlePoller { timeout_ms, was_idle: false }
    }

    /// Takes one reading of the time since the last user input and returns the event to
    /// report, if any.
    pub fn observe(&mut self, idle_ms: u64) -> (event: Option<IdleEvent>)
        ensures
            final(self).timeout_ms == old(self).timeout_ms,
            (final(self).was_idle, event) == poll_step(old(self).timeout_ms, old(self).was_idle, idle_ms),
    {
        if !self.was_idle && idle_ms >= self.timeout_ms {
            self.was_idle = true;
            Some(IdleEvent::Idle)
        } else if self.was_idle && idle_ms < self.timeout_ms {
            self.was_idle = false;
            Some(IdleEvent::Wake)
        } else {
            None
        }
    }
}

/// From a fresh poller, the reported events alternate Idle, Wake, Idle, ... whatever
/// the readings: no event is ever repeated, and the poller counts as idle exactly when
/// an odd number of events has been reported.
pub proof fn lemma_poll_events_alternate(timeout_ms: u64, readings: Seq<u64>)
    ensures
        ({
            let (idle, events) = run_polls(timeout_ms, false, readings);
            &&& forall|i: int|
                0 <= i < events.len() ==> #[trigger] events[i] == if i % 2 == 0 {
                    IdleEvent::Idle
                } else {
                    IdleEvent::Wake
                }
            &&& idle == (events.len() % 2 == 1)
        }),
    decreases readings.len(),
{
    if readings.len() > 0 {
        lemma_poll_events_alternate(timeout_ms, readings.drop_last());
        let (w, events) = run_polls(timeout_ms, false, readings.drop_last());
        let (w2, e) = poll_step(timeout_ms, w, readings.last());
        let (idle, all) = run_polls(timeout_ms, false, readings);
        assert(idle == w2);
        match e {
            Some(ev) => {
                assert(all == events.push(ev));
                assert forall|i: int| 0 <= i < all.len() implies #[trigger] all[i] == if i % 2 == 0 {
                    IdleEvent::Idle
                } else {
                    IdleEvent::Wake
                } by {
                    if i < events.len() {
                        assert(all[i] == events[i]);
                    }
                }
            },
            None => {
                assert(all == events);
            },
        }
    }
}

} // verus!
