use matrix_screensaver::idle::dbus::DbusIdleDetector;
use matrix_screensaver::idle::lock::{session_signal_event, SessionSignal};
use matrix_screensaver::idle::wayland::{IdleNotification, WaylandIdleDetector};
use matrix_screensaver::idle::x11::X11IdleDetector;
use matrix_screensaver::idle::{next_backend, Backend, IdleEvent, IdlePoller};

#[test]
fn backends_are_probed_wayland_then_dbus_then_x11() {
    let mut order = Vec::new();
    let mut b = next_backend(None);
    while let Some(x) = b {
        order.push(x);
        b = next_backend(Some(x));
    }
    assert_eq!(order, vec![Backend::Wayland, Backend::Dbus, Backend::X11]);
}

#[test]
fn poller_reports_idle_once_then_wake_once() {
    let mut p = IdlePoller::new(300_000);
    assert_eq!(p.observe(1_000), None);
    assert_eq!(p.observe(299_999), None);
    assert_eq!(p.observe(300_000), Some(IdleEvent::Idle));
    assert_eq!(p.observe(400_000), None);
    assert_eq!(p.observe(10), Some(IdleEvent::Wake));
    assert_eq!(p.observe(20), None);
    assert_eq!(p.observe(500_000), Some(IdleEvent::Idle));
    assert!(p.was_idle);
}

#[test]
fn poller_events_alternate_on_any_readings() {
    let mut p = IdlePoller::new(50);
    let readings = [0u64, 60, 70, 10, 10, 90, 49, 50, 51, 0, 100];
    let events: Vec<IdleEvent> = readings.iter().filter_map(|&r| p.observe(r)).collect();
    assert_eq!(
        events,
        vec![IdleEvent::Idle, IdleEvent::Wake, IdleEvent::Idle, IdleEvent::Wake, IdleEvent::Idle, IdleEvent::Wake, IdleEvent::Idle]
    );
}

#[test]
fn dbus_threshold_saturates() {
    let p = DbusIdleDetector::idle_poller(600);
    assert_eq!(p.timeout_ms, 600_000);
    assert!(!p.was_idle);
    assert_eq!(DbusIdleDetector::idle_poller(u64::MAX).timeout_ms, u64::MAX);
}

#[test]
fn x11_threshold_is_in_milliseconds() {
    let p = X11IdleDetector::idle_poller(300);
    assert_eq!(p.timeout_ms, 300_000);
    assert!(!p.was_idle);
}

#[test]
fn wayland_threshold_keeps_the_low_32_bits() {
    assert_eq!(WaylandIdleDetector::notification_timeout_ms(600), 600_000);
    assert_eq!(WaylandIdleDetector::notification_timeout_ms(5_000_000), 705_032_704);
}

#[test]
fn wayland_notifications_map_to_events() {
    assert_eq!(WaylandIdleDetector::notification_event(IdleNotification::Idled), Some(IdleEvent::Idle));
    assert_eq!(WaylandIdleDetector::notification_event(IdleNotification::Resumed), Some(IdleEvent::Wake));
    assert_eq!(WaylandIdleDetector::notification_event(IdleNotification::Other), None);
}

#[test]
fn session_lock_is_idle_and_unlock_is_wake() {
    assert_eq!(session_signal_event(SessionSignal::Lock), IdleEvent::Idle);
    assert_eq!(session_signal_event(SessionSignal::Unlock), IdleEvent::Wake);
}
