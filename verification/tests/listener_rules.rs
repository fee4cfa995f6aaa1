use prodblock::listener::{
    notifier_listener_step, proxy_listener_step, ListenerEvent, ListenerStep, ACCEPT_POLL_MS,
};

#[test]
fn the_proxy_listener_serves_waits_or_ends() {
    assert_eq!(
        proxy_listener_step(ListenerEvent::Connection),
        ListenerStep { serve: true, wait_ms: 0, stop: false }
    );
    assert_eq!(
        proxy_listener_step(ListenerEvent::WouldBlock),
        ListenerStep { serve: false, wait_ms: 100, stop: false }
    );
    assert_eq!(
        proxy_listener_step(ListenerEvent::Failed),
        ListenerStep { serve: false, wait_ms: 0, stop: true }
    );
}

#[test]
fn the_notifier_listener_goes_on_after_a_failure() {
    assert_eq!(
        notifier_listener_step(ListenerEvent::Connection),
        ListenerStep { serve: true, wait_ms: 100, stop: false }
    );
    assert_eq!(
        notifier_listener_step(ListenerEvent::WouldBlock),
        ListenerStep { serve: false, wait_ms: 100, stop: false }
    );
    assert_eq!(
        notifier_listener_step(ListenerEvent::Failed),
        ListenerStep { serve: false, wait_ms: 100, stop: false }
    );
    assert_eq!(ACCEPT_POLL_MS, 100);
}

#[test]
fn the_listeners_end_once_the_lock_is_not_active() {
    let ended: ListenerStep = ListenerStep { serve: false, wait_ms: 0, stop: true };
    assert_eq!(proxy_listener_step(ListenerEvent::LockInactive), ended);
    assert_eq!(notifier_listener_step(ListenerEvent::LockInactive), ended);
}
