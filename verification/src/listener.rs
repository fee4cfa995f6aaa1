//! The accept loops' rules: what a listener does with what it finds at one
//! turn of its loop.

use vstd::prelude::*;

verus! {

/// How long a listener waits before it looks for a connection again, in
/// milliseconds.
pub const ACCEPT_POLL_MS: u64 = 100;

/// What a listener finds at one turn: the lock is no longer active, or the
/// outcome of one attempt to accept a connection.
#[derive(Clone, Copy, Debug, PartialEq, Eq, Structural)]
pub enum ListenerEvent {
    /// The lock is not active; no connection was looked for.
    LockInactive,
    /// A client connected.
    Connection,
    /// No client is waiting.
    WouldBlock,
    /// The listener failed otherwise.
    Failed,
}

/// What a listener does at one turn.
#[derive(Clone, Copy, Debug, PartialEq, Eq, Structural)]
pub struct ListenerStep {
    /// Whether the connection is handed to a handler of its own.
    pub serve: bool,
    /// How long the listener then waits.
    pub wait_ms: u64,
    /// Whether the listener then ends.
    pub stop: bool,
}

/// The proxy's listener ends once the lock is not active; until then it
/// serves each connection at once, waits where no client is waiting, and
/// ends on any other failure.
pub open spec fn proxy_step(event: ListenerEvent) -> ListenerStep {
    match event {
        ListenerEvent::LockInactive => ListenerStep { serve: false, wait_ms: 0, stop: true },
        ListenerEvent::Connection => ListenerStep { serve: true, wait_ms: 0, stop: false },
        ListenerEvent::WouldBlock => ListenerStep {
            serve: false,
            wait_ms: ACCEPT_POLL_MS,
            stop: false,
        },
        ListenerEvent::Failed => ListenerStep { serve: false, wait_ms: 0, stop: true },
    }
}

/// The notifier's listener ends once the lock is not active; until then it
/// serves each connection, waits after every attempt, and ends on no
/// failure.
pub open spec fn notifier_step(event: ListenerEvent) -> ListenerStep {
    match event {
        ListenerEvent::LockInactive => ListenerStep { serve: false, wait_ms: 0, stop: true },
        ListenerEvent::Connection => ListenerStep {
            serve: true,
            wait_ms: ACCEPT_POLL_MS,
            stop: false,
        },
        _ => ListenerStep { serve: false, wait_ms: ACCEPT_POLL_MS, stop: false },
    }
}

/// What the proxy's listener does at one turn.
pub fn proxy_listener_step(event: ListenerEvent) -> (r: ListenerStep)
    ensures
        r == proxy_step(event),
{
    match event {
        ListenerEvent::Connection => ListenerStep { serve: true, wait_ms: 0, stop: false },
        ListenerEvent::WouldBlock => ListenerStep {
            serve: false,
            wait_ms: ACCEPT_POLL_MS,
            stop: false,
        },
        _ => ListenerStep { serve: false, wait_ms: 0, stop: true },
    }
}

/// What the notifier's listener does at one turn.
pub fn notifier_listener_step(event: ListenerEvent) -> (r: ListenerStep)
    ensures
        r == notifier_step(event),
{
    match event {
        ListenerEvent::LockInactive => ListenerStep { serve: false, wait_ms: 0, stop: true },
        ListenerEvent::Connection => ListenerStep {
            serve: true,
            wait_ms: ACCEPT_POLL_MS,
            stop: false,
        },
        _ => ListenerStep { serve: false, wait_ms: ACCEPT_POLL_MS, stop: false },
    }
}

/// Once the lock is not active every listener ends, and serves nothing.
pub proof fn lemma_listeners_end_with_the_lock()
    ensures
        proxy_step(ListenerEvent::LockInactive).stop,
        !proxy_step(ListenerEvent::LockInactive).serve,
        notifier_step(ListenerEvent::LockInactive).stop,
        !notifier_step(ListenerEvent::LockInactive).serve,
{
}

} // verus!
