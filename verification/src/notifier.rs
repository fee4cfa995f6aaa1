//! The extension notifier's rules: the messages pushed to a connected browser
//! extension, and when each is sent.

use vstd::prelude::*;
use vstd::string::StringExecFns;

verus! {

/// The local port on which the notifier listens.
pub const EXTENSION_PORT: u16 = 8766;

/// How long a client waits between two status messages, in milliseconds.
pub const PUSH_INTERVAL_MS: u64 = 1000;

/// What `serde_json::to_string` returns for a list of strings: the JSON text
/// of the list, or nothing where it fails.
pub uninterp spec fn json_list(items: Seq<Seq<char>>) -> Option<Seq<char>>;

/// The error of `serde_json`, which is carried through unopened.
#[verifier::external_type_specification]
#[verifier::external_body]
pub struct ExJsonError(serde_json::Error);

/// Calls `serde_json::to_string` on a list of strings. Whether it succeeds,
/// and with what text, is a function of the strings alone; the contract
/// gives that outcome a name and says nothing else of it.
#[verifier::external_body]
fn encode_list(items: &[String]) -> (r: Result<String, serde_json::Error>)
    ensures
        match r {
            Ok(text) => json_list(items.deep_view()) == Some(text@),
            Err(_) => json_list(items.deep_view()) is None,
        },
{
    serde_json::to_string(items)
}

/// The message that tells the extension that the lock is active, around the
/// JSON text `list` of the allowed domains.
pub open spec fn status_text(list: Seq<char>) -> Seq<char> {
    "{\"allowedDomains\":"@ + list + ",\"lockActive\":true}"@
}

/// The message that tells the extension that the lock has ended.
pub open spec fn final_text() -> Seq<char> {
    "{\"lockActive\":false}"@
}

/// The status message around the JSON text `list` of the allowed domains.
pub fn status_around(list: &str) -> (r: String)
    ensures
        r@ == status_text(list@),
{
    let mut r: String = String::from_str("{\"allowedDomains\":");
    r.append(list);
    r.append(",\"lockActive\":true}");
    r
}

/// The status message for the allow-list `domains`: the message around the
/// JSON text of the list, and none exactly where the list cannot be written
/// as JSON.
pub fn status_message(domains: &[String]) -> (r: Option<String>)
    ensures
        match json_list(domains.deep_view()) {
            Some(list) => r matches Some(m) && m@ == status_text(list),
            None => r is None,
        },
{
    match encode_list(domains) {
        Ok(list) => Some(status_around(list.as_str())),
        Err(_) => None,
    }
}

/// The message that is pushed once when the lock has ended.
pub fn final_message() -> (r: String)
    ensures
        r@ == final_text(),
{
    String::from_str("{\"lockActive\":false}")
}

/// Where a connected client stands.
#[derive(Clone, Copy, Debug, PartialEq, Eq, Structural)]
pub enum ClientState {
    /// Status messages are pushed.
    Streaming,
    /// The final message went out; nothing more is sent.
    Closed,
}

/// What a client's loop has just seen.
#[derive(Clone, Copy, Debug, PartialEq, Eq, Structural)]
pub enum ClientEvent {
    /// The lock state was read.
    Poll { lock_active: bool },
    /// A status message could not be sent.
    SendFailed,
}

/// What a client's loop does next.
#[derive(Clone, Copy, Debug, PartialEq, Eq, Structural)]
pub enum ClientAction {
    /// Send the status message, then wait for the push interval.
    SendStatus,
    /// Send the final message and close.
    SendFinal,
    /// Nothing.
    Idle,
}

/// Where a client stands after the event `event`: it streams on while the
/// lock is found active, and is closed by anything else.
pub open spec fn next_state(state: ClientState, event: ClientEvent) -> ClientState {
    match (state, event) {
        (ClientState::Streaming, ClientEvent::Poll { lock_active: true }) => ClientState::Streaming,
        _ => ClientState::Closed,
    }
}

/// What a client does on the event `event`.
pub open spec fn next_action(state: ClientState, event: ClientEvent) -> ClientAction {
    match (state, event) {
        (ClientState::Streaming, ClientEvent::Poll { lock_active: true }) => ClientAction::SendStatus,
        (ClientState::Streaming, _) => ClientAction::SendFinal,
        (ClientState::Closed, _) => ClientAction::Idle,
    }
}

/// One step of a client's loop: while the lock is active the status goes
/// out; once it is not, or a status could not be sent, the final message goes
/// out and the client is closed.
pub fn client_step(state: ClientState, event: ClientEvent) -> (r: (ClientState, ClientAction))
    ensures
        r.0 == next_state(state, event),
        r.1 == next_action(state, event),
{
    match state {
        ClientState::Closed => (ClientState::Closed, ClientAction::Idle),
        ClientState::Streaming => match event {
            ClientEvent::Poll { lock_active } => if lock_active {
                (ClientState::Streaming, ClientAction::SendStatus)
            } else {
                (ClientState::Closed, ClientAction::SendFinal)
            },
            ClientEvent::SendFailed => (ClientState::Closed, ClientAction::SendFinal),
        },
    }
}

/// The state of a client after the events `events`.
pub open spec fn state_after(state: ClientState, events: Seq<ClientEvent>) -> ClientState
    decreases events.len(),
{
    if events.len() == 0 {
        state
    } else {
        next_state(state_after(state, events.drop_last()), events.last())
    }
}

/// How many final messages a client sends over the events `events`.
pub open spec fn finals_sent(state: ClientState, events: Seq<ClientEvent>) -> nat
    decreases events.len(),
{
    if events.len() == 0 {
        0
    } else {
        let before = state_after(state, events.drop_last());
        let one: nat = if next_action(before, events.last()) == ClientAction::SendFinal {
            1
        } else {
            0
        };
        finals_sent(state, events.drop_last()) + one
    }
}

/// A client that streams sends the final message exactly once by the time it
/// is closed, and none before.
pub proof fn lemma_one_final_message(events: Seq<ClientEvent>)
    ensures
        state_after(ClientState::Streaming, events) == ClientState::Closed ==> finals_sent(
            ClientState::Streaming,
            events,
        ) == 1,
        state_after(ClientState::Streaming, events) == ClientState::Streaming ==> finals_sent(
            ClientState::Streaming,
            events,
        ) == 0,
    decreases events.len(),
{
    if events.len() > 0 {
        lemma_one_final_message(events.drop_last());
    }
}

/// A closed client stays closed and sends nothing.
pub proof fn lemma_closed_is_silent(event: ClientEvent)
    ensures
        next_state(ClientState::Closed, event) == ClientState::Closed,
        next_action(ClientState::Closed, event) == ClientAction::Idle,
{
}

/// While the lock is active a streaming client sends the status at each poll;
/// at the first poll that finds the lock inactive it sends the final message.
pub proof fn lemma_poll_follows_lock(lock_active: bool)
    ensures
        next_action(ClientState::Streaming, ClientEvent::Poll { lock_active }) == if lock_active {
            ClientAction::SendStatus
        } else {
            ClientAction::SendFinal
        },
{
}

} // verus!
