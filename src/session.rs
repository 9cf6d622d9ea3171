use vstd::prelude::*;
use crate::client::{chat_line, own_message};
use crate::json::json_of_text;
use crate::render::rendered;
use crate::resolve::{parse_component, resolve_doc, MAX_DEPTH};

verus! {

/// What happened on a connection.
pub enum Event {
    /// Reading from the server failed.
    ReadFailed,
    /// The server accepted the player into the game.
    JoinGame,
    /// The server closed the session, with its reason as JSON text.
    Disconnect(String),
    /// A chat message arrived, as JSON text.
    Chat(String),
    /// The user typed a line.
    Input(String),
}

/// What the client does next.
#[derive(Debug, PartialEq)]
pub enum Action {
    /// Nothing.
    Ignore,
    /// Print a line.
    Show(String),
    /// Send a chat message.
    Send(String),
    /// Announce the client's settings.
    SendSettings,
    /// Print the line, if any, then connect again.
    Reconnect(Option<String>),
    /// Print the line, if any, then stop.
    Exit(Option<String>),
}

/// The display text of a disconnect reason: its rendering where it resolves,
/// else the raw text.
pub open spec fn reason_display(text: Seq<char>) -> Seq<char> {
    match json_of_text(text) {
        Some(d) => match resolve_doc(d, MAX_DEPTH as nat) {
            Ok(c) => rendered(c),
            Err(_) => text,
        },
        None => text,
    }
}

/// The display text of a disconnect reason given as JSON text.
pub fn disconnect_reason(text: &str) -> (r: String)
    ensures
        r@ == reason_display(text@),
{
    match parse_component(text) {
        Ok(c) => c.render(),
        Err(_) => text.to_owned(),
    }
}

/// Decides what to do about `event`, for a user named `username`; with
/// `reconnect` set, a failure or a disconnect leads to a new connection
/// rather than to the end.
pub fn next_action(event: &Event, username: &str, reconnect: bool) -> (r: Action)
    ensures
        match event {
            Event::ReadFailed => if reconnect {
                r == Action::Reconnect(None)
            } else {
                r == Action::Exit(None)
            },
            Event::JoinGame => r == Action::SendSettings,
            Event::Disconnect(reason) => if reconnect {
                r matches Action::Reconnect(Some(line)) && line@ == "Disconnect: "@ + reason_display(
                    reason@,
                )
            } else {
                r matches Action::Exit(Some(line)) && line@ == "Reason: "@ + reason_display(reason@)
            },
            Event::Chat(text) => match json_of_text(text@) {
                Some(d) if resolve_doc(d, MAX_DEPTH as nat) is Ok && own_message(
                    resolve_doc(d, MAX_DEPTH as nat)->Ok_0,
                    username@,
                ) => r == Action::Ignore,
                _ => r matches Action::Show(line) && (match json_of_text(text@) {
                    Some(d) if resolve_doc(d, MAX_DEPTH as nat) is Ok => line@ == rendered(
                        resolve_doc(d, MAX_DEPTH as nat)->Ok_0,
                    ),
                    _ => line@ == "Failed to parse message: "@ + text@,
                }),
            },
            Event::Input(line) => r matches Action::Send(sent) && sent@ == line@,
        },
{
    match event {
        Event::ReadFailed => if reconnect {
            Action::Reconnect(None)
        } else {
            Action::Exit(None)
        },
        Event::JoinGame => Action::SendSettings,
        Event::Disconnect(reason) => {
            let shown = disconnect_reason(reason.as_str());
            if reconnect {
                let mut line = "Disconnect: ".to_owned();
                line.append(shown.as_str());
                Action::Reconnect(Some(line))
            } else {
                let mut line = "Reason: ".to_owned();
                line.append(shown.as_str());
                Action::Exit(Some(line))
            }
        },
        Event::Chat(text) => match chat_line(text.as_str(), username) {
            Some(line) => Action::Show(line),
            None => Action::Ignore,
        },
        Event::Input(line) => Action::Send(line.clone()),
    }
}

} // verus!
