use mc_chat::session::{disconnect_reason, next_action, Action, Event};

#[test]
fn read_failure_reconnects_or_exits() {
    assert_eq!(next_action(&Event::ReadFailed, "me", true), Action::Reconnect(None));
    assert_eq!(next_action(&Event::ReadFailed, "me", false), Action::Exit(None));
}

#[test]
fn join_game_sends_settings() {
    assert_eq!(next_action(&Event::JoinGame, "me", false), Action::SendSettings);
}

#[test]
fn disconnect_shows_the_reason() {
    let reason = r#"{"text":"Kicked","extra":[" for idling"]}"#.to_string();
    assert_eq!(
        next_action(&Event::Disconnect(reason.clone()), "me", true),
        Action::Reconnect(Some("Disconnect: Kicked for idling".to_string()))
    );
    assert_eq!(
        next_action(&Event::Disconnect(reason), "me", false),
        Action::Exit(Some("Reason: Kicked for idling".to_string()))
    );
}

#[test]
fn unreadable_disconnect_reason_is_shown_raw() {
    assert_eq!(disconnect_reason("not json"), "not json");
    assert_eq!(disconnect_reason("{}"), "{}");
    assert_eq!(disconnect_reason(r#""bye""#), "bye");
}

#[test]
fn chat_events() {
    let own = r#"{"translate":"chat.type.text","with":[{"text":"me"},"hi"]}"#.to_string();
    assert_eq!(next_action(&Event::Chat(own.clone()), "me", false), Action::Ignore);
    assert_eq!(
        next_action(&Event::Chat(own), "other", false),
        Action::Show("[chat.type.text] me hi".to_string())
    );
    assert_eq!(
        next_action(&Event::Chat("{".to_string()), "me", false),
        Action::Show("Failed to parse message: {".to_string())
    );
}

#[test]
fn input_is_sent() {
    assert_eq!(
        next_action(&Event::Input("hello\n".to_string()), "me", false),
        Action::Send("hello\n".to_string())
    );
}
