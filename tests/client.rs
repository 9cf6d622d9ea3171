use mc_chat::address::{AddressError, ServerAddress};
use mc_chat::client::{chat_line, is_own_message, locale_from_lang};
use mc_chat::resolve::parse_component;

#[test]
fn server_address() {
    let r = ServerAddress::from_str("127.0.0.1:25566").unwrap();
    assert_eq!(
        r,
        ServerAddress {
            host: String::from("127.0.0.1"),
            port: 25566,
        }
    );
    assert_eq!(r.to_string(), "127.0.0.1:25566");
}

#[test]
fn server_address_default_port() {
    let r = ServerAddress::from_str("127.0.0.1").unwrap();
    assert_eq!(
        r,
        ServerAddress {
            host: "127.0.0.1".into(),
            port: 25565
        }
    );
    assert_eq!(r.to_string(), "127.0.0.1:25565");
}

#[test]
fn server_address_splits_at_the_last_colon() {
    let r = ServerAddress::from_str("a:b:+7").unwrap();
    assert_eq!(r, ServerAddress { host: "a:b".into(), port: 7 });
    assert_eq!(r.to_string(), "a:b:7");
    let r = ServerAddress::from_str(":0").unwrap();
    assert_eq!(r, ServerAddress { host: "".into(), port: 0 });
    assert_eq!(r.to_string(), ":0");
    let r = ServerAddress::from_str("h:65535").unwrap();
    assert_eq!(r.port, 65535);
}

#[test]
fn server_address_port_errors() {
    assert_eq!(ServerAddress::from_str("h:"), Err(AddressError::Empty));
    assert_eq!(ServerAddress::from_str("h:+"), Err(AddressError::InvalidDigit));
    assert_eq!(ServerAddress::from_str("h:12a"), Err(AddressError::InvalidDigit));
    assert_eq!(ServerAddress::from_str("h:-1"), Err(AddressError::InvalidDigit));
    assert_eq!(ServerAddress::from_str("h:65536"), Err(AddressError::PosOverflow));
    assert_eq!(
        ServerAddress::from_str("h:99999999999"),
        Err(AddressError::PosOverflow)
    );
}

#[test]
fn locale_comes_from_lang() {
    assert_eq!(locale_from_lang(Some("de_DE.UTF-8")), "de_DE");
    assert_eq!(locale_from_lang(Some("fr_FR")), "fr_FR");
    assert_eq!(locale_from_lang(Some("C")), "en_US");
    assert_eq!(locale_from_lang(None), "en_US");
    assert_eq!(locale_from_lang(Some(".x")), "");
}

#[test]
fn own_messages_are_recognised() {
    let mine = parse_component(r#"{"translate":"chat.type.text","with":[{"text":"me"},"hi"]}"#)
        .unwrap();
    assert!(is_own_message(&mine, "me"));
    assert!(!is_own_message(&mine, "you"));
    let raw_name =
        parse_component(r#"{"translate":"chat.type.text","with":["me","hi"]}"#).unwrap();
    assert!(!is_own_message(&raw_name, "me"));
    let other_key =
        parse_component(r#"{"translate":"chat.type.emote","with":[{"text":"me"}]}"#).unwrap();
    assert!(!is_own_message(&other_key, "me"));
}

#[test]
fn chat_lines() {
    let text = r#"{"translate":"chat.type.text","with":[{"text":"me"},"hi"]}"#;
    assert_eq!(chat_line(text, "me"), None);
    assert_eq!(chat_line(text, "you"), Some("[chat.type.text] me hi".to_string()));
    assert_eq!(
        chat_line("{}", "me"),
        Some("Failed to parse message: {}".to_string())
    );
    assert_eq!(
        chat_line("nope", "me"),
        Some("Failed to parse message: nope".to_string())
    );
}
