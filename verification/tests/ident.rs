use matrix_mqtt_bridge::ident::{IdError, RoomId, UserId};

fn room_error(text: &str) -> IdError {
    RoomId::parse(text).unwrap_err()
}

fn user_error(text: &str) -> IdError {
    UserId::parse(text).unwrap_err()
}

#[test]
fn room_id_is_its_text() {
    for text in [
        "!n8f893n9:example.com",
        "!room:localhost:8448",
        "!room:[2001:db8::1]:443",
        "!:example.org",
        "!a/b:example.org",
    ] {
        let room = RoomId::parse(text).unwrap();
        assert_eq!(room.as_str(), text);
        assert!(room.has_text(&text.to_string()));
        assert!(!room.has_text(&"!other:example.com".to_string()));
        assert_eq!(room.clone().as_str(), text);
    }
}

#[test]
fn room_id_is_refused_with_the_reason() {
    assert_eq!(room_error(""), IdError::MissingLeadingSigil);
    assert_eq!(room_error("n8f893n9:example.com"), IdError::MissingLeadingSigil);
    assert_eq!(room_error("@carl:example.com"), IdError::MissingLeadingSigil);
    assert_eq!(room_error("!n8f893n9"), IdError::MissingColon);
    assert_eq!(room_error("!n8f893n9:"), IdError::InvalidServerName);
    assert_eq!(room_error("!room:not a host"), IdError::InvalidServerName);
    assert_eq!(room_error("!room:example.com:99999"), IdError::InvalidServerName);
    assert_eq!(room_error("!room:example.com/send/text"), IdError::InvalidServerName);
    assert_eq!(room_error("!room:[::1/send]"), IdError::InvalidServerName);
}

#[test]
fn identifiers_hold_at_most_255_bytes() {
    let longest = format!("!{}:example.com", "a".repeat(242));
    assert_eq!(longest.len(), 255);
    assert!(RoomId::parse(&longest).is_ok());
    let longer = format!("!{}:example.com", "a".repeat(243));
    assert_eq!(room_error(&longer), IdError::MaximumLengthExceeded);
    let wide = format!("!{}:example.com", "\u{e9}".repeat(122));
    assert!(wide.chars().count() < 255);
    assert_eq!(room_error(&wide), IdError::MaximumLengthExceeded);
    assert_eq!(room_error(&"x".repeat(256)), IdError::MaximumLengthExceeded);
    assert_eq!(user_error(&"x".repeat(256)), IdError::MaximumLengthExceeded);
}

#[test]
fn user_id_is_taken_apart_at_the_first_colon() {
    let user = UserId::parse("@carl:example.com").unwrap();
    assert_eq!(user.as_str(), "@carl:example.com");
    assert_eq!(user.localpart(), "carl");
    assert_eq!(user.server_name(), "example.com");
    let user = UserId::parse("@carl:example.com:8448").unwrap();
    assert_eq!(user.localpart(), "carl");
    assert_eq!(user.server_name(), "example.com:8448");
    let user = UserId::parse("@a%[irc]:example.com").unwrap();
    assert_eq!(user.localpart(), "a%[irc]");
    let user = UserId::parse("@\u{3c4} \u{3c4}:example.com").unwrap();
    assert_eq!(user.localpart(), "\u{3c4} \u{3c4}");
}

#[test]
fn user_id_is_refused_with_the_reason() {
    assert_eq!(user_error("carl"), IdError::MissingLeadingSigil);
    assert_eq!(user_error("!carl:example.com"), IdError::MissingLeadingSigil);
    assert_eq!(user_error("@carl"), IdError::MissingColon);
    assert_eq!(user_error("@carl:"), IdError::InvalidServerName);
    assert_eq!(user_error("@carl:example com"), IdError::InvalidServerName);
}

#[test]
fn plain_host_names_are_accepted() {
    for host in ["a", "example.org", "EXAMPLE-1.org", "127.0.0.1", "-", "..."] {
        assert!(RoomId::parse(&format!("!room:{}", host)).is_ok(), "{}", host);
        let user = UserId::parse(&format!("@user:{}", host)).unwrap();
        assert_eq!(user.localpart(), "user");
        assert_eq!(user.server_name(), host);
    }
    assert_eq!(room_error("!room:ex_ample.org"), IdError::InvalidServerName);
}

#[test]
fn host_may_have_a_port() {
    for server_name in [
        "example.org:8448",
        "example.org:0",
        "example.org:65535",
        "example.org:00080",
        "example.org:+80",
        ":80",
        "127.0.0.1:1",
    ] {
        let text = format!("!r:{}", server_name);
        assert_eq!(RoomId::parse(&text).unwrap().as_str(), text);
    }
    for server_name in [
        "example.org:",
        "example.org:65536",
        "example.org:+",
        "example.org:-1",
        "example.org:8448:1",
        "example.org:80x",
        "example.org: 80",
        ":",
    ] {
        assert_eq!(room_error(&format!("!r:{}", server_name)), IdError::InvalidServerName);
    }
}

#[test]
fn address_stands_in_brackets() {
    for server_name in ["[::1]", "[2001:DB8::1]:443", "[::ffff:127.0.0.1]"] {
        assert!(RoomId::parse(&format!("!r:{}", server_name)).is_ok(), "{}", server_name);
    }
    for server_name in ["[::1", "[]", "[::g]", "[::1]x", "[::1]:", "[127.0.0.1]", "::1"] {
        assert_eq!(room_error(&format!("!r:{}", server_name)), IdError::InvalidServerName);
    }
}
