use matrix_mqtt_bridge::ident::UserId;
use matrix_mqtt_bridge::session::{read_session, write_session, Session};

fn session(token: &str, refresh_token: Option<&str>) -> Session {
    Session {
        access_token: token.to_string(),
        refresh_token: refresh_token.map(|token| token.to_string()),
        user_id: UserId::parse("@bot:example.org").unwrap(),
        device_id: "DEVICE".to_string(),
    }
}

#[test]
fn session_is_written_as_an_object() {
    assert_eq!(
        write_session(&session("SECRET", None)),
        r#"{"access_token":"SECRET","user_id":"@bot:example.org","device_id":"DEVICE"}"#
    );
    assert_eq!(
        write_session(&session("a\"b", Some("again"))),
        r#"{"access_token":"a\"b","refresh_token":"again","user_id":"@bot:example.org","device_id":"DEVICE"}"#
    );
}

#[test]
fn session_is_read_as_it_was_written() {
    for token in ["", "SECRET", "\"\\\n\u{0}\u{7f}", "\u{e9}\u{1f600}"] {
        for refresh_token in [None, Some(""), Some("again")] {
            let read = read_session(&write_session(&session(token, refresh_token))).unwrap();
            assert_eq!(read.access_token, token);
            assert_eq!(read.refresh_token.as_deref(), refresh_token);
            assert_eq!(read.user_id.as_str(), "@bot:example.org");
            assert_eq!(read.device_id, "DEVICE");
        }
    }
}

#[test]
fn other_texts_hold_no_session() {
    for text in [
        "",
        "{}",
        "null",
        r#"{"access_token":"SECRET","user_id":"bot","device_id":"DEVICE"}"#,
        r#"{"access_token":"SECRET","user_id":"@bot:example.org"}"#,
        r#"{"access_token":1,"user_id":"@bot:example.org","device_id":"DEVICE"}"#,
    ] {
        assert!(!read_session(text).unwrap_err().cause.to_string().is_empty(), "{}", text);
    }
}
