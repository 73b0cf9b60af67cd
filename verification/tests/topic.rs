use matrix_mqtt_bridge::ident::{IdError, RoomId};
use matrix_mqtt_bridge::topic::{
    addressed_text, pick_room, room_of_topic, room_topic, second_level, text_topic, text_topics, RouteError,
};

fn room(text: &str) -> RoomId {
    RoomId::parse(text).unwrap()
}

fn routed(prefix: &str, topic: &str) -> Result<String, RouteError> {
    room_of_topic(prefix, topic).map(|room| room.as_str().to_string())
}

#[test]
fn events_of_a_room_go_to_prefix_and_room() {
    assert_eq!(
        room_topic("matrix_bridge", "!abc:example.org"),
        "matrix_bridge/!abc:example.org"
    );
}

#[test]
fn text_for_a_room_is_taken_below_its_topic() {
    assert_eq!(
        text_topic("matrix_bridge", "!abc:example.org"),
        "matrix_bridge/!abc:example.org/send/text"
    );
    assert_eq!(
        text_topics("p", &vec![room("!b:x.org"), room("!a:x.org")]),
        vec!["p/!b:x.org/send/text", "p/!a:x.org/send/text"]
    );
    assert_eq!(text_topics("p", &Vec::new()), Vec::<String>::new());
}

#[test]
fn second_level_is_what_split_gives() {
    for topic in ["", "a", "a/", "/", "//", "a/b", "a/b/c", "a//c", "/b", "\u{e9}/\u{3c4}b/c/d"] {
        assert_eq!(second_level(topic).as_deref(), topic.split('/').nth(1), "{}", topic);
    }
}

#[test]
fn addressed_text_is_the_place_of_the_room() {
    assert_eq!(addressed_text("p", "p/x/send/text").as_deref(), Some("x"));
    assert_eq!(addressed_text("p", "p//send/text").as_deref(), Some(""));
    assert_eq!(addressed_text("a/b", "a/b/x/y/send/text").as_deref(), Some("x/y"));
    assert_eq!(addressed_text("", "/x/send/text").as_deref(), Some("x"));
    assert_eq!(addressed_text("p", "p/send/text"), None);
    assert_eq!(addressed_text("p", "q/x/send/text"), None);
    assert_eq!(addressed_text("p", "pp/x/send/text"), None);
    assert_eq!(addressed_text("p", "p/x/send/texts"), None);
    assert_eq!(addressed_text("p", "p"), None);
    assert_eq!(addressed_text("p", ""), None);
    assert_eq!(addressed_text("long/prefix", "p/x/send/text"), None);
}

#[test]
fn text_topic_leads_to_its_room() {
    for prefix in ["matrix_bridge", "home/bridge", "", "a/!x:y.org", "\u{e9}"] {
        for id in ["!abc:example.org", "!a/b:example.org", "!r:[::1]:80"] {
            assert_eq!(routed(prefix, &text_topic(prefix, id)), Ok(id.to_string()));
        }
    }
}

#[test]
fn other_topics_name_the_room_by_their_second_level() {
    assert_eq!(routed("p", "q/!abc:example.org"), Ok("!abc:example.org".to_string()));
    assert_eq!(
        routed("p", "p/!abc:example.org/x/send/text"),
        Ok("!abc:example.org".to_string())
    );
    assert_eq!(routed("p", "p/!abc:example.org/redact"), Ok("!abc:example.org".to_string()));
}

#[test]
fn topics_without_a_room_are_refused() {
    assert_eq!(routed("p", "p"), Err(RouteError::NoRoom));
    assert_eq!(routed("p", ""), Err(RouteError::NoRoom));
    assert_eq!(
        routed("p", "p/nothing/send/text"),
        Err(RouteError::InvalidRoom(IdError::MissingLeadingSigil))
    );
    assert_eq!(
        routed("p", "p/!abc/send/text"),
        Err(RouteError::InvalidRoom(IdError::MissingColon))
    );
    assert_eq!(
        routed("p", "p/!abc:/send/text"),
        Err(RouteError::InvalidRoom(IdError::InvalidServerName))
    );
    assert_eq!(
        routed("a/b", "a/b/nothing/send/text"),
        Err(RouteError::InvalidRoom(IdError::MissingLeadingSigil))
    );
}

#[test]
fn topics_tell_rooms_apart() {
    assert_ne!(room_topic("p", "!a:x.org"), room_topic("p", "!b:x.org"));
    assert_ne!(text_topic("p", "!a:x.org"), text_topic("p", "!b:x.org"));
}

#[test]
fn published_topic_is_never_subscribed() {
    let rooms = ["!a:x.org", "!a/send/text:x.org", "!a:x.org:80"];
    for published in rooms {
        for subscribed in rooms {
            assert_ne!(room_topic("p", published), text_topic("p", subscribed));
        }
    }
}

#[test]
fn levels_of_the_text_topic() {
    let topic = text_topic("matrix_bridge", "!abc:example.org");
    assert_eq!(second_level(&topic).as_deref(), Some("!abc:example.org"));
    assert_eq!(
        topic.split('/').collect::<Vec<_>>(),
        vec!["matrix_bridge", "!abc:example.org", "send", "text"]
    );
}

#[test]
fn addressed_room_is_picked_before_the_second_level() {
    let picked = |addressed, second| {
        pick_room(addressed, second).map(|room: RoomId| room.as_str().to_string())
    };
    let a = || Some(RoomId::parse("!a:x.org"));
    let b = || Some(RoomId::parse("!b:x.org"));
    let bad = || Some(RoomId::parse("nothing"));
    let colonless = || Some(RoomId::parse("!b"));
    assert_eq!(picked(a(), b()), Ok("!a:x.org".to_string()));
    assert_eq!(picked(a(), bad()), Ok("!a:x.org".to_string()));
    assert_eq!(picked(a(), None), Ok("!a:x.org".to_string()));
    assert_eq!(picked(bad(), b()), Ok("!b:x.org".to_string()));
    assert_eq!(picked(None, b()), Ok("!b:x.org".to_string()));
    assert_eq!(
        picked(bad(), colonless()),
        Err(RouteError::InvalidRoom(IdError::MissingColon))
    );
    assert_eq!(picked(bad(), None), Err(RouteError::NoRoom));
    assert_eq!(picked(None, None), Err(RouteError::NoRoom));
}

#[test]
fn invalid_room_with_a_slash_leaves_the_second_level() {
    assert_eq!(
        routed("p", "p/x/y/send/text"),
        Err(RouteError::InvalidRoom(IdError::MissingLeadingSigil))
    );
    assert_eq!(routed("p", "p/!a:x.org/y/send/text"), Ok("!a:x.org".to_string()));
}
