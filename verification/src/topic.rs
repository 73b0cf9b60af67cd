//! The MQTT topics of the bridge.
//!
//! Events of a room are published to `<prefix>/<room ID>`, and text that is published to
//! `<prefix>/<room ID>/send/text` is sent to the room.

use crate::ident::{
    id_verdict, is_room_id, law_server_name_is_one_word, server_name_of, IdError, RoomId,
};
use vstd::prelude::*;

verus! {

/// The topic that the events of a room are published to.
pub open spec fn room_topic_of(prefix: Seq<char>, room: Seq<char>) -> Seq<char> {
    prefix + seq!['/'] + room
}

/// The topic that takes the text for a room.
pub open spec fn text_topic_of(prefix: Seq<char>, room: Seq<char>) -> Seq<char> {
    room_topic_of(prefix, room) + "/send/text"@
}

/// The topics that take the text for the rooms.
pub open spec fn text_topics_of(prefix: Seq<char>, rooms: Seq<Seq<char>>) -> Seq<Seq<char>> {
    rooms.map_values(|room: Seq<char>| text_topic_of(prefix, room))
}

/// The levels of a topic: the parts between its slashes.
pub open spec fn levels(topic: Seq<char>) -> Seq<Seq<char>>
    decreases topic.len(),
{
    if topic.len() == 0 {
        seq![Seq::empty()]
    } else {
        let before = levels(topic.drop_last());
        if topic.last() == '/' {
            before.push(Seq::empty())
        } else {
            before.drop_last().push(before.last().push(topic.last()))
        }
    }
}

/// The levels with a slash between each and the next.
pub open spec fn joined(levels: Seq<Seq<char>>) -> Seq<char>
    decreases levels.len(),
{
    if levels.len() == 0 {
        Seq::empty()
    } else if levels.len() == 1 {
        levels[0]
    } else {
        joined(levels.drop_last()) + seq!['/'] + levels.last()
    }
}

/// Why no room could be made out from a topic.
#[derive(Clone, Copy, Debug, PartialEq, Eq, Structural)]
pub enum RouteError {
    /// The topic has no level that could name a room.
    NoRoom,
    /// The level that should name a room is not a room ID.
    InvalidRoom(IdError),
}

/// The text in the place of the room, in a topic of the form `<prefix>/<room ID>/send/text`.
pub open spec fn addressed_by(prefix: Seq<char>, topic: Seq<char>) -> Option<Seq<char>> {
    if exists|text: Seq<char>| topic == #[trigger] text_topic_of(prefix, text) {
        Some(choose|text: Seq<char>| topic == #[trigger] text_topic_of(prefix, text))
    } else {
        None
    }
}

/// A text, read as a room ID.
pub open spec fn read_as_room(text: Seq<char>) -> Result<Seq<char>, IdError> {
    match id_verdict(text, '!') {
        Ok(_) => Ok(text),
        Err(e) => Err(e),
    }
}

/// The text that a topic addresses, if any, read as a room ID.
pub open spec fn addressed_room(prefix: Seq<char>, topic: Seq<char>) -> Option<
    Result<Seq<char>, IdError>,
> {
    match addressed_by(prefix, topic) {
        Some(text) => Some(read_as_room(text)),
        None => None,
    }
}

/// The second level of a topic, if any, read as a room ID.
pub open spec fn second_level_room(topic: Seq<char>) -> Option<Result<Seq<char>, IdError>> {
    if levels(topic).len() < 2 {
        None
    } else {
        Some(read_as_room(levels(topic)[1]))
    }
}

/// The room, if the second level of a topic alone decides.
pub open spec fn room_by_second_level(second: Option<Result<Seq<char>, IdError>>) -> Result<
    Seq<char>,
    RouteError,
> {
    match second {
        Some(Ok(room)) => Ok(room),
        Some(Err(e)) => Err(RouteError::InvalidRoom(e)),
        None => Err(RouteError::NoRoom),
    }
}

/// The room, from what a topic addresses and what its second level names: the room that it
/// addresses, and if it addresses none, the one that the second level names.
pub open spec fn picked_room(
    addressed: Option<Result<Seq<char>, IdError>>,
    second: Option<Result<Seq<char>, IdError>>,
) -> Result<Seq<char>, RouteError> {
    match addressed {
        Some(Ok(room)) => Ok(room),
        _ => room_by_second_level(second),
    }
}

/// The room that a message on a topic is for.
pub open spec fn route(prefix: Seq<char>, topic: Seq<char>) -> Result<Seq<char>, RouteError> {
    picked_room(addressed_room(prefix, topic), second_level_room(topic))
}

/// What a room ID was read as.
pub open spec fn reading(read: Option<Result<RoomId, IdError>>) -> Option<
    Result<Seq<char>, IdError>,
> {
    match read {
        Some(Ok(room)) => Some(Ok(room@)),
        Some(Err(e)) => Some(Err(e)),
        None => None,
    }
}

proof fn lemma_text_topic_injective(prefix: Seq<char>, a: Seq<char>, b: Seq<char>)
    ensures
        text_topic_of(prefix, a) == text_topic_of(prefix, b) ==> a == b,
        room_topic_of(prefix, a) == room_topic_of(prefix, b) ==> a == b,
{
    let n = prefix.len() + 1;
    let ra = room_topic_of(prefix, a);
    let rb = room_topic_of(prefix, b);
    assert(ra.skip(n as int) =~= a);
    assert(rb.skip(n as int) =~= b);
    let ta = text_topic_of(prefix, a);
    let tb = text_topic_of(prefix, b);
    if ta == tb {
        assert(ta.len() == ra.len() + "/send/text"@.len());
        assert(tb.len() == rb.len() + "/send/text"@.len());
        assert(ta.take(ra.len() as int) =~= ra);
        assert(tb.take(rb.len() as int) =~= rb);
    }
}

proof fn lemma_levels_nonempty(topic: Seq<char>)
    ensures
        levels(topic).len() >= 1,
    decreases topic.len(),
{
    if topic.len() > 0 {
        lemma_levels_nonempty(topic.drop_last());
    }
}

/// Returns the topic that the events of a room are published to.
pub fn room_topic(prefix: &str, room: &str) -> (topic: String)
    ensures
        topic@ == room_topic_of(prefix@, room@),
{
    let mut topic = prefix.to_owned();
    topic.append("/");
    topic.append(room);
    proof {
        reveal_strlit("/");
        assert("/"@ =~= seq!['/']);
    }
    topic
}

/// Returns the topic that takes the text for a room.
pub fn text_topic(prefix: &str, room: &str) -> (topic: String)
    ensures
        topic@ == text_topic_of(prefix@, room@),
{
    let mut topic = room_topic(prefix, room);
    topic.append("/send/text");
    topic
}

/// Returns the topics that take the text for the rooms, in the order of the rooms.
pub fn text_topics(prefix: &str, rooms: &Vec<RoomId>) -> (topics: Vec<String>)
    ensures
        topics.deep_view() == text_topics_of(prefix@, rooms.deep_view()),
{
    let mut topics: Vec<String> = Vec::new();
    let mut i: usize = 0;
    while i < rooms.len()
        invariant
            i <= rooms.len(),
            topics.len() == i,
            forall|j: int| 0 <= j < i ==> #[trigger] topics@[j]@ == text_topic_of(prefix@, rooms@[j]@),
        decreases rooms.len() - i,
    {
        topics.push(text_topic(prefix, rooms[i].as_str()));
        i += 1;
    }
    assert(topics.deep_view() =~= text_topics_of(prefix@, rooms.deep_view()));
    topics
}

/// Returns the second level of a topic, if it has one.
pub fn second_level(topic: &str) -> (level: Option<String>)
    ensures
        match level {
            Some(text) => levels(topic@).len() >= 2 && text@ == levels(topic@)[1],
            None => levels(topic@).len() < 2,
        },
{
    let mut slashes: u8 = 0;
    let mut start: usize = 0;
    let mut end: usize = 0;
    let mut n: usize = 0;
    let len: usize = topic.unicode_len();
    proof {
        assert(topic@.take(0) =~= Seq::empty());
    }
    for c in it: topic.chars()
        invariant
            it.seq() == topic@,
            n == it.index(),
            len == topic@.len(),
            slashes <= 2,
            slashes == 0 ==> levels(topic@.take(n as int)).len() == 1,
            slashes == 1 ==> {
                &&& start <= n
                &&& levels(topic@.take(n as int)).len() == 2
                &&& levels(topic@.take(n as int))[1] == topic@.subrange(start as int, n as int)
            },
            slashes == 2 ==> {
                &&& start <= end <= n
                &&& levels(topic@.take(n as int)).len() >= 3
                &&& levels(topic@.take(n as int))[1] == topic@.subrange(start as int, end as int)
            },
    {
        proof {
            let before = topic@.take(n as int);
            let after = topic@.take(n + 1);
            assert(after.drop_last() =~= before);
            assert(after.last() == c);
            assert(n < len);
            if slashes == 1 {
                assert(topic@.subrange(start as int, n as int).push(c) =~= topic@.subrange(
                    start as int,
                    n + 1,
                ));
            }
        }
        if c == '/' {
            if slashes == 0 {
                slashes = 1;
                start = n + 1;
                assert(topic@.subrange(start as int, n + 1) =~= Seq::empty());
            } else if slashes == 1 {
                slashes = 2;
                end = n;
            }
        }
        n += 1;
    }
    assert(topic@.take(n as int) =~= topic@);
    if slashes == 0 {
        None
    } else if slashes == 1 {
        Some(topic.substring_char(start, len).to_owned())
    } else {
        Some(topic.substring_char(start, end).to_owned())
    }
}

/// Returns the characters of a string.
fn chars_of(text: &str) -> (chars: Vec<char>)
    ensures
        chars@ == text@,
{
    let mut chars: Vec<char> = Vec::new();
    for c in it: text.chars()
        invariant
            it.seq() == text@,
            chars@ == text@.take(it.index() as int),
    {
        chars.push(c);
    }
    chars
}

/// Tells whether a text stands in another from the given position on.
fn stands_at(text: &Vec<char>, at: usize, part: &Vec<char>) -> (r: bool)
    requires
        at + part.len() <= text.len(),
    ensures
        r == (text@.subrange(at as int, at + part.len()) == part@),
{
    let mut i: usize = 0;
    while i < part.len()
        invariant
            i <= part.len(),
            at + part.len() <= text.len(),
            forall|j: int| 0 <= j < i ==> text@[at + j] == #[trigger] part@[j],
        decreases part.len() - i,
    {
        if text[at + i] != part[i] {
            assert(text@.subrange(at as int, at + part.len())[i as int] != part@[i as int]);
            return false;
        }
        i += 1;
    }
    assert(text@.subrange(at as int, at + part.len()) =~= part@);
    true
}

/// Returns the text in the place of the room, if the topic has the form
/// `<prefix>/<room ID>/send/text`.
pub fn addressed_text(prefix: &str, topic: &str) -> (r: Option<String>)
    ensures
        match r {
            Some(text) => topic@ == text_topic_of(prefix@, text@),
            None => forall|text: Seq<char>| topic@ != #[trigger] text_topic_of(prefix@, text),
        },
        match r {
            Some(text) => addressed_by(prefix@, topic@) == Some(text@),
            None => addressed_by(prefix@, topic@) is None,
        },
{
    let head: Vec<char> = chars_of(prefix);
    let tail: Vec<char> = chars_of("/send/text");
    let all: Vec<char> = chars_of(topic);
    proof {
        reveal_strlit("/send/text");
        assert forall|text: Seq<char>| topic@ == #[trigger] text_topic_of(prefix@, text) implies {
            &&& all.len() == head.len() + 1 + text.len() + tail.len()
            &&& all@.subrange(0, head.len() as int) == head@
            &&& all@[head.len() as int] == '/'
            &&& all@.subrange(all.len() - tail.len(), all.len() as int) == tail@
        } by {
            assert(all@.subrange(0, head.len() as int) =~= head@);
            assert(all@.subrange(all.len() - tail.len(), all.len() as int) =~= tail@);
        }
    }
    if all.len() <= tail.len() || all.len() - tail.len() - 1 < head.len() {
        return None;
    }
    let end: usize = all.len() - tail.len();
    if !stands_at(&all, 0, &head) || all[head.len()] != '/' || !stands_at(&all, end, &tail) {
        return None;
    }
    let text = topic.substring_char(head.len() + 1, end);
    proof {
        assert(topic@ =~= text_topic_of(prefix@, text@)) by {
            let whole = text_topic_of(prefix@, text@);
            assert(whole.len() == topic@.len());
            assert forall|i: int| 0 <= i < topic@.len() implies topic@[i] == whole[i] by {
                if i < head.len() {
                    assert(all@.subrange(0, head.len() as int)[i] == head@[i]);
                } else if i >= end {
                    assert(all@.subrange(end as int, all.len() as int)[i - end] == tail@[i - end]);
                }
            }
        }
        let chosen = addressed_by(prefix@, topic@)->0;
        lemma_text_topic_injective(prefix@, text@, chosen);
    }
    Some(text.to_owned())
}

/// Picks the room, from what a topic addresses and what its second level names.
pub fn pick_room(
    addressed: Option<Result<RoomId, IdError>>,
    second: Option<Result<RoomId, IdError>>,
) -> (r: Result<RoomId, RouteError>)
    ensures
        match r {
            Ok(room) => picked_room(reading(addressed), reading(second)) == Ok::<
                Seq<char>,
                RouteError,
            >(room@),
            Err(e) => picked_room(reading(addressed), reading(second)) == Err::<
                Seq<char>,
                RouteError,
            >(e),
        },
{
    if let Some(Ok(room)) = addressed {
        return Ok(room);
    }
    match second {
        Some(Ok(room)) => Ok(room),
        Some(Err(e)) => Err(RouteError::InvalidRoom(e)),
        None => Err(RouteError::NoRoom),
    }
}

/// Finds the room that a message on a topic is for.
pub fn room_of_topic(prefix: &str, topic: &str) -> (r: Result<RoomId, RouteError>)
    ensures
        match r {
            Ok(room) => route(prefix@, topic@) == Ok::<Seq<char>, RouteError>(room@) && is_room_id(
                room@,
            ),
            Err(e) => route(prefix@, topic@) == Err::<Seq<char>, RouteError>(e),
        },
{
    let addressed = match addressed_text(prefix, topic) {
        Some(text) => Some(RoomId::parse(text.as_str())),
        None => None,
    };
    let second = match second_level(topic) {
        Some(text) => Some(RoomId::parse(text.as_str())),
        None => None,
    };
    pick_room(addressed, second)
}

/// Whatever the prefix, a message on the text topic of a room is for this room.
pub proof fn law_text_topic_leads_to_its_room(prefix: Seq<char>, room: Seq<char>)
    requires
        is_room_id(room),
    ensures
        route(prefix, text_topic_of(prefix, room)) == Ok::<Seq<char>, RouteError>(room),
{
    let topic = text_topic_of(prefix, room);
    let chosen = addressed_by(prefix, topic)->0;
    lemma_text_topic_injective(prefix, room, chosen);
}

/// No two rooms share a topic.
pub proof fn law_topics_tell_rooms_apart(prefix: Seq<char>, a: Seq<char>, b: Seq<char>)
    requires
        a != b,
    ensures
        room_topic_of(prefix, a) != room_topic_of(prefix, b),
        text_topic_of(prefix, a) != text_topic_of(prefix, b),
{
    lemma_text_topic_injective(prefix, a, b);
}

/// The bridge does not hear itself: what it publishes for one room is never on the topic that
/// takes the text for any room.
pub proof fn law_no_echo(prefix: Seq<char>, published: Seq<char>, subscribed: Seq<char>)
    requires
        is_room_id(published),
        is_room_id(subscribed),
    ensures
        room_topic_of(prefix, published) != text_topic_of(prefix, subscribed),
{
    if room_topic_of(prefix, published) == text_topic_of(prefix, subscribed) {
        reveal_strlit("/send/text");
        let n = prefix.len() as int + 1;
        assert(room_topic_of(prefix, published).skip(n) =~= published);
        assert(text_topic_of(prefix, subscribed).skip(n) =~= subscribed + "/send/text"@);
        published.index_of_first_ensures(':');
        subscribed.index_of_first_ensures(':');
        let i = published.index_of_first(':')->0;
        let j = subscribed.index_of_first(':')->0;
        assert(published[j] == ':');
        assert(i <= j);
        if i < j {
            assert(published[i] == subscribed[i]);
        }
        let k = subscribed.len() as int;
        assert(published[k] == '/');
        assert(server_name_of(published)[k - i - 1] == '/');
        law_server_name_is_one_word(server_name_of(published));
    }
}

/// The levels of a topic, joined by slashes, are the topic.
pub proof fn law_levels_join_to_topic(topic: Seq<char>)
    ensures
        joined(levels(topic)) == topic,
    decreases topic.len(),
{
    if topic.len() > 0 {
        let init = topic.drop_last();
        law_levels_join_to_topic(init);
        lemma_levels_nonempty(init);
        let before = levels(init);
        if topic.last() == '/' {
            assert(levels(topic).drop_last() =~= before);
            assert(joined(levels(topic)) =~= topic);
        } else {
            let all = levels(topic);
            assert(all.drop_last() =~= before.drop_last());
            assert(all.last() == before.last().push(topic.last()));
            assert(init.push(topic.last()) =~= topic);
            if before.len() == 1 {
                assert(joined(all) == before[0].push(topic.last()));
            } else {
                assert(joined(all) =~= joined(before).push(topic.last()));
            }
        }
    }
}

/// No level of a topic holds a slash.
pub proof fn law_no_slash_within_a_level(topic: Seq<char>, i: int)
    requires
        0 <= i < levels(topic).len(),
    ensures
        !levels(topic)[i].contains('/'),
    decreases topic.len(),
{
    if topic.len() > 0 {
        let init = topic.drop_last();
        lemma_levels_nonempty(init);
        if i < levels(init).len() {
            law_no_slash_within_a_level(init, i);
        }
    }
}

proof fn lemma_levels_of_plain_text(text: Seq<char>)
    requires
        !text.contains('/'),
    ensures
        levels(text) == seq![text],
    decreases text.len(),
{
    if text.len() > 0 {
        let init = text.drop_last();
        assert forall|i: int| 0 <= i < init.len() implies init[i] != '/' by {
            assert(text[i] == init[i]);
        }
        lemma_levels_of_plain_text(init);
        assert(text[text.len() - 1] != '/');
        assert(init.push(text.last()) =~= text);
        assert(levels(text) =~= seq![text]);
    } else {
        assert(text =~= Seq::empty());
    }
}

/// A slash between two texts parts their levels.
pub proof fn law_levels_of_joined_texts(a: Seq<char>, b: Seq<char>)
    ensures
        levels(a + seq!['/'] + b) == levels(a) + levels(b),
    decreases b.len(),
{
    let whole = a + seq!['/'] + b;
    lemma_levels_nonempty(b);
    if b.len() == 0 {
        assert(whole.drop_last() =~= a);
        assert(levels(whole) =~= levels(a) + levels(b));
    } else {
        let init = b.drop_last();
        law_levels_of_joined_texts(a, init);
        lemma_levels_nonempty(init);
        assert(whole.drop_last() =~= a + seq!['/'] + init);
        assert(levels(whole) =~= levels(a) + levels(b));
    }
}

/// Where neither the prefix nor the room ID holds a slash, the second level of the text topic
/// and of the room topic is the room ID.
pub proof fn law_second_level_is_the_room(prefix: Seq<char>, room: Seq<char>)
    requires
        !prefix.contains('/'),
        !room.contains('/'),
    ensures
        levels(room_topic_of(prefix, room)) == seq![prefix, room],
        levels(text_topic_of(prefix, room)) == seq![prefix, room, "send"@, "text"@],
{
    reveal_strlit("/send/text");
    reveal_strlit("send");
    reveal_strlit("text");
    lemma_levels_of_plain_text(prefix);
    lemma_levels_of_plain_text(room);
    lemma_levels_of_plain_text("send"@);
    lemma_levels_of_plain_text("text"@);
    law_levels_of_joined_texts(prefix, room);
    let topic = room_topic_of(prefix, room);
    assert(levels(topic) =~= seq![prefix, room]);
    law_levels_of_joined_texts(topic, "send"@);
    let longer = topic + seq!['/'] + "send"@;
    law_levels_of_joined_texts(longer, "text"@);
    assert(text_topic_of(prefix, room) =~= longer + seq!['/'] + "text"@);
    assert(levels(text_topic_of(prefix, room)) =~= seq![prefix, room, "send"@, "text"@]);
}

/// Where the prefix holds no slash, and no room ID with a slash stands in the place of the room,
/// the second level of the topic alone decides.
pub proof fn law_second_level_decides(prefix: Seq<char>, topic: Seq<char>)
    requires
        !prefix.contains('/'),
        forall|text: Seq<char>|
            topic == #[trigger] text_topic_of(prefix, text) && id_verdict(text, '!') is Ok
                ==> !text.contains('/'),
    ensures
        route(prefix, topic) == room_by_second_level(second_level_room(topic)),
{
    let addressed = addressed_by(prefix, topic);
    if addressed is Some && id_verdict(addressed->0, '!') is Ok {
        law_second_level_is_the_room(prefix, addressed->0);
    }
}

/// The topic of a room begins with the prefix and a slash, and the rest of it is the room ID. The
/// topic that takes the text for the room goes on with `/send/text`.
pub proof fn law_topics_have_their_form(prefix: Seq<char>, room: Seq<char>)
    ensures
        ({
            let n = prefix.len() as int;
            let events = room_topic_of(prefix, room);
            let texts = text_topic_of(prefix, room);
            &&& events.len() == n + 1 + room.len()
            &&& events.take(n) == prefix
            &&& events[n] == '/'
            &&& events.skip(n + 1) == room
            &&& texts.len() == n + 1 + room.len() + 10
            &&& texts.take(n) == prefix
            &&& texts[n] == '/'
            &&& texts.subrange(n + 1, n + 1 + room.len()) == room
            &&& texts.skip(n + 1 + room.len()) == seq![
                '/',
                's',
                'e',
                'n',
                'd',
                '/',
                't',
                'e',
                'x',
                't',
            ]
        }),
{
    reveal_strlit("/send/text");
    let n = prefix.len() as int;
    let events = room_topic_of(prefix, room);
    let texts = text_topic_of(prefix, room);
    assert(events.take(n) =~= prefix);
    assert(events.skip(n + 1) =~= room);
    assert(texts.take(n) =~= prefix);
    assert(texts.subrange(n + 1, n + 1 + room.len()) =~= room);
    assert(texts.skip(n + 1 + room.len()) =~= "/send/text"@);
}

/// There are as many text topics as rooms, in the order of the rooms, each of the form
/// `<prefix>/<room ID>/send/text`.
pub proof fn law_each_room_has_its_text_topic(prefix: Seq<char>, rooms: Seq<Seq<char>>)
    ensures
        text_topics_of(prefix, rooms).len() == rooms.len(),
        forall|i: int|
            0 <= i < rooms.len() ==> #[trigger] text_topics_of(prefix, rooms)[i] == prefix
                + seq!['/'] + rooms[i] + "/send/text"@,
{
}

/// The text that a topic addresses is what stands between `<prefix>/` and `/send/text`, and a
/// topic of another form addresses none.
pub proof fn law_addressed_text_stands_between(
    prefix: Seq<char>,
    topic: Seq<char>,
    text: Seq<char>,
)
    ensures
        addressed_by(prefix, topic) == Some(text) <==> topic == prefix + seq!['/'] + text
            + "/send/text"@,
{
    if topic == text_topic_of(prefix, text) {
        lemma_text_topic_injective(prefix, text, addressed_by(prefix, topic)->0);
    }
}

/// A text without a slash has one level. Otherwise the second level is what stands between the
/// first slash and the next one, or the end.
pub proof fn law_second_level_stands_between_slashes(
    first: Seq<char>,
    second: Seq<char>,
    rest: Seq<char>,
)
    requires
        !first.contains('/'),
        !second.contains('/'),
        rest.len() == 0 || rest[0] == '/',
    ensures
        levels(first) == seq![first],
        levels(first + seq!['/'] + second + rest).len() >= 2,
        levels(first + seq!['/'] + second + rest)[0] == first,
        levels(first + seq!['/'] + second + rest)[1] == second,
{
    let topic = first + seq!['/'] + second + rest;
    lemma_levels_of_plain_text(first);
    lemma_levels_of_plain_text(second);
    law_levels_of_joined_texts(first, second);
    if rest.len() == 0 {
        assert(topic =~= first + seq!['/'] + second);
    } else {
        let tail = rest.skip(1);
        assert(topic =~= (first + seq!['/'] + second) + seq!['/'] + tail);
        law_levels_of_joined_texts(first + seq!['/'] + second, tail);
    }
}

/// A message on `<prefix>/<room ID>/send/text` is for that room. A message on any other topic is
/// for the room whose ID stands between the first slash and the next one, or the end; it is
/// refused if that is not a room ID, with the reason for it.
pub proof fn law_route_follows_the_topic(
    prefix: Seq<char>,
    room: Seq<char>,
    first: Seq<char>,
    second: Seq<char>,
    rest: Seq<char>,
)
    requires
        is_room_id(room),
        !first.contains('/'),
        !second.contains('/'),
        rest.len() == 0 || rest[0] == '/',
    ensures
        route(prefix, prefix + seq!['/'] + room + "/send/text"@) == Ok::<Seq<char>, RouteError>(
            room,
        ),
        (forall|text: Seq<char>|
            is_room_id(text) ==> first + seq!['/'] + second + rest != #[trigger] (prefix + seq!['/']
                + text) + "/send/text"@) ==> {
            &&& is_room_id(second) ==> route(prefix, first + seq!['/'] + second + rest) == Ok::<
                Seq<char>,
                RouteError,
            >(second)
            &&& id_verdict(second, '!') matches Err(e) ==> route(
                prefix,
                first + seq!['/'] + second + rest,
            ) == Err::<Seq<char>, RouteError>(RouteError::InvalidRoom(e))
        },
{
    law_addressed_text_stands_between(
        prefix,
        prefix + seq!['/'] + room + "/send/text"@,
        room,
    );
    let topic = first + seq!['/'] + second + rest;
    law_second_level_stands_between_slashes(first, second, rest);
    if let Some(text) = addressed_by(prefix, topic) {
        law_addressed_text_stands_between(prefix, topic, text);
        assert(topic == (prefix + seq!['/'] + text) + "/send/text"@);
    }
}

/// A message on a topic without a slash is for no room.
pub proof fn law_topic_without_a_slash_has_no_room(prefix: Seq<char>, topic: Seq<char>)
    requires
        !topic.contains('/'),
    ensures
        route(prefix, topic) == Err::<Seq<char>, RouteError>(RouteError::NoRoom),
{
    lemma_levels_of_plain_text(topic);
    if let Some(text) = addressed_by(prefix, topic) {
        law_addressed_text_stands_between(prefix, topic, text);
        assert(topic[prefix.len() as int] == '/');
    }
}

/// The room that a topic addresses comes first; the second level decides if there is none, and
/// then alone: it names the room, or is refused with its own reason.
pub proof fn law_addressed_room_comes_first(
    addressed: Option<Result<Seq<char>, IdError>>,
    second: Option<Result<Seq<char>, IdError>>,
    room: Seq<char>,
    e: IdError,
)
    ensures
        addressed == Some(Ok::<Seq<char>, IdError>(room)) ==> picked_room(addressed, second) == Ok::<
            Seq<char>,
            RouteError,
        >(room),
        addressed is None || addressed->0 is Err ==> {
            &&& picked_room(addressed, second) == Ok::<Seq<char>, RouteError>(room) <==> second
                == Some(Ok::<Seq<char>, IdError>(room))
            &&& picked_room(addressed, second) == Err::<Seq<char>, RouteError>(
                RouteError::InvalidRoom(e),
            ) <==> second == Some(Err::<Seq<char>, IdError>(e))
            &&& picked_room(addressed, second) == Err::<Seq<char>, RouteError>(RouteError::NoRoom)
                <==> second is None
        },
{
}

/// What a room ID was read as is its text, or the reason why there is none.
pub proof fn law_reading_keeps_the_room(room: RoomId, e: IdError)
    ensures
        reading(Some(Ok(room))) == Some(Ok::<Seq<char>, IdError>(room@)),
        reading(Some(Err(e))) == Some(Err::<Seq<char>, IdError>(e)),
        reading(None) is None,
{
}

} // verus!
