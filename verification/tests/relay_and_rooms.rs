use gitter_relay::message::{Message, UserRef};
use gitter_relay::notify::build_notification;
use gitter_relay::relay::{relay_step, RelayAction, RelayEvent, RelayState, SessionOutcome};
use gitter_relay::rooms::{find_room, Room};
use gitter_relay::session::{check_stream_status, Session, StreamError};

fn room(id: &str, name: &str, url: &str) -> Room {
    Room { id: id.to_string(), name: name.to_string(), url: url.to_string() }
}

fn plain_message(id: &str, text: &str) -> Message {
    Message {
        id: id.to_string(),
        text: text.to_string(),
        sent_at: None,
        author: None,
        permalink: None,
    }
}

#[test]
fn resolving_a_listed_room_finds_its_id() {
    let rooms = vec![room("r1", "general", "/g"), room("r2", "random", "/r")];
    let i = find_room(&rooms, &"random".to_string()).unwrap();
    assert_eq!(i, 1);
    assert_eq!(rooms[i].id, "r2");
}

#[test]
fn resolving_a_missing_room_fails() {
    let rooms = vec![room("r1", "general", "/g"), room("r2", "random", "/r")];
    assert!(find_room(&rooms, &"missing".to_string()).is_none());
}

#[test]
fn notification_synthesizes_link_without_permalink_or_author() {
    let r = room("r9", "room", "https://x/room");
    let m = plain_message("m1", "hello");
    let n = build_notification(&r, &m);
    assert_eq!(n.text, "hello <https://gitter.im/https://x/room?at=m1|\u{2834}>");
    assert!(n.text.ends_with("https://gitter.im/https://x/room?at=m1|\u{2834}>"));
    assert!(n.username.is_none());
    assert!(n.icon_url.is_none());
    assert!(n.formatting_enabled);
}

#[test]
fn notification_prefers_the_message_permalink() {
    let r = room("r9", "room", "/room");
    let mut m = plain_message("m1", "hi");
    m.permalink = Some("https://chat/m1".to_string());
    let n = build_notification(&r, &m);
    assert_eq!(n.text, "hi <https://chat/m1|\u{2834}>");
}

#[test]
fn notification_carries_author_name_and_icon() {
    let r = room("r9", "room", "/room");
    let mut m = plain_message("m1", "hi");
    m.author = Some(UserRef {
        username: "ann".to_string(),
        display_name: "Ann".to_string(),
        avatar_url: "https://a/v.png".to_string(),
    });
    let n = build_notification(&r, &m);
    assert_eq!(n.username, Some("\u{1f4f6} \u{2014} Ann @ann".to_string()));
    assert_eq!(n.icon_url, Some("https://a/v.png".to_string()));
}

#[test]
fn session_yields_messages_in_order() {
    let mut s = Session::new();
    let chunk = b"{\"id\":\"m1\",\"text\":\"one\"}{\"id\":\"m2\",\"text\":\"two\"}{\"id\":";
    let msgs = s.on_chunk(chunk.as_slice()).unwrap();
    assert_eq!(msgs.len(), 2);
    assert_eq!(msgs[0].id, "m1");
    assert_eq!(msgs[0].text, "one");
    assert_eq!(msgs[1].id, "m2");
    assert_eq!(msgs[1].text, "two");
    let msgs = s.on_chunk(b"\"m3\",\"text\":\"three\"}".as_slice()).unwrap();
    assert_eq!(msgs.len(), 1);
    assert_eq!(msgs[0].id, "m3");
}

#[test]
fn session_fails_on_unframable_bytes() {
    let mut s = Session::new();
    let r = s.on_chunk(b"]]]".as_slice());
    assert!(matches!(r, Err(StreamError::Framing)));
}

#[test]
fn connection_status_gates_the_stream() {
    assert!(check_stream_status(200).is_ok());
    assert!(check_stream_status(204).is_ok());
    assert_eq!(check_stream_status(401), Err(StreamError::Api(401)));
    assert_eq!(check_stream_status(500), Err(StreamError::Api(500)));
}

#[test]
fn clean_end_reconnects_without_exiting() {
    let (st, act) = relay_step(
        RelayState::Streaming,
        RelayEvent::SessionEnded(SessionOutcome::CleanEnd),
    );
    assert_eq!(st, RelayState::Streaming);
    assert_eq!(act, RelayAction::OpenSession);
}

#[test]
fn transport_failure_mid_stream_reconnects() {
    let (st, act) = relay_step(
        RelayState::Streaming,
        RelayEvent::SessionEnded(SessionOutcome::TransportFailed),
    );
    assert_eq!(st, RelayState::Streaming);
    assert_eq!(act, RelayAction::OpenSession);
}

#[test]
fn framing_failure_mid_stream_reconnects() {
    let (st, act) = relay_step(
        RelayState::Streaming,
        RelayEvent::SessionEnded(SessionOutcome::FramingFailed),
    );
    assert_eq!(st, RelayState::Streaming);
    assert_eq!(act, RelayAction::OpenSession);
}

#[test]
fn startup_room_listing_failure_exits() {
    let (st, act) = relay_step(RelayState::Resolving, RelayEvent::RoomListFailed);
    assert_eq!(st, RelayState::Stopped);
    assert_eq!(act, RelayAction::Exit);
}

#[test]
fn startup_missing_room_exits() {
    let (st, act) = relay_step(RelayState::Resolving, RelayEvent::RoomMissing);
    assert_eq!(st, RelayState::Stopped);
    assert_eq!(act, RelayAction::Exit);
}

#[test]
fn resolved_room_opens_the_first_session() {
    let (st, act) = relay_step(RelayState::Resolving, RelayEvent::RoomFound);
    assert_eq!(st, RelayState::Streaming);
    assert_eq!(act, RelayAction::OpenSession);
}

#[test]
fn encode_failure_is_fatal() {
    let (st, act) = relay_step(
        RelayState::Streaming,
        RelayEvent::SessionEnded(SessionOutcome::EncodeFailed),
    );
    assert_eq!(st, RelayState::Stopped);
    assert_eq!(act, RelayAction::Exit);
}
