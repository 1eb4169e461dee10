use gitter_relay::framer::FramingError;
use gitter_relay::message::{decode_message, decode_record, DecodeOutcome};

#[test]
fn full_record_decodes_every_field() {
    let frame = b"{\"id\":\"m1\",\"text\":\"hello\",\"html\":\"<p>hello</p>\",\
\"sent\":\"1970-01-01T00:00:01.500Z\",\
\"fromUser\":{\"username\":\"ann\",\"displayName\":\"Ann\",\"avatarUrl\":\"https://a/v.png\"},\
\"url\":\"/ann/room?at=m1\"}";
    let m = decode_message(frame.as_slice()).unwrap();
    assert_eq!(m.id, "m1");
    assert_eq!(m.text, "hello");
    assert_eq!(m.sent_at, Some(1500));
    let author = m.author.unwrap();
    assert_eq!(author.username, "ann");
    assert_eq!(author.display_name, "Ann");
    assert_eq!(author.avatar_url, "https://a/v.png");
    assert_eq!(m.permalink, Some("/ann/room?at=m1".to_string()));
}

#[test]
fn bare_record_decodes_with_optional_fields_absent() {
    let frame = b"{\"id\":\"m2\",\"text\":\"plain\"}";
    let m = decode_message(frame.as_slice()).unwrap();
    assert_eq!(m.id, "m2");
    assert_eq!(m.text, "plain");
    assert_eq!(m.sent_at, None);
    assert!(m.author.is_none());
    assert_eq!(m.permalink, None);
}

#[test]
fn null_author_decodes_as_no_author() {
    let frame = b"{\"id\":\"m3\",\"text\":\"t\",\"fromUser\":null}";
    let m = decode_message(frame.as_slice()).unwrap();
    assert!(m.author.is_none());
}

#[test]
fn unparsable_timestamp_is_dropped() {
    let frame = b"{\"id\":\"m4\",\"text\":\"t\",\"sent\":\"not a time\"}";
    let m = decode_message(frame.as_slice()).unwrap();
    assert_eq!(m.sent_at, None);
}

#[test]
fn record_without_id_is_malformed() {
    let frame = b"{\"text\":\"no id\"}";
    let r = decode_message(frame.as_slice());
    assert!(matches!(r, Err(FramingError::Malformed)));
}

#[test]
fn record_without_text_is_malformed() {
    let frame = b"{\"id\":\"m5\"}";
    let r = decode_message(frame.as_slice());
    assert!(matches!(r, Err(FramingError::Malformed)));
}

#[test]
fn decode_record_reports_bytes_consumed() {
    let one = b"{\"id\":\"m1\",\"text\":\"a\"}";
    let mut buffer = one.to_vec();
    buffer.extend_from_slice(b"{\"id\":\"m2\"");
    match decode_record(&buffer) {
        DecodeOutcome::Complete(m, n) => {
            assert_eq!(n, one.len());
            assert_eq!(m.id, "m1");
            assert_eq!(m.text, "a");
        },
        _ => panic!("expected a complete record"),
    }
}

#[test]
fn decode_record_waits_on_partial_input() {
    let buffer = b"{\"id\":\"m1\",\"te".to_vec();
    assert!(matches!(decode_record(&buffer), DecodeOutcome::Incomplete));
}

#[test]
fn decode_record_rejects_impossible_head() {
    let buffer = b"]]]".to_vec();
    assert!(matches!(decode_record(&buffer), DecodeOutcome::Malformed));
}

#[test]
fn complete_but_undecodable_record_is_malformed() {
    let buffer = b"{\"note\":\"complete json, but no id or text\"}".to_vec();
    assert!(matches!(decode_record(&buffer), DecodeOutcome::Malformed));
}
