use gitter_relay::framer::{FramingError, StreamFramer};

#[test]
fn single_record_in_one_chunk() {
    let mut framer = StreamFramer::new();
    let chunk = b"{\"id\":\"m1\",\"text\":\"hi\"}";
    let recs = framer.feed(chunk.as_slice()).unwrap();
    assert_eq!(recs.len(), 1);
    assert_eq!(recs[0], chunk.to_vec());
}

#[test]
fn two_records_in_one_chunk() {
    let mut framer = StreamFramer::new();
    let a = b"{\"id\":\"m1\",\"text\":\"one\"}".to_vec();
    let b = b"{\"id\":\"m2\",\"text\":\"two\"}".to_vec();
    let mut chunk = a.clone();
    chunk.extend_from_slice(&b);
    let recs = framer.feed(&chunk).unwrap();
    assert_eq!(recs.len(), 2);
    assert_eq!(recs[0], a);
    assert_eq!(recs[1], b);
}

#[test]
fn record_split_across_many_chunks() {
    let mut framer = StreamFramer::new();
    let encoded = b"{\"id\":\"m1\",\"text\":\"split me\"}";
    for i in 0..encoded.len() - 1 {
        let recs = framer.feed(&encoded[i..i + 1]).unwrap();
        assert_eq!(recs.len(), 0);
    }
    let recs = framer.feed(&encoded[encoded.len() - 1..]).unwrap();
    assert_eq!(recs.len(), 1);
    assert_eq!(recs[0], encoded.to_vec());
}

#[test]
fn prefix_is_retained_then_completed() {
    let mut framer = StreamFramer::new();
    let recs = framer.feed(b"{\"id\":\"m1\",".as_slice()).unwrap();
    assert_eq!(recs.len(), 0);
    let recs = framer.feed(b"\"text\":\"rest\"}".as_slice()).unwrap();
    assert_eq!(recs.len(), 1);
    assert_eq!(recs[0], b"{\"id\":\"m1\",\"text\":\"rest\"}".to_vec());
}

#[test]
fn malformed_head_fails_instead_of_waiting() {
    let mut framer = StreamFramer::new();
    let r = framer.feed(b"]]]".as_slice());
    assert_eq!(r, Err(FramingError::Malformed));
}

#[test]
fn mismatched_brackets_fail() {
    let mut framer = StreamFramer::new();
    let r = framer.feed(b"{\"a\":[1,2}".as_slice());
    assert_eq!(r, Err(FramingError::Malformed));
}

#[test]
fn whitespace_keepalive_yields_nothing() {
    let mut framer = StreamFramer::new();
    let recs = framer.feed(b" \r\n ".as_slice()).unwrap();
    assert_eq!(recs.len(), 0);
    let recs = framer.feed(b" {\"id\":\"m1\"}".as_slice()).unwrap();
    assert_eq!(recs.len(), 1);
    assert_eq!(recs[0], b" \r\n  {\"id\":\"m1\"}".to_vec());
}

#[test]
fn braces_inside_strings_do_not_frame() {
    let mut framer = StreamFramer::new();
    let encoded = b"{\"text\":\"}{\\\"inner\\\"}\"}";
    let recs = framer.feed(encoded.as_slice()).unwrap();
    assert_eq!(recs.len(), 1);
    assert_eq!(recs[0], encoded.to_vec());
}

#[test]
fn record_followed_by_partial_is_kept_pending() {
    let mut framer = StreamFramer::new();
    let recs = framer.feed(b"{\"id\":\"m1\"}{\"id\":".as_slice()).unwrap();
    assert_eq!(recs.len(), 1);
    assert_eq!(recs[0], b"{\"id\":\"m1\"}".to_vec());
    let recs = framer.feed(b"\"m2\"}".as_slice()).unwrap();
    assert_eq!(recs.len(), 1);
    assert_eq!(recs[0], b"{\"id\":\"m2\"}".to_vec());
}
