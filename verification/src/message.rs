//! Decoded message records.
//!
//! A complete record (as delimited by the framer) is a JSON object; the
//! fields the relay reads are its `id`, `text`, optional `sent` timestamp,
//! optional `fromUser` object, and optional `url` permalink. Field lookup in
//! a complete record and timestamp parsing are done by outside crates behind
//! trusted wrappers; what they return is named by uninterpreted spec
//! functions, and the decoder's contract is exact over those names.

use vstd::prelude::*;

use crate::codec::{init_state, lemma_scan_complete_range, scan, scan_record, ScanOutcome, ScanRes};
use crate::framer::FramingError;

verus! {

/// The string value of a top-level field of the JSON record `s`, if `s`
/// parses as an object with a string at `key`.
pub uninterp spec fn json_str_field(s: Seq<u8>, key: Seq<char>) -> Option<Seq<char>>;

/// The string value of `sub` inside the object at `key` of the JSON record
/// `s`, if present.
pub uninterp spec fn json_nested_str_field(s: Seq<u8>, key: Seq<char>, sub: Seq<char>) -> Option<
    Seq<char>,
>;

/// The epoch milliseconds denoted by an RFC 3339 timestamp, if `s` is one.
pub uninterp spec fn timestamp_of(s: Seq<char>) -> Option<i64>;

/// Relies on serde_json: `from_slice` to parse the record into a
/// `serde_json::Value`, and `Value::get` / `Value::as_str` to look up a
/// top-level string field. The result is a function of the bytes and the key
/// alone, named `json_str_field`.
#[verifier::external_body]
fn get_str_field(frame: &[u8], key: &str) -> (r: Option<String>)
    ensures
        r is Some <==> json_str_field(frame@, key@) is Some,
        r matches Some(v) ==> json_str_field(frame@, key@) == Some(v@),
{
    let v: serde_json::Value = match serde_json::from_slice(frame) {
        Ok(v) => v,
        Err(_) => return None,
    };
    match v.get(key) {
        Some(f) => f.as_str().map(|s| s.to_string()),
        None => None,
    }
}

/// Relies on serde_json: as `get_str_field`, but looking up a string field
/// `sub` of the object held by the top-level field `key`. The result is a
/// function of the bytes and the keys alone, named `json_nested_str_field`.
#[verifier::external_body]
fn get_nested_str_field(frame: &[u8], key: &str, sub: &str) -> (r: Option<String>)
    ensures
        r is Some <==> json_nested_str_field(frame@, key@, sub@) is Some,
        r matches Some(v) ==> json_nested_str_field(frame@, key@, sub@) == Some(v@),
{
    let v: serde_json::Value = match serde_json::from_slice(frame) {
        Ok(v) => v,
        Err(_) => return None,
    };
    match v.get(key) {
        Some(o) => match o.get(sub) {
            Some(f) => f.as_str().map(|s| s.to_string()),
            None => None,
        },
        None => None,
    }
}

/// Relies on chrono's `DateTime::parse_from_rfc3339` and
/// `timestamp_millis`: the result depends on the characters alone, and is
/// named `timestamp_of`.
#[verifier::external_body]
fn parse_timestamp(s: &str) -> (r: Option<i64>)
    ensures
        r == timestamp_of(s@),
{
    match chrono::DateTime::parse_from_rfc3339(s) {
        Ok(t) => Some(t.timestamp_millis()),
        Err(_) => None,
    }
}

/// The author of a message, embedded by value.
pub struct UserRef {
    pub username: String,
    pub display_name: String,
    pub avatar_url: String,
}

/// Mathematical model of `UserRef`.
pub struct UserRefView {
    pub username: Seq<char>,
    pub display_name: Seq<char>,
    pub avatar_url: Seq<char>,
}

impl View for UserRef {
    type V = UserRefView;

    open spec fn view(&self) -> UserRefView {
        UserRefView {
            username: self.username@,
            display_name: self.display_name@,
            avatar_url: self.avatar_url@,
        }
    }
}

impl DeepView for UserRef {
    type V = UserRefView;

    open spec fn deep_view(&self) -> UserRefView {
        self.view()
    }
}

/// One decoded message record.
pub struct Message {
    pub id: String,
    pub text: String,
    pub sent_at: Option<i64>,
    pub author: Option<UserRef>,
    pub permalink: Option<String>,
}

/// Mathematical model of `Message`.
pub struct MessageView {
    pub id: Seq<char>,
    pub text: Seq<char>,
    pub sent_at: Option<i64>,
    pub author: Option<UserRefView>,
    pub permalink: Option<Seq<char>>,
}

impl View for Message {
    type V = MessageView;

    open spec fn view(&self) -> MessageView {
        MessageView {
            id: self.id@,
            text: self.text@,
            sent_at: self.sent_at,
            author: match self.author {
                Some(u) => Some(u@),
                None => None,
            },
            permalink: match self.permalink {
                Some(p) => Some(p@),
                None => None,
            },
        }
    }
}

impl DeepView for Message {
    type V = MessageView;

    open spec fn deep_view(&self) -> MessageView {
        self.view()
    }
}

/// The author carried by record `s`: present exactly when all three fields
/// of its `fromUser` object are present as strings.
pub open spec fn author_of(s: Seq<u8>) -> Option<UserRefView> {
    match (
        json_nested_str_field(s, "fromUser"@, "username"@),
        json_nested_str_field(s, "fromUser"@, "displayName"@),
        json_nested_str_field(s, "fromUser"@, "avatarUrl"@),
    ) {
        (Some(u), Some(d), Some(a)) => Some(
            UserRefView { username: u, display_name: d, avatar_url: a },
        ),
        _ => None,
    }
}

/// The message denoted by record `s`: present exactly when `s` has string
/// fields `id` and `text`.
pub open spec fn msg_of(s: Seq<u8>) -> Option<MessageView> {
    match (json_str_field(s, "id"@), json_str_field(s, "text"@)) {
        (Some(id), Some(text)) => Some(
            MessageView {
                id,
                text,
                sent_at: match json_str_field(s, "sent"@) {
                    Some(t) => timestamp_of(t),
                    None => None,
                },
                author: author_of(s),
                permalink: json_str_field(s, "url"@),
            },
        ),
        _ => None,
    }
}

/// Decode one complete record into a `Message`. Succeeds exactly when the
/// record carries string fields `id` and `text`; a complete record that does
/// not is a framing failure, since no further bytes can mend it.
pub fn decode_message(frame: &[u8]) -> (r: Result<Message, FramingError>)
    ensures
        r is Ok <==> msg_of(frame@) is Some,
        r matches Ok(m) ==> msg_of(frame@) == Some(m@),
        r matches Err(e) ==> e == FramingError::Malformed,
{
    let id = match get_str_field(frame, "id") {
        Some(v) => v,
        None => return Err(FramingError::Malformed),
    };
    let text = match get_str_field(frame, "text") {
        Some(v) => v,
        None => return Err(FramingError::Malformed),
    };
    let sent_at = match get_str_field(frame, "sent") {
        Some(t) => parse_timestamp(t.as_str()),
        None => None,
    };
    let author = match (
        get_nested_str_field(frame, "fromUser", "username"),
        get_nested_str_field(frame, "fromUser", "displayName"),
        get_nested_str_field(frame, "fromUser", "avatarUrl"),
    ) {
        (Some(u), Some(d), Some(a)) => Some(
            UserRef { username: u, display_name: d, avatar_url: a },
        ),
        _ => None,
    };
    let permalink = get_str_field(frame, "url");
    Ok(Message { id, text, sent_at, author, permalink })
}

/// Outcome of attempting to extract one record from the front of a buffer.
pub enum DecodeOutcome {
    /// The leading bytes are one record that decodes to this message; the
    /// count says how many leading bytes it occupied, so the caller can
    /// splice them off.
    Complete(Message, usize),
    /// Not enough bytes yet for one record: retain the buffer and wait.
    Incomplete,
    /// The buffer's head can never be a decodable record.
    Malformed,
}

/// Attempt to extract one complete message from the front of `buffer`,
/// reporting how many leading bytes it occupied. Pure in its input: the
/// buffer is not changed, and the same buffer decodes the same way again.
pub fn decode_record(buffer: &Vec<u8>) -> (r: DecodeOutcome)
    ensures
        match r {
            DecodeOutcome::Complete(m, n) => scan(buffer@) == ScanRes::Complete(n as int)
                && msg_of(buffer@.take(n as int)) == Some(m@),
            DecodeOutcome::Incomplete => scan(buffer@) is Incomplete,
            DecodeOutcome::Malformed => scan(buffer@) == ScanRes::Malformed || (scan(buffer@)
                matches ScanRes::Complete(n) && msg_of(buffer@.take(n)) is None),
        },
{
    match scan_record(buffer) {
        ScanOutcome::Complete(n) => {
            proof {
                lemma_scan_complete_range(buffer@, 0, init_state(), n as int);
            }
            let head = vstd::slice::slice_subrange(buffer.as_slice(), 0, n);
            assert(head@ =~= buffer@.take(n as int));
            match decode_message(head) {
                Ok(m) => DecodeOutcome::Complete(m, n),
                Err(_) => DecodeOutcome::Malformed,
            }
        },
        ScanOutcome::Incomplete => DecodeOutcome::Incomplete,
        ScanOutcome::Malformed => DecodeOutcome::Malformed,
    }
}

} // verus!
