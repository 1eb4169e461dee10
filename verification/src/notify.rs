//! Outbound notification construction: one notification per decoded
//! message, formatted for the destination webhook.
//!
//! The notification text is the message text followed by a link: the
//! message's own permalink when it has one, else one synthesized from the
//! room's url and the message id. The sender line and icon are set exactly
//! when the message has an author.

use vstd::prelude::*;
use vstd::string::StringExecFns;

use crate::message::{Message, MessageView, UserRefView};
use crate::rooms::{Room, RoomView};

verus! {

/// One outbound notification, sent once per relayed message.
pub struct Notification {
    pub text: String,
    pub username: Option<String>,
    pub icon_url: Option<String>,
    pub formatting_enabled: bool,
}

/// The link a notification carries: the message's permalink if present,
/// else one synthesized from the room's url and the message id.
pub open spec fn link_of(m: MessageView, r: RoomView) -> Seq<char> {
    match m.permalink {
        Some(u) => u,
        None => "https://gitter.im/"@ + r.url + "?at="@ + m.id,
    }
}

/// The full notification text for a message in a room.
pub open spec fn note_text_of(m: MessageView, r: RoomView) -> Seq<char> {
    m.text + " <"@ + link_of(m, r) + "|\u{2834}>"@
}

/// The sender line for an authored message: its author's display name and
/// handle.
pub open spec fn username_of(u: UserRefView) -> Seq<char> {
    "\u{1f4f6} \u{2014} "@ + u.display_name + " @"@ + u.username
}

/// Build the notification for `msg` as seen in `room`: text per
/// `note_text_of`, sender line and icon exactly when the message has an
/// author, formatting always enabled.
pub fn build_notification(room: &Room, msg: &Message) -> (n: Notification)
    ensures
        n.text@ == note_text_of(msg@, room@),
        n.formatting_enabled,
        msg@.author matches Some(u) ==> (n.username matches Some(s) && s@ == username_of(u)) && (
        n.icon_url matches Some(icn) && icn@ == u.avatar_url),
        msg@.author is None ==> n.username is None && n.icon_url is None,
{
    let mut text = msg.text.clone();
    text.append(" <");
    match &msg.permalink {
        Some(u) => {
            text.append(u.as_str());
        },
        None => {
            text.append("https://gitter.im/");
            text.append(room.url.as_str());
            text.append("?at=");
            text.append(msg.id.as_str());
        },
    }
    text.append("|\u{2834}>");
    assert(text@ =~= note_text_of(msg@, room@));
    let (username, icon_url) = match &msg.author {
        Some(u) => {
            let mut name = String::from_str("\u{1f4f6} \u{2014} ");
            name.append(u.display_name.as_str());
            name.append(" @");
            name.append(u.username.as_str());
            assert(name@ =~= username_of(u@));
            (Some(name), Some(u.avatar_url.clone()))
        },
        None => (None, None),
    };
    Notification { text, username, icon_url, formatting_enabled: true }
}

} // verus!
