// Decisions of the LMS CometD subscription client. The long-poll session
// itself (HTTP, sleeping, reconnecting) is run by the caller.

use vstd::prelude::*;
use crate::text::{contains_str, contains_text};
use crate::text::{chars_eq_str, push_str, str_chars};
use crate::lms_client::types::LmsError;

verus! {

/// The longest wait between reconnection attempts, in seconds.
pub const MAX_BACKOFF_SECS: u64 = 30;

/// The wait after a failed session: doubled, at most 30 seconds.
pub fn next_backoff_secs(backoff: u64) -> (b: u64)
    ensures
        b == if 2 * backoff < MAX_BACKOFF_SECS {
            2 * backoff
        } else {
            MAX_BACKOFF_SECS as int
        },
{
    if backoff < MAX_BACKOFF_SECS / 2 + 1 && 2 * backoff < MAX_BACKOFF_SECS {
        2 * backoff
    } else {
        MAX_BACKOFF_SECS
    }
}

/// The session's client id from the handshake answer's first message: its
/// `clientId` text, or a parse error when there is none.
pub fn handshake_client_id(client_id: Option<&str>) -> (r: Result<String, LmsError>)
    ensures
        match client_id {
            Some(c) => r matches Ok(s) && s@ == c@,
            None => r matches Err(LmsError::Parse(m)) && m@ == "No clientId in handshake response"@,
        },
{
    match client_id {
        Some(c) => Ok(String::from_str(c)),
        None => Err(LmsError::Parse(String::from_str("No clientId in handshake response"))),
    }
}

/// The channel status updates for a client arrive on: `/<clientId>/status`.
pub fn status_channel(client_id: &str) -> (s: String)
    ensures
        s@ == "/"@ + client_id@ + "/status"@,
{
    let mut s = String::from_str("/");
    push_str(&mut s, client_id);
    push_str(&mut s, "/status");
    s
}

/// What a message of a `/meta/connect` answer means to the session.
#[derive(Debug, Clone, Copy, PartialEq, Eq, Structural)]
pub enum PollMessage {
    /// The server rejected the connection: the session ends with an error.
    Rejected,
    /// A status update for the subscribed player.
    Status,
    /// Nothing to act on.
    Ignore,
}

/// A `/meta/connect` message whose `successful` is false (a missing flag
/// counts as true) is a rejection; a message on a channel containing
/// "/status" other than "/meta/subscribe" is a status update.
pub open spec fn poll_message_spec(channel: Seq<char>, successful: Option<bool>) -> PollMessage {
    if channel == "/meta/connect"@ && successful == Some(false) {
        PollMessage::Rejected
    } else if contains_text(channel, "/status"@) && channel != "/meta/subscribe"@ {
        PollMessage::Status
    } else {
        PollMessage::Ignore
    }
}

/// `channel` is "" when the message has none.
pub fn poll_message(channel: &str, successful: Option<bool>) -> (m: PollMessage)
    ensures
        m == poll_message_spec(channel@, successful),
{
    let cs = str_chars(channel);
    if chars_eq_str(cs.as_slice(), "/meta/connect") && successful == Some(false) {
        return PollMessage::Rejected;
    }
    let has_status = contains_str(channel, "/status");
    if has_status && !chars_eq_str(cs.as_slice(), "/meta/subscribe") {
        PollMessage::Status
    } else {
        PollMessage::Ignore
    }
}

} // verus!
