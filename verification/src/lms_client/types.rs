// Data types shared by the LMS (Lyrion Music Server) client.

use vstd::prelude::*;
use crate::text::push_str;

verus! {

/// An LMS server found on the network or connected to.
#[derive(Debug, Clone)]
pub struct LmsServer {
    pub name: String,
    pub host: String,
    pub json_port: u16,
    pub uuid: String,
}

pub struct LmsServerModel {
    pub name: Seq<char>,
    pub host: Seq<char>,
    pub json_port: u16,
    pub uuid: Seq<char>,
}

impl View for LmsServer {
    type V = LmsServerModel;

    open spec fn view(&self) -> LmsServerModel {
        LmsServerModel {
            name: self.name@,
            host: self.host@,
            json_port: self.json_port,
            uuid: self.uuid@,
        }
    }
}

/// A player known to an LMS server.
#[derive(Debug, Clone)]
pub struct LmsPlayer {
    pub player_id: String,
    pub name: String,
    pub model: String,
    pub connected: bool,
    pub power: bool,
    pub is_playing: bool,
}

#[derive(Debug, Clone, Copy, PartialEq, Eq, Structural)]
pub enum PlayMode {
    Playing,
    Paused,
    Stopped,
}

#[derive(Debug, Clone, Copy, PartialEq, Eq, Structural)]
pub enum RepeatMode {
    Off,
    One,
    All,
}

#[derive(Debug, Clone, Copy, PartialEq, Eq, Structural)]
pub enum ShuffleMode {
    Off,
    Songs,
    Albums,
}

/// Errors of the LMS client.
#[derive(Debug)]
pub enum LmsError {
    Network(String),
    Parse(String),
    NotConnected,
    PlayerNotFound(String),
}

/// The text an error is shown as.
pub open spec fn lms_error_text(e: LmsError) -> Seq<char> {
    match e {
        LmsError::Network(s) => "Network error: "@ + s@,
        LmsError::Parse(s) => "JSON parse error: "@ + s@,
        LmsError::NotConnected => "Not connected to LMS server"@,
        LmsError::PlayerNotFound(s) => "Player not found: "@ + s@,
    }
}

impl LmsError {
    /// The error as text (what `to_string` shows).
    pub fn message(&self) -> (s: String)
        ensures
            s@ == lms_error_text(*self),
    {
        match self {
            LmsError::Network(d) => {
                let mut s = String::from_str("Network error: ");
                push_str(&mut s, d.as_str());
                s
            },
            LmsError::Parse(d) => {
                let mut s = String::from_str("JSON parse error: ");
                push_str(&mut s, d.as_str());
                s
            },
            LmsError::NotConnected => String::from_str("Not connected to LMS server"),
            LmsError::PlayerNotFound(d) => {
                let mut s = String::from_str("Player not found: ");
                push_str(&mut s, d.as_str());
                s
            },
        }
    }
}

} // verus!
