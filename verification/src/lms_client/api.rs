// The LMS JSON-RPC API: what the client sends and how it reads the answers.
//
// The requests travel over HTTP, made by the caller. An answer is JSON; the
// caller hands over the fields read here as plain values (a string field as
// its text, a numeric field as its `as_i64` / `as_u64` and its text).

use vstd::prelude::*;
use crate::lms_client::types::{LmsPlayer, PlayMode, RepeatMode, ShuffleMode};
use crate::numfmt::{
    decimal, decimal_signed, i64_to_decimal, parse_i64_text, parse_signed, parse_unsigned,
    parse_unsigned_chars, u64_to_decimal,
};
use crate::text::{push_str, str_chars};

verus! {

/// The base URL of an LMS server: `http://<host>:<port>`.
pub fn base_url(host: &str, port: u16) -> (s: String)
    ensures
        s@ == "http://"@ + host@ + ":"@ + decimal(port as nat),
{
    let mut s = String::from_str("http://");
    push_str(&mut s, host);
    push_str(&mut s, ":");
    let p = u64_to_decimal(port as u64);
    push_str(&mut s, p.as_str());
    s
}

/// Get artwork URL for a track: `<base>/music/<id>/cover.jpg`.
pub fn artwork_url(base_url: &str, track_id: i64) -> (s: String)
    ensures
        s@ == base_url@ + "/music/"@ + decimal_signed(track_id as int) + "/cover.jpg"@,
{
    let mut s = String::from_str(base_url);
    push_str(&mut s, "/music/");
    let d = i64_to_decimal(track_id);
    push_str(&mut s, d.as_str());
    push_str(&mut s, "/cover.jpg");
    s
}

/// The argument of `mixer volume`: the volume capped at 100, in decimal.
pub fn volume_arg(volume: u8) -> (s: String)
    ensures
        s@ == decimal(if volume < 100 {
            volume as nat
        } else {
            100
        }),
{
    let v: u8 = if volume < 100 {
        volume
    } else {
        100
    };
    u64_to_decimal(v as u64)
}

/// The fields of one `players_loop` entry (each `None` when absent or of
/// another JSON type).
pub struct PlayerFields {
    pub player_id: Option<String>,
    pub name: Option<String>,
    pub model: Option<String>,
    pub connected: Option<i64>,
    pub power: Option<i64>,
    pub is_playing: Option<i64>,
}

pub open spec fn text_or(o: Option<String>, d: Seq<char>) -> Seq<char> {
    match o {
        Some(s) => s@,
        None => d,
    }
}

pub open spec fn flag_set(o: Option<i64>) -> bool {
    o == Some(1i64)
}

fn owned_or(o: &Option<String>, d: &str) -> (s: String)
    ensures
        s@ == text_or(*o, d@),
{
    match o {
        Some(t) => t.clone(),
        None => String::from_str(d),
    }
}

/// A player from a `serverstatus` entry: it needs a player id; the name
/// defaults to "Unknown", the model to "", and a flag is set only at 1.
pub fn parse_player(f: &PlayerFields) -> (r: Option<LmsPlayer>)
    ensures
        match f.player_id {
            None => r is None,
            Some(id) => r matches Some(p) && p.player_id@ == id@ && p.name@ == text_or(
                f.name,
                "Unknown"@,
            ) && p.model@ == text_or(f.model, ""@) && p.connected == flag_set(f.connected)
                && p.power == flag_set(f.power) && p.is_playing == flag_set(f.is_playing),
        },
{
    let player_id = match &f.player_id {
        Some(id) => id.clone(),
        None => return None,
    };
    Some(
        LmsPlayer {
            player_id,
            name: owned_or(&f.name, "Unknown"),
            model: owned_or(&f.model, ""),
            connected: f.connected == Some(1i64),
            power: f.power == Some(1i64),
            is_playing: f.is_playing == Some(1i64),
        },
    )
}

/// The play mode of a status `mode` field: "play", "pause", else stopped.
pub open spec fn play_mode_spec(mode: Seq<char>) -> PlayMode {
    if mode == "play"@ {
        PlayMode::Playing
    } else if mode == "pause"@ {
        PlayMode::Paused
    } else {
        PlayMode::Stopped
    }
}

/// `mode` is `None` when the field is absent (read as "stop").
pub fn play_mode_of(mode: Option<&str>) -> (m: PlayMode)
    ensures
        m == match mode {
            Some(s) => play_mode_spec(s@),
            None => PlayMode::Stopped,
        },
{
    let s = match mode {
        Some(s) => str_chars(s),
        None => return PlayMode::Stopped,
    };
    if crate::text::chars_eq_str(s.as_slice(), "play") {
        PlayMode::Playing
    } else if crate::text::chars_eq_str(s.as_slice(), "pause") {
        PlayMode::Paused
    } else {
        PlayMode::Stopped
    }
}

/// `playlist repeat`: 1 one, 2 all, anything else (or absent) off.
pub fn repeat_mode_of(v: Option<i64>) -> (m: RepeatMode)
    ensures
        m == match v {
            Some(1i64) => RepeatMode::One,
            Some(2i64) => RepeatMode::All,
            _ => RepeatMode::Off,
        },
{
    match v {
        Some(1i64) => RepeatMode::One,
        Some(2i64) => RepeatMode::All,
        _ => RepeatMode::Off,
    }
}

/// `playlist shuffle`: 1 songs, 2 albums, anything else (or absent) off.
pub fn shuffle_mode_of(v: Option<i64>) -> (m: ShuffleMode)
    ensures
        m == match v {
            Some(1i64) => ShuffleMode::Songs,
            Some(2i64) => ShuffleMode::Albums,
            _ => ShuffleMode::Off,
        },
{
    match v {
        Some(1i64) => ShuffleMode::Songs,
        Some(2i64) => ShuffleMode::Albums,
        _ => ShuffleMode::Off,
    }
}

/// The `playlist_cur_index` field: a number (with its `as_u64`), a string,
/// or another JSON value.
pub enum IndexField {
    Number(Option<u64>),
    Text(String),
    Other,
}

/// Which playlist entry a status shows as current: the named position when
/// the playlist reaches it, else none.
pub fn current_entry_index(playlist_len: usize, playlist_index: usize) -> (r: Option<usize>)
    ensures
        r == if playlist_index < playlist_len {
            Some(playlist_index)
        } else {
            None::<usize>
        },
{
    if playlist_index < playlist_len {
        Some(playlist_index)
    } else {
        None
    }
}

/// The playlist position a status names: a number as is (0 when it is not
/// an unsigned integer), a string parsed as `usize` (0 when it does not
/// parse), 0 for anything else or when absent.
pub fn playlist_index_of(f: &Option<IndexField>) -> (i: usize)
    ensures
        i == match f {
            Some(IndexField::Number(n)) => match n {
                Some(v) => *v as usize,
                None => 0usize,
            },
            Some(IndexField::Text(s)) => match parse_unsigned(s@, usize::MAX as nat) {
                Some(v) => v as usize,
                None => 0usize,
            },
            _ => 0usize,
        },
{
    match f {
        Some(IndexField::Number(n)) => match n {
            Some(v) => *v as usize,
            None => 0,
        },
        Some(IndexField::Text(s)) => {
            let cs = str_chars(s.as_str());
            match parse_unsigned_chars(cs.as_slice(), usize::MAX as u64) {
                Some(v) => v as usize,
                None => 0,
            }
        },
        _ => 0,
    }
}

/// A numeric field that may also come as a string: its `as_i64` and, when
/// it is a string, its text.
pub struct IntField {
    pub as_i64: Option<i64>,
    pub text: Option<String>,
}

/// The field's integer: `as_i64`, else its text parsed as `i64`.
pub open spec fn int_field_spec(f: Option<IntField>) -> Option<i64> {
    match f {
        None => None,
        Some(f) => match f.as_i64 {
            Some(v) => Some(v),
            None => match f.text {
                Some(t) => match parse_signed(t@, i64::MIN as int, i64::MAX as int) {
                    Some(v) => Some(v as i64),
                    None => None,
                },
                None => None,
            },
        },
    }
}

pub fn int_field(f: &Option<IntField>) -> (r: Option<i64>)
    ensures
        r == int_field_spec(*f),
{
    match f {
        None => None,
        Some(f) => match f.as_i64 {
            Some(v) => Some(v),
            None => match &f.text {
                Some(t) => parse_i64_text(t.as_str()),
                None => None,
            },
        },
    }
}

/// `mixer volume`: the field's integer clamped to 0..=100 (0 when absent).
pub fn volume_of(f: &Option<IntField>) -> (v: u8)
    ensures
        v == match int_field_spec(*f) {
            Some(x) => if x < 0 {
                0u8
            } else if x > 100 {
                100u8
            } else {
                x as u8
            },
            None => 0u8,
        },
{
    match int_field(f) {
        Some(x) => {
            if x < 0 {
                0
            } else if x > 100 {
                100
            } else {
                x as u8
            }
        },
        None => 0,
    }
}

/// `playlist_tracks`: the field's integer as `usize` (0 when absent).
pub fn playlist_tracks_of(f: &Option<IntField>) -> (n: usize)
    ensures
        n == match int_field_spec(*f) {
            Some(x) => x as usize,
            None => 0usize,
        },
{
    match int_field(f) {
        Some(x) => x as usize,
        None => 0,
    }
}

/// A playlist entry's `id` (-1 when absent).
pub fn track_id_of(f: &Option<IntField>) -> (id: i64)
    ensures
        id == match int_field_spec(*f) {
            Some(x) => x,
            None => -1i64,
        },
{
    match int_field(f) {
        Some(x) => x,
        None => -1,
    }
}

} // verus!
