// The local web UI's control API: which player a request is for and what it
// does. The HTTP routes and the page itself are served by the caller.

use vstd::prelude::*;
use crate::squeeze::codec::{MacAddress, StrmCommand, mac_text};
use crate::squeeze::player::{PlayerState, SqueezePlayer};
use crate::squeeze::cometd::{lemma_mac_text_roundtrip, parse_mac_address, parse_mac_spec};
use crate::text::{chars_eq_str, str_chars};

verus! {

/// `?mac=<MAC>` on a control request (absent: the first known player).
#[derive(Debug, Clone, Default)]
pub struct MacQuery {
    pub mac: Option<String>,
}

/// `?mac=<MAC>&v=<volume>` on a volume request.
#[derive(Debug, Clone, Default)]
pub struct VolumeQuery {
    pub mac: Option<String>,
    pub v: u8,
}

/// The player a request is for: the one it names, else the first known one.
pub fn pick_player(explicit: Option<String>, first_known: Option<String>) -> (r: Option<String>)
    ensures
        r == match explicit {
            Some(m) => Some(m),
            None => first_known,
        },
{
    match explicit {
        Some(m) => Some(m),
        None => first_known,
    }
}

/// A MAC given to the web UI: text that does not read as a MAC (and so
/// reads as all zeros) is refused, unless it is the all-zero MAC itself.
pub open spec fn webui_mac_spec(s: Seq<char>) -> Option<[u8; 6]> {
    let m = parse_mac_spec(s);
    if m == [0u8, 0u8, 0u8, 0u8, 0u8, 0u8] && s != "00:00:00:00:00:00"@ {
        None
    } else {
        Some(m)
    }
}

pub fn parse_webui_mac(s: &str) -> (r: Option<MacAddress>)
    ensures
        match webui_mac_spec(s@) {
            Some(m) => r matches Some(a) && a.0 == m,
            None => r is None,
        },
{
    let m = parse_mac_address(s);
    let zero = m.0[0] == 0 && m.0[1] == 0 && m.0[2] == 0 && m.0[3] == 0 && m.0[4] == 0 && m.0[5] == 0;
    proof {
        if zero {
            assert(m.0@ =~= [0u8, 0u8, 0u8, 0u8, 0u8, 0u8]@);
        }
        if m.0 == [0u8, 0u8, 0u8, 0u8, 0u8, 0u8] {
            assert(m.0[0] == 0);
        }
    }
    let cs = str_chars(s);
    if zero && !chars_eq_str(cs.as_slice(), "00:00:00:00:00:00") {
        return None;
    }
    Some(m)
}

/// Every MAC the server writes is accepted back by the web UI as itself.
pub proof fn lemma_webui_mac_accepts_written(m: [u8; 6])
    ensures
        webui_mac_spec(mac_text(m)) == Some(m),
{
    lemma_mac_text_roundtrip(m);
    if m == [0u8, 0u8, 0u8, 0u8, 0u8, 0u8] {
        reveal_strlit("00:00:00:00:00:00");
        assert(crate::numfmt::hex2(0) =~= seq!['0', '0']);
        assert(mac_text(m) =~= "00:00:00:00:00:00"@);
    }
}

/// The volume a volume request sets: capped at 100.
pub fn requested_volume(q: &VolumeQuery) -> (v: u8)
    ensures
        v == if q.v < 100 {
            q.v
        } else {
            100
        },
{
    if q.v < 100 {
        q.v
    } else {
        100
    }
}

/// The web UI's pause: the player is marked paused whatever its state was;
/// returns the command to send.
pub fn pause_player(player: &mut SqueezePlayer) -> (cmd: StrmCommand)
    ensures
        *final(player) == (SqueezePlayer { state: PlayerState::Paused, ..*old(player) }),
        cmd == StrmCommand::Pause,
{
    player.state = PlayerState::Paused;
    StrmCommand::Pause
}

} // verus!
