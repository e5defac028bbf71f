// Client-side logic for talking to an LMS (Lyrion Music Server): reading its
// answers, naming our tracks and planning the playlist commands. The HTTP
// requests themselves are made by the caller.

pub mod api;
pub mod audio_server;
pub mod cometd_client;
pub mod discovery;
pub mod types;

use vstd::prelude::*;
use crate::numfmt::{decimal_signed, i64_to_decimal, is_digit, parse_unsigned, parse_unsigned_chars};
use crate::text::{find_chars, find_from, lemma_find_from_occurs, occurs_at, push_str, str_chars};

verus! {

// ── Finding our track ids in URLs ───────────────────────────────────────────

/// The ASCII digits at the start of `s`.
pub open spec fn leading_digits(s: Seq<char>) -> Seq<char>
    decreases s.len(),
{
    if s.len() > 0 && is_digit(s[0]) {
        seq![s[0]] + leading_digits(s.skip(1))
    } else {
        Seq::empty()
    }
}

/// The track id after the first occurrence of `pattern` in `s`: the digits
/// that follow it, read as an `i64`.
pub open spec fn extract_id_spec(s: Seq<char>, pattern: Seq<char>) -> Option<i64> {
    match find_from(s, pattern, 0) {
        None => None,
        Some(i) => match parse_unsigned(
            leading_digits(s.skip(i + pattern.len())),
            0x7fff_ffff_ffff_ffff,
        ) {
            Some(v) => Some(v as i64),
            None => None,
        },
    }
}

/// A string of digits is its own leading digits.
pub proof fn lemma_leading_digits_all(d: Seq<char>)
    requires
        crate::numfmt::all_digits(d),
    ensures
        leading_digits(d) == d,
    decreases d.len(),
{
    if d.len() > 0 {
        assert(is_digit(d[0]));
        assert forall|i: int| 0 <= i < d.skip(1).len() implies #[trigger] is_digit(d.skip(1)[i]) by {
            assert(d.skip(1)[i] == d[i + 1]);
        }
        lemma_leading_digits_all(d.skip(1));
        assert(seq![d[0]] + d.skip(1) =~= d);
    }
}

/// Extract a track_id from a string containing our audio server URL pattern.
/// e.g. "http://192.168.1.3:51496/audio/477" with pattern ":51496/audio/" → Some(477)
pub fn extract_id_from_str(s: &str, pattern: &str) -> (r: Option<i64>)
    ensures
        r == extract_id_spec(s@, pattern@),
{
    let sc = str_chars(s);
    let pc = str_chars(pattern);
    let found = find_chars(sc.as_slice(), pc.as_slice());
    proof {
        lemma_find_from_occurs(sc@, pc@, 0);
    }
    let start = match found {
        Some(k) => {
            let slen = sc.len();
            assert(occurs_at(sc@, pc@, k as int));
            assert(k + pc@.len() <= slen);
            k + pc.len()
        },
        None => return None,
    };
    let mut digits: Vec<char> = Vec::new();
    let mut j: usize = start;
    let ghost rest = sc@.skip(start as int);
    while j < sc.len() && '0' <= sc[j] && sc[j] <= '9'
        invariant
            start <= j <= sc@.len(),
            rest == sc@.skip(start as int),
            digits@ + leading_digits(sc@.skip(j as int)) == leading_digits(rest),
        decreases sc@.len() - j,
    {
        assert(sc@.skip(j as int).skip(1) =~= sc@.skip(j + 1));
        assert(digits@.push(sc[j as int]) + leading_digits(sc@.skip(j + 1)) =~= digits@ + leading_digits(
            sc@.skip(j as int),
        ));
        digits.push(sc[j]);
        j = j + 1;
    }
    assert(leading_digits(sc@.skip(j as int)) =~= Seq::<char>::empty());
    assert(digits@ =~= leading_digits(rest));
    match parse_unsigned_chars(digits.as_slice(), 0x7fff_ffff_ffff_ffff) {
        Some(v) => Some(v as i64),
        None => None,
    }
}

/// Where our audio server's URLs carry a track id.
pub const AUDIO_PATH: &'static str = "/audio/";

/// The track id a playlist entry refers to: from its URL if that holds our
/// audio path, else from its title (LMS may show the URL as the title).
pub fn enrichment_track_id(url: Option<&str>, title: &str) -> (r: Option<i64>)
    ensures
        r == match extract_id_spec(
            match url {
                Some(u) => u@,
                None => ""@,
            },
            AUDIO_PATH@,
        ) {
            Some(id) => Some(id),
            None => extract_id_spec(title@, AUDIO_PATH@),
        },
{
    let u = match url {
        Some(u) => u,
        None => "",
    };
    match extract_id_from_str(u, AUDIO_PATH) {
        Some(id) => Some(id),
        None => extract_id_from_str(title, AUDIO_PATH),
    }
}

// ── Enriching playlist entries from our library ─────────────────────────────

/// The text fields a playlist entry takes from our library's record of the
/// track: the title ("Unknown" when the record has none), artist and album
/// (empty when missing) and the bitrate as "<n>kbps".
pub struct EnrichedText {
    pub title: String,
    pub artist: String,
    pub album: String,
    pub bitrate: Option<String>,
}

pub fn enriched_text(
    title: Option<&str>,
    artist: Option<&str>,
    album: Option<&str>,
    bitrate: Option<i64>,
) -> (e: EnrichedText)
    ensures
        e.title@ == match title {
            Some(t) => t@,
            None => "Unknown"@,
        },
        e.artist@ == match artist {
            Some(a) => a@,
            None => Seq::<char>::empty(),
        },
        e.album@ == match album {
            Some(a) => a@,
            None => Seq::<char>::empty(),
        },
        match bitrate {
            Some(b) => e.bitrate matches Some(r) && r@ == decimal_signed(b as int) + "kbps"@,
            None => e.bitrate is None,
        },
{
    let title = match title {
        Some(t) => String::from_str(t),
        None => String::from_str("Unknown"),
    };
    let artist = match artist {
        Some(a) => String::from_str(a),
        None => String::new(),
    };
    let album = match album {
        Some(a) => String::from_str(a),
        None => String::new(),
    };
    let bitrate = match bitrate {
        Some(b) => {
            let mut r = i64_to_decimal(b);
            push_str(&mut r, "kbps");
            Some(r)
        },
        None => None,
    };
    EnrichedText { title, artist, album, bitrate }
}

// ── Track titles for LMS playlists ──────────────────────────────────────────

/// The title LMS shows for one of our tracks: "artist - title" when both are
/// known, the title alone when only it is, else "Track <id>".
pub open spec fn track_title_spec(artist: Seq<char>, title: Seq<char>, track_id: i64) -> Seq<char> {
    if title.len() != 0 && artist.len() != 0 {
        artist + " - "@ + title
    } else if title.len() != 0 {
        title
    } else {
        "Track "@ + decimal_signed(track_id as int)
    }
}

/// `artist` and `title` are empty when the library does not know them (or
/// the track).
pub fn track_title(artist: &str, title: &str, track_id: i64) -> (s: String)
    ensures
        s@ == track_title_spec(artist@, title@, track_id),
{
    if title.unicode_len() != 0 && artist.unicode_len() != 0 {
        let mut s = String::from_str(artist);
        push_str(&mut s, " - ");
        push_str(&mut s, title);
        s
    } else if title.unicode_len() != 0 {
        String::from_str(title)
    } else {
        let mut s = String::from_str("Track ");
        let d = i64_to_decimal(track_id);
        push_str(&mut s, d.as_str());
        s
    }
}

// ── Playlist commands ───────────────────────────────────────────────────────

/// One playlist command sent to LMS while loading tracks.
#[derive(Debug, Clone, Copy, PartialEq, Eq, Structural)]
pub enum PlaylistStep {
    /// `playlist play <url>`: replace the playlist with this track and play it
    Play(i64),
    /// `playlist add <url>`
    Add(i64),
    /// `playlist index <n>`
    Jump(usize),
}

/// The commands that play `track_ids` from `start_index` (after a
/// `playlist clear`): the first track is played directly when playback
/// starts at it, every other track is added, and a later start is jumped to.
pub open spec fn play_plan_spec(track_ids: Seq<i64>, start_index: usize) -> Seq<PlaylistStep> {
    Seq::new(
        track_ids.len(),
        |i: int|
            if i == 0 && start_index == 0 {
                PlaylistStep::Play(track_ids[i])
            } else {
                PlaylistStep::Add(track_ids[i])
            },
    ) + if start_index > 0 {
        seq![PlaylistStep::Jump(start_index)]
    } else {
        Seq::empty()
    }
}

pub fn play_plan(track_ids: &[i64], start_index: usize) -> (plan: Vec<PlaylistStep>)
    ensures
        plan@ == play_plan_spec(track_ids@, start_index),
{
    let mut plan: Vec<PlaylistStep> = Vec::new();
    let mut i: usize = 0;
    while i < track_ids.len()
        invariant
            i <= track_ids@.len(),
            plan@ == play_plan_spec(track_ids@.take(i as int), start_index).take(i as int),
            plan@.len() == i,
        decreases track_ids@.len() - i,
    {
        let step = if i == 0 && start_index == 0 {
            PlaylistStep::Play(track_ids[i])
        } else {
            PlaylistStep::Add(track_ids[i])
        };
        plan.push(step);
        i = i + 1;
        assert(plan@ =~= play_plan_spec(track_ids@.take(i as int), start_index).take(i as int));
    }
    assert(track_ids@.take(i as int) =~= track_ids@);
    if start_index > 0 {
        plan.push(PlaylistStep::Jump(start_index));
    }
    assert(plan@ =~= play_plan_spec(track_ids@, start_index));
    plan
}

} // verus!
