// SlimProto connection logic: frame headers, player events and the
// playback steps the server takes in answer to them. The sockets themselves
// are driven by the caller.

use vstd::prelude::*;
use crate::squeeze::codec::{
    self, ButtonMessage, StatEvent, StatMessage, StrmCommand, server_frame_spec,
    strm_simple_data, tag_strm,
};
use crate::squeeze::player::{PlayerState, SqueezePlayer, StatAction, stat_action, stat_next};
use crate::squeeze::queue::QueueTrack;
use crate::text::{lossy_utf8, utf8_lossy};

verus! {

/// HTTP port for the streaming server.
pub const HTTP_PORT: u16 = 9000;

/// Largest payload accepted on an established SlimProto connection.
pub const MAX_PAYLOAD_LEN: u32 = 1_000_000;

/// Largest payload accepted for the first (HELO) frame.
pub const MAX_HELO_LEN: u32 = 10_000;

/// The NO_RESTART_DECODER flag: start the next stream gaplessly.
pub const FLAG_NO_RESTART_DECODER: u8 = 0x40;

/// A client frame header: the 4-byte tag and the big-endian payload length
/// (`[tag(4)][len(4)]`); `None` when the length exceeds `max_len`.
pub fn parse_frame_header(header: &[u8; 8], max_len: u32) -> (r: Option<([u8; 4], u32)>)
    ensures
        ({
            let len = codec::be_at(header@, 4, 4);
            if len > max_len {
                r is None
            } else {
                r matches Some((tag, l)) && tag@ == header@.take(4) && l == len
            }
        }),
{
    let tag: [u8; 4] = [header[0], header[1], header[2], header[3]];
    assert(tag@ =~= header@.take(4));
    reveal_with_fuel(codec::be_at, 5);
    let len: u32 = (header[4] as u32) * 0x1000000 + (header[5] as u32) * 0x10000 + (header[6] as u32)
        * 0x100 + (header[7] as u32);
    if len > max_len {
        None
    } else {
        Some((tag, len))
    }
}

/// Whether a frame tag is `HELO`, the only frame a new connection may open with.
pub fn is_helo_tag(tag: &[u8; 4]) -> (r: bool)
    ensures
        r == (tag@ == codec::tag4(('H' as u8), ('E' as u8), ('L' as u8), ('O' as u8))),
{
    let r = tag[0] == ('H' as u8) && tag[1] == ('E' as u8) && tag[2] == ('L' as u8) && tag[3]
        == ('O' as u8);
    proof {
        if r {
            assert(tag@ =~= codec::tag4(('H' as u8), ('E' as u8), ('L' as u8), ('O' as u8)));
        }
    }
    r
}

/// Removes trailing NUL characters.
pub open spec fn trim_trailing_nuls(s: Seq<char>) -> Seq<char>
    decreases s.len(),
{
    if s.len() > 0 && s.last() == '\0' {
        trim_trailing_nuls(s.drop_last())
    } else {
        s
    }
}

/// The player name in a SETD reply: byte 0 is the setting id (0 = name), the
/// rest is the name, decoded as UTF-8 and stripped of trailing NULs.
pub open spec fn setd_name(data: Seq<u8>) -> Option<Seq<char>> {
    if data.len() > 1 && data[0] == 0 {
        Some(trim_trailing_nuls(lossy_utf8(data.skip(1))))
    } else {
        None
    }
}

pub fn name_from_setd(data: &[u8]) -> (r: Option<String>)
    ensures
        match setd_name(data@) {
            Some(n) => r matches Some(s) && s@ == n,
            None => r is None,
        },
{
    if !(data.len() > 1 && data[0] == 0) {
        return None;
    }
    let mut rest: Vec<u8> = Vec::new();
    let mut i: usize = 1;
    while i < data.len()
        invariant
            1 <= i <= data@.len(),
            rest@ == data@.subrange(1, i as int),
        decreases data@.len() - i,
    {
        rest.push(data[i]);
        i = i + 1;
        assert(rest@ =~= data@.subrange(1, i as int));
    }
    assert(rest@ =~= data@.skip(1));
    let name = utf8_lossy(rest.as_slice());
    let chars = crate::text::str_chars(name.as_str());
    let mut end: usize = chars.len();
    assert(chars@.take(chars@.len() as int) =~= chars@);
    while end > 0 && chars[end - 1] == '\0'
        invariant
            end <= chars@.len(),
            trim_trailing_nuls(chars@.take(end as int)) == trim_trailing_nuls(chars@),
        decreases end,
    {
        assert(chars@.take(end as int).drop_last() =~= chars@.take(end - 1));
        end = end - 1;
    }
    let kept = crate::numfmt::slice_skip(chars.as_slice(), 0);
    let mut t: Vec<char> = Vec::new();
    let mut j: usize = 0;
    while j < end
        invariant
            end <= kept@.len(),
            kept@ == chars@,
            j <= end,
            t@ == kept@.take(j as int),
        decreases end - j,
    {
        t.push(kept[j]);
        j = j + 1;
        assert(t@ =~= kept@.take(j as int));
    }
    assert(kept@ =~= chars@.skip(0));
    Some(crate::text::string_from_chars(t.as_slice()))
}

/// What a remote-control button press asks for.
#[derive(Debug, Clone, Copy, PartialEq, Eq, Structural)]
pub enum ButtonAction {
    /// Pause/play toggle
    Toggle,
    /// Next track
    Next,
    /// Previous track
    Previous,
    /// A code the server does not handle
    Ignored,
}

/// IR codes observed from Eversolo plus standard Squeezebox codes:
///   pause/play toggle: 0x768920df (pause), 0x768910ef (resume)
///   next:              0x7689a05f, 0x7689e01f (fwd), 0x7689a25d (fwd.single)
///   previous:          0x7689c03f, 0x7689d02f (rew), 0x7689c23d (rew.single)
pub open spec fn button_action_of(code: u32) -> ButtonAction {
    if code == 0x768920df || code == 0x768910ef {
        ButtonAction::Toggle
    } else if code == 0x7689a05f || code == 0x7689e01f || code == 0x7689a25d {
        ButtonAction::Next
    } else if code == 0x7689c03f || code == 0x7689d02f || code == 0x7689c23d {
        ButtonAction::Previous
    } else {
        ButtonAction::Ignored
    }
}

/// Each remote code does what its key says, and nothing else does anything:
/// a press asks for the next track exactly on 0x7689a05f, 0x7689e01f (fwd)
/// and 0x7689a25d (fwd.single); for the previous track exactly on
/// 0x7689c03f, 0x7689d02f (rew) and 0x7689c23d (rew.single); for a
/// pause/play toggle exactly on 0x768920df (pause) and 0x768910ef (resume).
/// Every code that is handled carries the Squeezebox remote's prefix 0x7689.
pub proof fn lemma_button_codes(code: u32)
    ensures
        (button_action_of(code) == ButtonAction::Next) == (code == 0x7689a05f || code == 0x7689e01f
            || code == 0x7689a25d),
        (button_action_of(code) == ButtonAction::Previous) == (code == 0x7689c03f || code
            == 0x7689d02f || code == 0x7689c23d),
        (button_action_of(code) == ButtonAction::Toggle) == (code == 0x768920df || code
            == 0x768910ef),
        button_action_of(code) != ButtonAction::Ignored ==> code / 0x10000 == 0x7689,
{
}

pub fn button_action(btn: &ButtonMessage) -> (a: ButtonAction)
    ensures
        a == button_action_of(btn.button_code),
{
    let code = btn.button_code;
    if code == 0x768920df || code == 0x768910ef {
        ButtonAction::Toggle
    } else if code == 0x7689a05f || code == 0x7689e01f || code == 0x7689a25d {
        ButtonAction::Next
    } else if code == 0x7689c03f || code == 0x7689d02f || code == 0x7689c23d {
        ButtonAction::Previous
    } else {
        ButtonAction::Ignored
    }
}

/// What the server does after a STAT from a player.
pub struct StatOutcome {
    /// The playback follow-up (prefetch, track finished, or nothing).
    pub action: StatAction,
    /// Whether CometD subscribers get a fresh status.
    pub notify: bool,
    /// The frame to send back (a status request answering a heartbeat).
    pub reply: Option<Vec<u8>>,
}

/// Subscribers are told when the playback state changed, when a track
/// started, and on pause/resume (to push the device-reported elapsed time).
pub open spec fn stat_notifies(old_state: PlayerState, new_state: PlayerState, event: StatEvent) -> bool {
    old_state != new_state || event == StatEvent::TrackStarted || event == StatEvent::Paused || event
        == StatEvent::Resumed
}

/// Subscribers hear of every start, pause and resume, and of a connect or
/// an unsupported format exactly when it changed the player's state; the
/// timer, decoder-ready, underrun, flush and the other reports never notify.
pub proof fn lemma_stat_notifies(p: SqueezePlayer, event: StatEvent, elapsed_ms: u32)
    ensures
        stat_notifies(p.state, stat_next(p, event, elapsed_ms).state, event) == (event
            == StatEvent::TrackStarted || event == StatEvent::Paused || event == StatEvent::Resumed
            || (event == StatEvent::Connected && p.state != PlayerState::Buffering) || (event
            == StatEvent::NotSupported && p.state != PlayerState::Stopped)),
{
}

/// Handles one STAT: updates the player and says what follows.
pub fn on_stat(player: &mut SqueezePlayer, stat: &StatMessage) -> (o: StatOutcome)
    requires
        old(player).queue.wf(),
        stat.event == StatEvent::Timer ==> stat.elapsed_milliseconds + old(player).seek_offset_ms
            <= u32::MAX,
    ensures
        *final(player) == stat_next(*old(player), stat.event, stat.elapsed_milliseconds),
        o.action == stat_action(*old(player), stat.event),
        o.notify == stat_notifies(old(player).state, final(player).state, stat.event),
        match o.reply {
            Some(f) => stat.event == StatEvent::Timer && f@ == server_frame_spec(
                tag_strm(),
                strm_simple_data(StrmCommand::Status, stat.jiffies),
            ),
            None => stat.event != StatEvent::Timer,
        },
{
    let old_state = player.state;
    let action = player.handle_stat(stat);
    let notify = player.state != old_state || match stat.event {
        StatEvent::TrackStarted | StatEvent::Paused | StatEvent::Resumed => true,
        _ => false,
    };
    let reply = match stat.event {
        StatEvent::Timer => Some(codec::encode_strm_simple(StrmCommand::Status, stat.jiffies)),
        _ => None,
    };
    StatOutcome { action, notify, reply }
}

/// Play/pause toggle: a playing player is paused, a paused one resumed;
/// returns the `strm` sub-command to send, if any.
pub fn toggle_pause(player: &mut SqueezePlayer) -> (cmd: Option<StrmCommand>)
    ensures
        old(player).state == PlayerState::Playing ==> cmd == Some(StrmCommand::Pause) && *final(player) == (SqueezePlayer { state: PlayerState::Paused, ..*old(player) }),
        old(player).state == PlayerState::Paused ==> cmd == Some(StrmCommand::Unpause) && *final(player) == (SqueezePlayer { state: PlayerState::Playing, ..*old(player) }),
        old(player).state != PlayerState::Playing && old(player).state != PlayerState::Paused ==> cmd
            is None && *final(player) == *old(player),
{
    if player.state == PlayerState::Playing {
        player.state = PlayerState::Paused;
        Some(StrmCommand::Pause)
    } else if player.state == PlayerState::Paused {
        player.state = PlayerState::Playing;
        Some(StrmCommand::Unpause)
    } else {
        None
    }
}

/// Moves to the next track after the current stream was stopped and flushed:
/// the displayed track is cleared and the coming STMu suppressed. If a
/// prefetch already advanced the queue, its mark is dropped and the queue
/// stays; otherwise the queue advances. Returns whether there is a track to play.
pub fn skip_to_next(player: &mut SqueezePlayer) -> (has_next: bool)
    requires
        old(player).queue.wf(),
    ensures
        *final(player) == (SqueezePlayer {
            display_track: None,
            suppress_track_finished: true,
            prefetched_generation: None,
            queue: final(player).queue,
            ..*old(player)
        }),
        final(player).queue.wf(),
        final(player).queue.tracks() == old(player).queue.tracks(),
        final(player).queue.repeat_mode() == old(player).queue.repeat_mode(),
        final(player).queue.shuffled() == old(player).queue.shuffled(),
        old(player).prefetched_generation is Some ==> final(player).queue == old(player).queue
            && has_next == (old(player).queue.current_track() is Some),
        old(player).prefetched_generation is None ==> final(player).queue.position()
            == old(player).queue.next_position() && has_next == (final(player).queue.current_track() is Some),
{
    player.display_track = None;
    player.suppress_track_finished = true;
    if player.prefetched_generation.is_some() {
        player.prefetched_generation = None;
        player.queue.current().is_some()
    } else {
        player.queue.next().is_some()
    }
}

/// Moves to the previous track from a remote-control button: clears the
/// displayed track, suppresses the coming STMu, drops any prefetch mark and
/// steps the queue back. Returns whether there is a track to play.
pub fn skip_to_previous(player: &mut SqueezePlayer) -> (has_prev: bool)
    requires
        old(player).queue.wf(),
    ensures
        *final(player) == (SqueezePlayer {
            display_track: None,
            suppress_track_finished: true,
            prefetched_generation: None,
            queue: final(player).queue,
            ..*old(player)
        }),
        final(player).queue.wf(),
        final(player).queue.tracks() == old(player).queue.tracks(),
        final(player).queue.order() == old(player).queue.order(),
        final(player).queue.repeat_mode() == old(player).queue.repeat_mode(),
        final(player).queue.shuffled() == old(player).queue.shuffled(),
        final(player).queue.position() == old(player).queue.previous_position(),
        has_prev == (final(player).queue.current_track() is Some),
{
    player.display_track = None;
    player.suppress_track_finished = true;
    player.prefetched_generation = None;
    player.queue.previous().is_some()
}

/// Gapless prefetch: remembers the current track for display, advances the
/// queue, bumps the generation and clears the seek offset; returns the new
/// current track and the generation its file is queued under, or `None`
/// when the queue ends.
pub fn prefetch_next(player: &mut SqueezePlayer) -> (r: Option<(QueueTrack, u64)>)
    requires
        old(player).queue.wf(),
        old(player).generation < u64::MAX,
    ensures
        final(player).queue.wf(),
        final(player).display_track == old(player).queue.current_track(),
        final(player).queue.position() == old(player).queue.next_position(),
        final(player).queue.tracks() == old(player).queue.tracks(),
        final(player).queue.repeat_mode() == old(player).queue.repeat_mode(),
        final(player).queue.shuffled() == old(player).queue.shuffled(),
        *final(player) == (SqueezePlayer {
            display_track: final(player).display_track,
            queue: final(player).queue,
            generation: final(player).generation,
            seek_offset_ms: final(player).seek_offset_ms,
            ..*old(player)
        }),
        final(player).state == old(player).state,
        match r {
            Some((t, g)) => final(player).queue.current_track() == Some(t) && g
                == old(player).generation + 1 && final(player).generation == g
                && final(player).seek_offset_ms == 0,
            None => final(player).queue.current_track() is None && final(player).generation
                == old(player).generation,
        },
{
    player.display_track = match player.queue.current() {
        Some(t) => Some(t.duplicate()),
        None => None,
    };
    let next = match player.queue.next() {
        Some(t) => t.duplicate(),
        None => return None,
    };
    player.generation = player.generation + 1;
    player.seek_offset_ms = 0;
    Some((next, player.generation))
}

/// The step the server takes when a track finished (STMu).
pub enum TrackFinishedStep {
    /// Stream the file at `path` as generation `generation`.
    StartNext { path: String, generation: u64 },
    /// The queue is exhausted: the player stops.
    QueueExhausted,
    /// A prefetched stream is already playing.
    PrefetchActive,
}

/// Handle track finished (STMu): if a prefetch happened, just confirm it;
/// otherwise advance the queue and start the next track, or stop at the end.
pub fn on_track_finished(player: &mut SqueezePlayer) -> (step: TrackFinishedStep)
    requires
        old(player).queue.wf(),
        old(player).generation < u64::MAX,
    ensures
        final(player).queue.wf(),
        final(player).queue.tracks() == old(player).queue.tracks(),
        old(player).prefetched_generation is Some ==> step is PrefetchActive && *final(player) == (
        SqueezePlayer {
            display_track: None,
            prefetched_generation: None,
            seek_offset_ms: 0,
            elapsed_ms: 0,
            ..*old(player)
        }),
        old(player).prefetched_generation is None ==> final(player).queue.position() == old(player).queue.next_position() && match step {
            TrackFinishedStep::StartNext { path, generation } => final(player).queue.current_track() matches Some(t) && path@ == t.path@ && generation
                == old(player).generation + 1 && final(player).generation == generation && final(player).seek_offset_ms == 0 && final(player).elapsed_ms == 0 && final(player).state == old(player).state,
            TrackFinishedStep::QueueExhausted => final(player).queue.current_track() is None
                && final(player).state == PlayerState::Stopped && final(player).generation == old(player).generation,
            TrackFinishedStep::PrefetchActive => false,
        },
{
    if player.prefetched_generation.is_none() {
        let has_next = player.queue.next().is_some();
        if has_next {
            let path = match player.queue.current() {
                Some(t) => t.path.clone(),
                None => {
                    return TrackFinishedStep::QueueExhausted;
                },
            };
            player.generation = player.generation + 1;
            player.seek_offset_ms = 0;
            player.elapsed_ms = 0;
            TrackFinishedStep::StartNext { path, generation: player.generation }
        } else {
            player.state = PlayerState::Stopped;
            TrackFinishedStep::QueueExhausted
        }
    } else {
        player.display_track = None;
        player.prefetched_generation = None;
        player.seek_offset_ms = 0;
        player.elapsed_ms = 0;
        TrackFinishedStep::PrefetchActive
    }
}

/// Prepares streaming the queue's current track from its start: bumps the
/// generation and clears the seek offset and elapsed time; returns the file
/// path and the generation to queue it under, or `None` without a current track.
pub fn prepare_current_track(player: &mut SqueezePlayer) -> (r: Option<(String, u64)>)
    requires
        old(player).queue.wf(),
        old(player).generation < u64::MAX,
    ensures
        match old(player).queue.current_track() {
            Some(t) => r matches Some((path, g)) && path@ == t.path@ && g == old(player).generation
                + 1 && *final(player) == (SqueezePlayer {
                generation: g,
                seek_offset_ms: 0,
                elapsed_ms: 0,
                ..*old(player)
            }),
            None => r is None && *final(player) == *old(player),
        },
{
    let path = match player.queue.current() {
        Some(t) => t.path.clone(),
        None => return None,
    };
    player.generation = player.generation + 1;
    player.seek_offset_ms = 0;
    player.elapsed_ms = 0;
    Some((path, player.generation))
}

} // verus!
