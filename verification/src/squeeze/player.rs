// Per-player state and the decisions taken on player events.
//
// Each connected Squeeze player has a `SqueezePlayer` holding its playback
// state, queue, and generation counters for gapless prefetch. The bytes that
// go to the player are computed here; the connection that carries them is
// kept by the caller.

use vstd::prelude::*;
use crate::numfmt::{decimal, u64_to_decimal};
use crate::paths::{extension_of, is_extension_of, path_extension, plain_path};
use crate::squeeze::codec::{
    self, AudioFormat, MacAddress, StatEvent, StatMessage, StrmCommand, StrmStartParams,
    format_for_extension, mac_text, server_frame_spec, strm_start_bytes, tag_strm,
};
use crate::squeeze::queue::{PlayQueue, QueueTrack, RepeatMode};
use crate::text::push_str;

verus! {

/// Playback state reported to the frontend.
#[derive(Debug, Clone, Copy, PartialEq, Eq, Structural)]
pub enum PlayerState {
    Disconnected,
    Stopped,
    Buffering,
    Playing,
    Paused,
}

/// Info about a connected player (sent to frontend).
#[derive(Debug, Clone)]
pub struct PlayerInfo {
    pub mac: String,
    pub name: String,
    pub state: PlayerState,
    pub capabilities: String,
    pub current_track: Option<QueueTrack>,
    pub elapsed_ms: u32,
    pub volume: u8,
    pub repeat: RepeatMode,
    pub shuffle: bool,
    pub queue_length: usize,
    pub queue_position: Option<usize>,
}

/// A connected Squeeze player.
pub struct SqueezePlayer {
    pub mac: MacAddress,
    pub name: String,
    pub capabilities: String,
    pub state: PlayerState,
    pub queue: PlayQueue,
    /// 0-100
    pub volume: u8,
    pub elapsed_ms: u32,
    pub seek_offset_ms: u32,
    /// Stream generation: incremented each time a new stream is started.
    pub generation: u64,
    /// Generation confirmed by STMs (track started).
    pub confirmed_generation: Option<u64>,
    /// Generation for which STMd prefetch was done.
    pub prefetched_generation: Option<u64>,
    /// Suppress STMu (track finished) temporarily during seeks.
    pub suppress_track_finished: bool,
    /// Track shown while a prefetched stream is already queued behind it.
    pub display_track: Option<QueueTrack>,
    /// Server IP to advertise to this player for HTTP streaming.
    pub server_ip: [u8; 4],
    /// Whether this is a Cometd (HTTP) player vs binary SlimProto.
    pub is_cometd: bool,
}

/// Action to take after processing a STAT event.
#[derive(Debug, Clone, Copy, PartialEq, Eq, Structural)]
pub enum StatAction {
    NoAction,
    Prefetch,
    TrackFinished,
}

/// The server version announced in the handshake.
pub open spec fn handshake_version() -> Seq<char> {
    "7.999.999"@
}

/// The HTTP request a player is told to send for stream generation `generation`.
pub open spec fn stream_request(mac: [u8; 6], generation: u64) -> Seq<char> {
    "GET /stream?player="@ + mac_text(mac) + "&gen="@ + decimal(generation as nat)
        + " HTTP/1.0\r\n\r\n"@
}

/// The `strm 's'` frame that starts stream `generation` in `format`.
pub open spec fn start_frame(
    mac: [u8; 6],
    server_ip: [u8; 4],
    http_port: u16,
    flags: u8,
    format: AudioFormat,
    generation: u64,
) -> Seq<u8> {
    server_frame_spec(
        tag_strm(),
        strm_start_bytes(
            format,
            http_port,
            server_ip@,
            stream_request(mac, generation),
            65536,
            flags,
            0,
            0,
            40,
            0,
        ),
    )
}

/// Whether the `flags` of a stream ask for gapless continuation (NO_RESTART_DECODER).
/// The extension a plain track path is streamed by: its own, or "mp3" when
/// it has none.
pub open spec fn format_extension(path: Seq<char>) -> Seq<char> {
    match extension_of(path) {
        Some(x) => x,
        None => "mp3"@,
    }
}

pub open spec fn is_gapless(flags: u8) -> bool {
    flags & 0x40 != 0
}

impl SqueezePlayer {
    /// A freshly connected SlimProto player.
    pub fn new(mac: MacAddress, name: String, capabilities: String, server_ip: [u8; 4]) -> (p:
        SqueezePlayer)
        ensures
            p.mac == mac,
            p.name == name,
            p.capabilities == capabilities,
            p.server_ip == server_ip,
            p.state == PlayerState::Stopped,
            p.volume == 80,
            p.elapsed_ms == 0,
            p.seek_offset_ms == 0,
            p.generation == 0,
            p.confirmed_generation is None,
            p.prefetched_generation is None,
            !p.suppress_track_finished,
            p.display_track is None,
            !p.is_cometd,
            p.queue.wf(),
            p.queue.tracks().len() == 0,
            p.queue.position() is None,
            p.queue.repeat_mode() == RepeatMode::Off,
            !p.queue.shuffled(),
    {
        SqueezePlayer {
            mac,
            name,
            capabilities,
            state: PlayerState::Stopped,
            queue: PlayQueue::new(),
            volume: 80,
            elapsed_ms: 0,
            seek_offset_ms: 0,
            generation: 0,
            confirmed_generation: None,
            prefetched_generation: None,
            suppress_track_finished: false,
            display_track: None,
            server_ip,
            is_cometd: false,
        }
    }

    /// Create a Cometd-based player (no SlimProto connection).
    pub fn new_cometd(mac: MacAddress, mac_str: &str, uuid: &str) -> (p: SqueezePlayer)
        ensures
            p.mac == mac,
            p.name@ == "Player "@ + mac_str@,
            p.capabilities@ == "cometd,uuid="@ + uuid@,
            p.server_ip@ == seq![127u8, 0, 0, 1],
            p.state == PlayerState::Stopped,
            p.volume == 80,
            p.elapsed_ms == 0,
            p.seek_offset_ms == 0,
            p.generation == 0,
            p.confirmed_generation is None,
            p.prefetched_generation is None,
            !p.suppress_track_finished,
            p.display_track is None,
            p.is_cometd,
            p.queue.wf(),
            p.queue.tracks().len() == 0,
            p.queue.position() is None,
    {
        let mut name = String::from_str("Player ");
        push_str(&mut name, mac_str);
        let mut capabilities = String::from_str("cometd,uuid=");
        push_str(&mut capabilities, uuid);
        let ip: [u8; 4] = [127, 0, 0, 1];
        assert(ip@ =~= seq![127u8, 0, 0, 1]);
        SqueezePlayer {
            mac,
            name,
            capabilities,
            state: PlayerState::Stopped,
            queue: PlayQueue::new(),
            volume: 80,
            elapsed_ms: 0,
            seek_offset_ms: 0,
            generation: 0,
            confirmed_generation: None,
            prefetched_generation: None,
            suppress_track_finished: false,
            display_track: None,
            server_ip: ip,
            is_cometd: true,
        }
    }

    /// The initial handshake sequence, in sending order: server version,
    /// `strm 'q'` (also stops any previous stream), query of the player name,
    /// DAC and SPDIF enabled, and the current volume.
    pub fn handshake_frames(&self) -> (frames: Vec<Vec<u8>>)
        ensures
            frames@.len() == 5,
            frames@[0]@ == server_frame_spec(codec::tag_vers(), vstd::utf8::encode_utf8(handshake_version())),
            frames@[1]@ == server_frame_spec(tag_strm(), codec::strm_simple_data(StrmCommand::Stop, 0)),
            frames@[2]@ == server_frame_spec(codec::tag_setd(), seq![0u8]),
            frames@[3]@ == server_frame_spec(codec::tag_aude(), seq![1u8, 1u8]),
            frames@[4]@ == server_frame_spec(
                codec::tag_audg(),
                codec::audg_data(
                    codec::gain_for_volume(self.volume as int) as u32,
                    codec::gain_for_volume(self.volume as int) as u32,
                ),
            ),
    {
        let mut frames: Vec<Vec<u8>> = Vec::new();
        let v = "7.999.999";
        frames.push(codec::encode_vers(v));
        frames.push(codec::encode_strm_simple(StrmCommand::Stop, 0));
        frames.push(codec::encode_setd_query_name());
        frames.push(codec::encode_aude(true, true));
        let g = codec::volume_gain(self.volume);
        frames.push(codec::encode_audg(g, g));
        proof {
            vstd::string::axiom_str_literal_len(v);
        }
        frames
    }

    /// Start streaming the current track in a known format: bumps the
    /// generation, resets the confirmation (unless gapless) and the prefetch
    /// mark, and returns the new generation with the `strm 's'` frame to send.
    /// Once the frame is sent, `stream_sent` records the Buffering state.
    pub fn begin_stream_with_format(&mut self, http_port: u16, flags: u8, format: AudioFormat) -> (r:
        Result<(u64, Vec<u8>), String>)
        requires
            old(self).queue.wf(),
            old(self).generation < u64::MAX,
        ensures
            match r {
                Err(e) => old(self).queue.current_track() is None && e@ == "No current track"@
                    && *final(self) == *old(self),
                Ok((g, frame)) => old(self).queue.current_track() is Some && {
                &&& g == old(self).generation + 1
                &&& frame@ == start_frame(old(self).mac.0, old(self).server_ip, http_port, flags, format, g)
                &&& *final(self) == (SqueezePlayer {
                    generation: g,
                    confirmed_generation: if is_gapless(flags) {
                        old(self).confirmed_generation
                    } else {
                        None
                    },
                    prefetched_generation: None,
                    ..*old(self)
                })
            },
            },
    {
        if self.queue.current().is_none() {
            return Err(String::from_str("No current track"));
        }
        self.generation = self.generation + 1;
        let gen = self.generation;
        if flags & 0x40 == 0 {
            self.confirmed_generation = None;
        }
        self.prefetched_generation = None;
        let http_request = stream_request_text(&self.mac, gen);
        let params = StrmStartParams {
            format,
            server_port: http_port,
            server_ip: self.server_ip,
            http_request,
            replay_gain_fixed: 65536,
            flags,
            transition_type: 0,
            transition_period: 0,
            threshold_kb: 40,
            output_threshold_ds: 0,
        };
        let frame = codec::encode_strm_start(&params);
        Ok((gen, frame))
    }

    /// Start streaming the current track: the format follows the extension
    /// of the track's path ("mp3" when it has none). See
    /// `begin_stream_with_format` for the rest.
    pub fn begin_stream(&mut self, http_port: u16, flags: u8) -> (r: Result<(u64, Vec<u8>), String>)
        requires
            old(self).queue.wf(),
            old(self).generation < u64::MAX,
        ensures
            match r {
                Err(e) => old(self).queue.current_track() is None && e@ == "No current track"@
                    && *final(self) == *old(self),
                Ok((g, frame)) => old(self).queue.current_track() is Some && exists|
                e: Seq<char>,
            |
                #![trigger format_for_extension(e)]
                {
                    &&& (is_extension_of(old(self).queue.current_track()->0.path@, e) || e
                        == "mp3"@)
                    &&& (plain_path(old(self).queue.current_track()->0.path@) ==> e
                        == format_extension(old(self).queue.current_track()->0.path@))
                    &&& g == old(self).generation + 1
                    &&& frame@ == start_frame(
                        old(self).mac.0,
                        old(self).server_ip,
                        http_port,
                        flags,
                        format_for_extension(e),
                        g,
                    )
                    &&& *final(self) == (SqueezePlayer {
                        generation: g,
                        confirmed_generation: if is_gapless(flags) {
                            old(self).confirmed_generation
                        } else {
                            None
                        },
                        prefetched_generation: None,
                        ..*old(self)
                    })
                },
            },
    {
        let ext_opt: Option<String> = match self.queue.current() {
            Some(track) => path_extension(track.path.as_str()),
            None => None,
        };
        let format = match &ext_opt {
            Some(e) => AudioFormat::from_extension(e.as_str()),
            None => AudioFormat::from_extension("mp3"),
        };
        let ghost e: Seq<char> = match ext_opt {
            Some(x) => x@,
            None => "mp3"@,
        };
        let r = self.begin_stream_with_format(http_port, flags, format);
        proof {
            if old(self).queue.current_track() is Some {
                assert(is_extension_of(old(self).queue.current_track()->0.path@, e) || e == "mp3"@);
                assert(plain_path(old(self).queue.current_track()->0.path@) ==> e
                    == format_extension(old(self).queue.current_track()->0.path@));
                assert(format == format_for_extension(e));
            }
        }
        r
    }

    /// Records that the start frame went out: the player is buffering.
    pub fn stream_sent(&mut self)
        ensures
            *final(self) == (SqueezePlayer { state: PlayerState::Buffering, ..*old(self) }),
    {
        self.state = PlayerState::Buffering;
    }

    /// Stops the player: state Stopped; returns the `strm 'q'` frame to send.
    pub fn stop(&mut self) -> (frame: Vec<u8>)
        ensures
            *final(self) == (SqueezePlayer { state: PlayerState::Stopped, ..*old(self) }),
            frame@ == server_frame_spec(tag_strm(), codec::strm_simple_data(StrmCommand::Stop, 0)),
    {
        self.state = PlayerState::Stopped;
        codec::encode_strm_simple(StrmCommand::Stop, 0)
    }

    /// Set volume (clamped to 0-100); returns the `audg` frame to send.
    pub fn set_volume(&mut self, vol: u8) -> (frame: Vec<u8>)
        ensures
            final(self).volume == if vol < 100 {
                vol
            } else {
                100
            },
            *final(self) == (SqueezePlayer { volume: final(self).volume, ..*old(self) }),
            frame@ == server_frame_spec(
                codec::tag_audg(),
                codec::audg_data(
                    codec::gain_for_volume(final(self).volume as int) as u32,
                    codec::gain_for_volume(final(self).volume as int) as u32,
                ),
            ),
    {
        self.volume = if vol < 100 {
            vol
        } else {
            100
        };
        let g = codec::volume_gain(self.volume);
        codec::encode_audg(g, g)
    }

    /// Handle an incoming STAT event. Returns the follow-up the server owes.
    pub fn handle_stat(&mut self, stat: &StatMessage) -> (action: StatAction)
        requires
            old(self).queue.wf(),
            stat.event == StatEvent::Timer ==> stat.elapsed_milliseconds + old(self).seek_offset_ms
                <= u32::MAX,
        ensures
            *final(self) == stat_next(*old(self), stat.event, stat.elapsed_milliseconds),
            action == stat_action(*old(self), stat.event),
    {
        match stat.event {
            StatEvent::TrackStarted => {
                self.state = PlayerState::Playing;
                self.confirmed_generation = Some(self.generation);
                StatAction::NoAction
            },
            StatEvent::DecoderReady => {
                // Input consumed: prefetch next track if confirmed
                if self.confirmed_generation == Some(self.generation)
                    && self.prefetched_generation != Some(self.generation) {
                    if self.queue.peek_next().is_some() {
                        self.prefetched_generation = Some(self.generation);
                        return StatAction::Prefetch;
                    }
                }
                StatAction::NoAction
            },
            StatEvent::Underrun => {
                // Track finished
                if self.suppress_track_finished {
                    self.suppress_track_finished = false;
                    return StatAction::NoAction;
                }
                StatAction::TrackFinished
            },
            StatEvent::Paused => {
                self.state = PlayerState::Paused;
                StatAction::NoAction
            },
            StatEvent::Resumed => {
                self.state = PlayerState::Playing;
                StatAction::NoAction
            },
            StatEvent::Flushed => {
                // Normal during transitions: do NOT set Stopped
                StatAction::NoAction
            },
            StatEvent::Timer => {
                self.elapsed_ms = stat.elapsed_milliseconds + self.seek_offset_ms;
                StatAction::NoAction
            },
            StatEvent::Connected => {
                self.state = PlayerState::Buffering;
                StatAction::NoAction
            },
            StatEvent::BufferThreshold => StatAction::NoAction,
            StatEvent::NotSupported => {
                self.state = PlayerState::Stopped;
                StatAction::NoAction
            },
            StatEvent::OutputUnderrun => StatAction::NoAction,
            StatEvent::Unknown(_) => StatAction::NoAction,
        }
    }

    /// Get info for the frontend.
    pub fn info(&self) -> (i: PlayerInfo)
        requires
            self.queue.wf(),
        ensures
            i.mac@ == mac_text(self.mac.0),
            i.name == self.name,
            i.state == self.state,
            i.capabilities == self.capabilities,
            i.current_track == self.queue.current_track(),
            i.elapsed_ms == self.elapsed_ms,
            i.volume == self.volume,
            i.repeat == self.queue.repeat_mode(),
            i.shuffle == self.queue.shuffled(),
            i.queue_length == self.queue.tracks().len(),
            i.queue_position == self.queue.position(),
    {
        let current_track = match self.queue.current() {
            Some(t) => Some(t.duplicate()),
            None => None,
        };
        PlayerInfo {
            mac: self.mac.to_string(),
            name: self.name.clone(),
            state: self.state,
            capabilities: self.capabilities.clone(),
            current_track,
            elapsed_ms: self.elapsed_ms,
            volume: self.volume,
            repeat: self.queue.repeat_setting(),
            shuffle: self.queue.shuffle_enabled(),
            queue_length: self.queue.len(),
            queue_position: self.queue.current_position(),
        }
    }
}

/// Whether a DecoderReady event triggers a prefetch of the next track.
pub open spec fn prefetch_due(p: SqueezePlayer) -> bool {
    &&& p.confirmed_generation == Some(p.generation)
    &&& p.prefetched_generation != Some(p.generation)
    &&& p.queue.next_position() is Some
}

/// The player after a STAT event.
pub open spec fn stat_next(p: SqueezePlayer, event: StatEvent, elapsed_ms: u32) -> SqueezePlayer {
    match event {
        StatEvent::TrackStarted => SqueezePlayer {
            state: PlayerState::Playing,
            confirmed_generation: Some(p.generation),
            ..p
        },
        StatEvent::DecoderReady => if prefetch_due(p) {
            SqueezePlayer { prefetched_generation: Some(p.generation), ..p }
        } else {
            p
        },
        StatEvent::Underrun => if p.suppress_track_finished {
            SqueezePlayer { suppress_track_finished: false, ..p }
        } else {
            p
        },
        StatEvent::Paused => SqueezePlayer { state: PlayerState::Paused, ..p },
        StatEvent::Resumed => SqueezePlayer { state: PlayerState::Playing, ..p },
        StatEvent::Timer => SqueezePlayer { elapsed_ms: (elapsed_ms + p.seek_offset_ms) as u32, ..p },
        StatEvent::Connected => SqueezePlayer { state: PlayerState::Buffering, ..p },
        StatEvent::NotSupported => SqueezePlayer { state: PlayerState::Stopped, ..p },
        _ => p,
    }
}

/// The follow-up a STAT event asks of the server.
pub open spec fn stat_action(p: SqueezePlayer, event: StatEvent) -> StatAction {
    match event {
        StatEvent::DecoderReady => if prefetch_due(p) {
            StatAction::Prefetch
        } else {
            StatAction::NoAction
        },
        StatEvent::Underrun => if p.suppress_track_finished {
            StatAction::NoAction
        } else {
            StatAction::TrackFinished
        },
        _ => StatAction::NoAction,
    }
}

/// The STAT state machine. A player's state follows the events that report
/// it: paused (STMp) makes it Paused and resumed (STMr) or started (STMs)
/// makes it Playing, whatever it was before; connected (STMc) makes it
/// Buffering and "format not supported" (STMn) Stopped; every other event,
/// flushed (STMf) among them, leaves the state alone. Only a start confirms
/// the current generation, only the timer sets the elapsed time (the
/// reported time plus the seek offset), and no event touches the queue, the
/// generation, the volume or the player's identity.
pub proof fn lemma_stat_state_machine(p: SqueezePlayer, event: StatEvent, elapsed_ms: u32)
    requires
        event == StatEvent::Timer ==> elapsed_ms + p.seek_offset_ms <= u32::MAX,
    ensures
        ({
            let q = stat_next(p, event, elapsed_ms);
            &&& event == StatEvent::Paused ==> q.state == PlayerState::Paused
            &&& event == StatEvent::Resumed ==> q.state == PlayerState::Playing
            &&& event == StatEvent::TrackStarted ==> q.state == PlayerState::Playing
                && q.confirmed_generation == Some(p.generation)
            &&& event == StatEvent::Connected ==> q.state == PlayerState::Buffering
            &&& event == StatEvent::NotSupported ==> q.state == PlayerState::Stopped
            &&& (event != StatEvent::Paused && event != StatEvent::Resumed && event
                != StatEvent::TrackStarted && event != StatEvent::Connected && event
                != StatEvent::NotSupported) ==> q.state == p.state
            &&& event != StatEvent::TrackStarted ==> q.confirmed_generation
                == p.confirmed_generation
            &&& event == StatEvent::Timer ==> q.elapsed_ms == elapsed_ms + p.seek_offset_ms
            &&& event != StatEvent::Timer ==> q.elapsed_ms == p.elapsed_ms
            &&& q.queue == p.queue
            &&& q.generation == p.generation
            &&& q.volume == p.volume
            &&& q.mac == p.mac
            &&& q.name == p.name
            &&& q.seek_offset_ms == p.seek_offset_ms
            &&& q.display_track == p.display_track
            &&& q.server_ip == p.server_ip
            &&& q.is_cometd == p.is_cometd
        }),
{
}

/// What a STAT event asks of the server. A track is finished exactly on an
/// underrun (STMu) that is not being suppressed, and that suppression is used
/// up by it; a prefetch is asked exactly on decoder-ready (STMd) once the
/// current generation is confirmed, not yet prefetched, and the queue has a
/// next track, and it marks that generation prefetched. Nothing else asks
/// for anything or changes those two marks.
pub proof fn lemma_stat_follow_up(p: SqueezePlayer, event: StatEvent, elapsed_ms: u32)
    ensures
        ({
            let q = stat_next(p, event, elapsed_ms);
            let a = stat_action(p, event);
            &&& (a == StatAction::TrackFinished) == (event == StatEvent::Underrun
                && !p.suppress_track_finished)
            &&& (a == StatAction::Prefetch) == (event == StatEvent::DecoderReady
                && p.confirmed_generation == Some(p.generation)
                && p.prefetched_generation != Some(p.generation)
                && p.queue.next_position() is Some)
            &&& a == StatAction::Prefetch ==> q.prefetched_generation == Some(p.generation)
            &&& a != StatAction::Prefetch ==> q.prefetched_generation == p.prefetched_generation
            &&& event == StatEvent::Underrun ==> !q.suppress_track_finished
            &&& event != StatEvent::Underrun ==> q.suppress_track_finished
                == p.suppress_track_finished
        }),
{
}

/// "GET /stream?player=<mac>&gen=<gen> HTTP/1.0\r\n\r\n"
pub fn stream_request_text(mac: &MacAddress, generation: u64) -> (s: String)
    ensures
        s@ == stream_request(mac.0, generation),
{
    let mut s = String::from_str("GET /stream?player=");
    let m = mac.to_string();
    push_str(&mut s, m.as_str());
    push_str(&mut s, "&gen=");
    let g = u64_to_decimal(generation);
    push_str(&mut s, g.as_str());
    push_str(&mut s, " HTTP/1.0\r\n\r\n");
    s
}

} // verus!
