use audion::squeeze::codec::{
    encode_strm_simple, read_u16_be, ButtonMessage, MacAddress, StatEvent, StatMessage,
    StrmCommand,
};
use audion::squeeze::player::{stream_request_text, PlayerState, SqueezePlayer, StatAction};
use audion::squeeze::queue::QueueTrack;
use audion::squeeze::server::{
    button_action, is_helo_tag, name_from_setd, on_stat, on_track_finished, parse_frame_header,
    prefetch_next, prepare_current_track, skip_to_next, skip_to_previous, toggle_pause,
    ButtonAction, TrackFinishedStep, FLAG_NO_RESTART_DECODER, HTTP_PORT, MAX_HELO_LEN,
};

const MAC: MacAddress = MacAddress([0x00, 0x11, 0x22, 0x33, 0x44, 0x55]);

fn track(id: i64, path: &str) -> QueueTrack {
    QueueTrack {
        id,
        title: format!("T{}", id),
        artist: "A".to_string(),
        album: "B".to_string(),
        path: path.to_string(),
        duration_bits: 200.0f64.to_bits(),
        format: "flac".to_string(),
    }
}

fn player_with(paths: &[&str]) -> SqueezePlayer {
    let mut p = SqueezePlayer::new(MAC, "Kitchen".to_string(), "caps".to_string(), [10, 0, 0, 2]);
    let ts: Vec<QueueTrack> = paths.iter().enumerate().map(|(i, p)| track(i as i64 + 1, p)).collect();
    p.queue.set_tracks(ts, 0);
    p
}

fn stat(event: StatEvent, elapsed_ms: u32) -> StatMessage {
    StatMessage {
        event,
        buffer_size: 0,
        buffer_fullness: 0,
        bytes_received: 0,
        signal_strength: 0,
        jiffies: 77,
        output_buffer_size: 0,
        output_buffer_fullness: 0,
        elapsed_seconds: 0,
        elapsed_milliseconds: elapsed_ms,
        timestamp: 0,
    }
}

#[test]
fn new_player_defaults() {
    let p = SqueezePlayer::new(MAC, "X".to_string(), "c".to_string(), [1, 2, 3, 4]);
    assert_eq!(p.state, PlayerState::Stopped);
    assert_eq!(p.volume, 80);
    assert_eq!(p.generation, 0);
    assert!(!p.is_cometd);
    let c = SqueezePlayer::new_cometd(MAC, "00:11:22:33:44:55", "u-1");
    assert_eq!(c.name, "Player 00:11:22:33:44:55");
    assert_eq!(c.capabilities, "cometd,uuid=u-1");
    assert!(c.is_cometd);
    assert_eq!(c.server_ip, [127, 0, 0, 1]);
}

#[test]
fn handshake_sequence() {
    let p = player_with(&[]);
    let frames = p.handshake_frames();
    assert_eq!(frames.len(), 5);
    assert_eq!(&frames[0][2..], b"vers7.999.999");
    assert_eq!(frames[1], encode_strm_simple(StrmCommand::Stop, 0));
    assert_eq!(&frames[2][2..], b"setd\x00");
    assert_eq!(&frames[3][2..], b"aude\x01\x01");
    assert_eq!(&frames[4][2..6], b"audg");
}

#[test]
fn stream_request_format() {
    assert_eq!(
        stream_request_text(&MAC, 12),
        "GET /stream?player=00:11:22:33:44:55&gen=12 HTTP/1.0\r\n\r\n"
    );
}

#[test]
fn begin_stream_without_track_fails() {
    let mut p = player_with(&[]);
    match p.begin_stream(HTTP_PORT, 0) {
        Err(e) => assert_eq!(e, "No current track"),
        Ok(_) => panic!("expected an error"),
    }
    assert_eq!(p.generation, 0);
}

#[test]
fn begin_stream_bumps_generation_and_picks_format() {
    let mut p = player_with(&["/m/a.MP3"]);
    p.confirmed_generation = Some(0);
    let (g, frame) = p.begin_stream(HTTP_PORT, 0).unwrap();
    assert_eq!(g, 1);
    assert_eq!(p.generation, 1);
    assert_eq!(p.confirmed_generation, None);
    assert_eq!(&frame[2..6], b"strm");
    assert_eq!(frame[6], b's');
    assert_eq!(frame[8], b'm');
    let req = "GET /stream?player=00:11:22:33:44:55&gen=1 HTTP/1.0\r\n\r\n";
    assert_eq!(&frame[30..], req.as_bytes());
    assert_eq!(&frame[26..30], &[10, 0, 0, 2]);
    assert_eq!(read_u16_be(&frame, 0) as usize, frame.len() - 2);
    p.stream_sent();
    assert_eq!(p.state, PlayerState::Buffering);
}

#[test]
fn gapless_stream_keeps_confirmation() {
    let mut p = player_with(&["/m/a.flac"]);
    p.confirmed_generation = Some(0);
    let (g, _) = p.begin_stream(HTTP_PORT, FLAG_NO_RESTART_DECODER).unwrap();
    assert_eq!(g, 1);
    assert_eq!(p.confirmed_generation, Some(0));
}

#[test]
fn set_volume_clamps() {
    let mut p = player_with(&[]);
    let f = p.set_volume(150);
    assert_eq!(p.volume, 100);
    assert_eq!(&f[16..20], &[0, 1, 0, 0]);
}

#[test]
fn stat_track_started_then_prefetch() {
    let mut p = player_with(&["/a.flac", "/b.flac"]);
    p.generation = 3;
    assert_eq!(p.handle_stat(&stat(StatEvent::TrackStarted, 0)), StatAction::NoAction);
    assert_eq!(p.state, PlayerState::Playing);
    assert_eq!(p.confirmed_generation, Some(3));
    assert_eq!(p.handle_stat(&stat(StatEvent::DecoderReady, 0)), StatAction::Prefetch);
    assert_eq!(p.prefetched_generation, Some(3));
    assert_eq!(p.handle_stat(&stat(StatEvent::DecoderReady, 0)), StatAction::NoAction);
}

#[test]
fn stat_no_prefetch_at_end_of_queue() {
    let mut p = player_with(&["/a.flac"]);
    p.handle_stat(&stat(StatEvent::TrackStarted, 0));
    assert_eq!(p.handle_stat(&stat(StatEvent::DecoderReady, 0)), StatAction::NoAction);
}

#[test]
fn stat_underrun_respects_suppression() {
    let mut p = player_with(&["/a.flac"]);
    p.suppress_track_finished = true;
    assert_eq!(p.handle_stat(&stat(StatEvent::Underrun, 0)), StatAction::NoAction);
    assert!(!p.suppress_track_finished);
    assert_eq!(p.handle_stat(&stat(StatEvent::Underrun, 0)), StatAction::TrackFinished);
}

#[test]
fn stat_timer_adds_seek_offset() {
    let mut p = player_with(&["/a.flac"]);
    p.seek_offset_ms = 60_000;
    let o = on_stat(&mut p, &stat(StatEvent::Timer, 1500));
    assert_eq!(p.elapsed_ms, 61_500);
    assert_eq!(o.action, StatAction::NoAction);
    assert!(!o.notify);
    assert_eq!(o.reply, Some(encode_strm_simple(StrmCommand::Status, 77)));
}

#[test]
fn stat_outcome_notifies_on_state_change() {
    let mut p = player_with(&["/a.flac"]);
    let o = on_stat(&mut p, &stat(StatEvent::Connected, 0));
    assert!(o.notify);
    assert!(o.reply.is_none());
    let o = on_stat(&mut p, &stat(StatEvent::Flushed, 0));
    assert!(!o.notify);
    let o = on_stat(&mut p, &stat(StatEvent::NotSupported, 0));
    assert_eq!(p.state, PlayerState::Stopped);
    assert!(o.notify);
}

#[test]
fn frame_header_limits() {
    let h = [b'H', b'E', b'L', b'O', 0, 0, 0, 36];
    assert_eq!(parse_frame_header(&h, MAX_HELO_LEN), Some((*b"HELO", 36)));
    assert!(is_helo_tag(b"HELO"));
    assert!(!is_helo_tag(b"STAT"));
    let big = [b'S', b'T', b'A', b'T', 0, 0x10, 0, 0];
    assert_eq!(parse_frame_header(&big, MAX_HELO_LEN), None);
}

#[test]
fn setd_name_decoding() {
    assert_eq!(name_from_setd(&[0, b'D', b'e', b'n', 0, 0]), Some("Den".to_string()));
    assert_eq!(name_from_setd(&[1, b'x']), None);
    assert_eq!(name_from_setd(&[0]), None);
}

#[test]
fn button_codes() {
    let b = |code| ButtonMessage { timestamp: 0, button_code: code };
    assert_eq!(button_action(&b(0x768920df)), ButtonAction::Toggle);
    assert_eq!(button_action(&b(0x7689a25d)), ButtonAction::Next);
    assert_eq!(button_action(&b(0x7689d02f)), ButtonAction::Previous);
    assert_eq!(button_action(&b(1)), ButtonAction::Ignored);
}

#[test]
fn toggle_pause_switches() {
    let mut p = player_with(&["/a.flac"]);
    assert_eq!(toggle_pause(&mut p), None);
    p.state = PlayerState::Playing;
    assert_eq!(toggle_pause(&mut p), Some(StrmCommand::Pause));
    assert_eq!(p.state, PlayerState::Paused);
    assert_eq!(toggle_pause(&mut p), Some(StrmCommand::Unpause));
    assert_eq!(p.state, PlayerState::Playing);
}

#[test]
fn skip_next_after_prefetch_keeps_queue() {
    let mut p = player_with(&["/a.flac", "/b.flac", "/c.flac"]);
    p.prefetched_generation = Some(1);
    assert!(skip_to_next(&mut p));
    assert_eq!(p.queue.current().unwrap().id, 1);
    assert!(p.prefetched_generation.is_none());
    assert!(p.suppress_track_finished);
    assert!(skip_to_next(&mut p));
    assert_eq!(p.queue.current().unwrap().id, 2);
    assert!(skip_to_previous(&mut p));
    assert_eq!(p.queue.current().unwrap().id, 1);
}

#[test]
fn prefetch_then_track_finished() {
    let mut p = player_with(&["/a.flac", "/b.flac"]);
    p.generation = 4;
    let (t, g) = prefetch_next(&mut p).unwrap();
    assert_eq!(t.id, 2);
    assert_eq!(g, 5);
    assert_eq!(p.display_track.as_ref().unwrap().id, 1);
    p.prefetched_generation = Some(4);
    assert!(matches!(on_track_finished(&mut p), TrackFinishedStep::PrefetchActive));
    assert!(p.display_track.is_none());
    assert!(p.prefetched_generation.is_none());
}

#[test]
fn track_finished_advances_or_stops() {
    let mut p = player_with(&["/a.flac", "/b.flac"]);
    p.state = PlayerState::Playing;
    match on_track_finished(&mut p) {
        TrackFinishedStep::StartNext { path, generation } => {
            assert_eq!(path, "/b.flac");
            assert_eq!(generation, 1);
        }
        _ => panic!("expected the next track"),
    }
    assert!(matches!(on_track_finished(&mut p), TrackFinishedStep::QueueExhausted));
    assert_eq!(p.state, PlayerState::Stopped);
}

#[test]
fn prepare_current_track_resets_offsets() {
    let mut p = player_with(&["/a.flac"]);
    p.seek_offset_ms = 5;
    p.elapsed_ms = 9;
    assert_eq!(prepare_current_track(&mut p), Some(("/a.flac".to_string(), 1)));
    assert_eq!(p.seek_offset_ms, 0);
    assert_eq!(p.elapsed_ms, 0);
    let mut e = player_with(&[]);
    assert_eq!(prepare_current_track(&mut e), None);
}

#[test]
fn info_reports_queue() {
    let p = player_with(&["/a.flac", "/b.flac"]);
    let i = p.info();
    assert_eq!(i.mac, "00:11:22:33:44:55");
    assert_eq!(i.queue_length, 2);
    assert_eq!(i.queue_position, Some(0));
    assert_eq!(i.current_track.map(|t| t.id), Some(1));
}
