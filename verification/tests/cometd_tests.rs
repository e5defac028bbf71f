use audion::squeeze::codec::{MacAddress, StrmCommand};
use audion::squeeze::cometd::{
    classify_request, client_id_for, handshake_ext_name, handshake_player, handshake_player_name,
    jump_to_index, long_poll_seconds, merge_handshake, mixer_arg_fits, mixer_volume,
    parse_mac_address, pause_if_playing, rehandshake_advice, repeat_code, resume_if_paused,
    retry_advice, route_channel, skip_back, slim_subscription, start_current_track, start_seek,
    status_mode, status_summary, stop_player, CmdArg, CometdChannel, NumberArg, SlimRequest,
    SlimSubscription, drops_player_with_client, watchdog_step, WatchdogAction,
};
use audion::squeeze::player::{PlayerState, SqueezePlayer};
use audion::squeeze::queue::{QueueTrack, RepeatMode};

fn text(s: &str) -> CmdArg {
    CmdArg::Text(s.to_string())
}

fn num(v: i64) -> CmdArg {
    CmdArg::Number(NumberArg { as_u64: if v >= 0 { Some(v as u64) } else { None }, as_i64: Some(v) })
}

const PID: &str = "aa:bb:cc:dd:ee:ff";

fn track(id: i64) -> QueueTrack {
    QueueTrack {
        id,
        title: format!("Song {}", id),
        artist: "Band".to_string(),
        album: "LP".to_string(),
        path: format!("/m/{}.flac", id),
        duration_bits: 100.0f64.to_bits(),
        format: "flac".to_string(),
    }
}

fn player(n: i64) -> SqueezePlayer {
    let mut p = SqueezePlayer::new_cometd(parse_mac_address(PID), PID, "u");
    p.queue.set_tracks((1..=n).map(track).collect(), 0);
    p
}

#[test]
fn mac_parse_roundtrip_and_errors() {
    let m = MacAddress([0, 0x1a, 0x2b, 0x3c, 0x4d, 0xff]);
    assert_eq!(parse_mac_address(&m.to_string()), m);
    assert_eq!(parse_mac_address("AA:BB:CC:DD:EE:FF").0, [0xaa, 0xbb, 0xcc, 0xdd, 0xee, 0xff]);
    assert_eq!(parse_mac_address("aa:bb:cc").0, [0; 6]);
    assert_eq!(parse_mac_address("zz:01:02:03:04:05").0, [0, 1, 2, 3, 4, 5]);
    assert_eq!(parse_mac_address("").0, [0; 6]);
}

#[test]
fn client_ids_are_hex_padded() {
    assert_eq!(client_id_for(1), "00000001");
    assert_eq!(client_id_for(0xabcdef12), "abcdef12");
    assert_eq!(client_id_for(0x1_0000_0000), "100000000");
}

#[test]
fn handshake_names() {
    assert_eq!(handshake_player_name(Some("Den"), PID), "Den");
    assert_eq!(handshake_player_name(None, PID), "Player aa:bb:cc:dd:ee:ff");
    assert_eq!(handshake_ext_name(None, Some("Dev"), Some("Other")), Some("Dev".to_string()));
    assert_eq!(handshake_ext_name(None, None, Some("Other")), Some("Other".to_string()));
    assert_eq!(handshake_ext_name(None, None, None), None);
    let p = handshake_player(parse_mac_address(PID), PID, "uuid-9", None);
    assert_eq!(p.name, "Player aa:bb:cc:dd:ee:ff");
    assert_eq!(p.capabilities, "cometd,uuid=uuid-9");
    let mut q = SqueezePlayer::new(parse_mac_address(PID), "Real".to_string(), "c".to_string(), [1, 1, 1, 1]);
    merge_handshake(&mut q, None);
    assert!(q.is_cometd);
    assert_eq!(q.name, "Real");
    merge_handshake(&mut q, Some("New"));
    assert_eq!(q.name, "New");
}

#[test]
fn long_poll_timeouts() {
    assert_eq!(long_poll_seconds(0), None);
    assert_eq!(long_poll_seconds(5_500), Some(5));
    assert_eq!(long_poll_seconds(60_000), Some(30));
}

#[test]
fn advice_values() {
    let a = retry_advice();
    assert_eq!((a.reconnect.as_str(), a.interval, a.timeout), ("retry", 0, 30000));
    let b = rehandshake_advice();
    assert_eq!((b.reconnect.as_str(), b.interval, b.timeout), ("handshake", 1000, 30000));
}

#[test]
fn channel_routing() {
    assert_eq!(route_channel("/meta/handshake"), CometdChannel::Handshake);
    assert_eq!(route_channel("/meta/connect"), CometdChannel::Connect);
    assert_eq!(route_channel("/meta/subscribe"), CometdChannel::Subscribe);
    assert_eq!(route_channel("/meta/disconnect"), CometdChannel::Disconnect);
    assert_eq!(route_channel("/slim/subscribe"), CometdChannel::SlimSubscribe);
    assert_eq!(route_channel("/abc/slim/request/x"), CometdChannel::SlimRequest);
    assert_eq!(route_channel("/other"), CometdChannel::Unknown);
}

#[test]
fn slim_subscriptions() {
    assert_eq!(slim_subscription("serverstatus", "", "/r"), SlimSubscription::ServerStatus);
    assert_eq!(slim_subscription("serverstatus", "", ""), SlimSubscription::Nothing);
    assert_eq!(slim_subscription("status", PID, "/r"), SlimSubscription::PlayerStatus);
    assert_eq!(slim_subscription("status", "", "/r"), SlimSubscription::Nothing);
    assert_eq!(slim_subscription("menu", PID, "/r"), SlimSubscription::Nothing);
}

fn classify(cmd: Vec<CmdArg>) -> SlimRequest {
    classify_request(PID, &cmd)
}

#[test]
fn classify_basic_commands() {
    assert!(matches!(classify_request("", &[text("serverstatus")]), SlimRequest::ServerStatus));
    assert!(matches!(classify_request("", &[text("status")]), SlimRequest::Ignored));
    assert!(matches!(classify(vec![text("status")]), SlimRequest::Status));
    assert!(matches!(classify(vec![text("play")]), SlimRequest::Play));
    assert!(matches!(classify(vec![text("stop")]), SlimRequest::Stop));
    assert!(matches!(classify(vec![]), SlimRequest::Ignored));
    assert!(matches!(classify(vec![text("bogus")]), SlimRequest::Ignored));
}

#[test]
fn classify_mixer_and_pause() {
    assert!(matches!(classify(vec![text("mixer"), text("volume"), text("?")]), SlimRequest::VolumeQuery));
    assert!(matches!(classify(vec![text("mixer"), text("volume"), text("+5")]), SlimRequest::VolumeSet(v) if v == "+5"));
    assert!(matches!(classify(vec![text("mixer"), text("volume"), num(5)]), SlimRequest::Ignored));
    assert!(matches!(classify(vec![text("pause")]), SlimRequest::TogglePause));
    assert!(matches!(classify(vec![text("pause"), text("0")]), SlimRequest::Unpause));
    assert!(matches!(classify(vec![text("pause"), num(1)]), SlimRequest::ForcePause));
    assert!(matches!(classify(vec![text("pause"), text("x")]), SlimRequest::TogglePause));
}

#[test]
fn classify_playlist() {
    assert!(matches!(classify(vec![text("playlist"), text("index"), text("+1")]), SlimRequest::SkipForward));
    assert!(matches!(classify(vec![text("playlist"), text("jump"), num(1)]), SlimRequest::SkipForward));
    assert!(matches!(classify(vec![text("playlist"), text("index"), num(-1)]), SlimRequest::SkipBackward));
    assert!(matches!(classify(vec![text("playlist"), text("index"), text("4")]), SlimRequest::JumpTo(4)));
    assert!(matches!(classify(vec![text("playlist"), text("index"), num(0)]), SlimRequest::JumpTo(0)));
    assert!(matches!(classify(vec![text("playlist"), text("index")]), SlimRequest::JumpTo(0)));
    assert!(matches!(classify(vec![text("playlist"), text("index"), text("x")]), SlimRequest::Ignored));
    assert!(matches!(classify(vec![text("playlist"), text("repeat"), text("2")]), SlimRequest::SetRepeat(RepeatMode::All)));
    assert!(matches!(classify(vec![text("playlist"), text("repeat"), num(1)]), SlimRequest::SetRepeat(RepeatMode::Off)));
    assert!(matches!(classify(vec![text("playlist"), text("shuffle"), text("1")]), SlimRequest::SetShuffle(true)));
    assert!(matches!(classify(vec![text("playlist"), text("shuffle"), num(0)]), SlimRequest::SetShuffle(true)));
    assert!(matches!(classify(vec![text("playlist"), text("shuffle")]), SlimRequest::SetShuffle(false)));
}

#[test]
fn classify_buttons_time_power_names() {
    assert!(matches!(classify(vec![text("button"), text("fwd.single")]), SlimRequest::SkipForward));
    assert!(matches!(classify(vec![text("button"), text("rew")]), SlimRequest::SkipBackward));
    assert!(matches!(classify(vec![text("button"), text("pause")]), SlimRequest::TogglePause));
    assert!(matches!(classify(vec![text("button"), text("play.single")]), SlimRequest::Play));
    assert!(matches!(classify(vec![text("time"), num(30)]), SlimRequest::Seek));
    assert!(matches!(classify(vec![text("time")]), SlimRequest::Ignored));
    assert!(matches!(classify(vec![text("power"), text("0")]), SlimRequest::Stop));
    assert!(matches!(classify(vec![text("power"), num(0)]), SlimRequest::Ignored));
    assert!(matches!(classify(vec![text("name"), text("Den")]), SlimRequest::Name(Some(n)) if n == "Den"));
    assert!(matches!(classify(vec![text("name"), text("?")]), SlimRequest::Name(None)));
    assert!(matches!(classify(vec![text("playerpref"), text("playername"), text("Hi")]), SlimRequest::SetPlayerName(n) if n == "Hi"));
    assert!(matches!(classify(vec![text("playerpref"), text("playername"), text("?")]), SlimRequest::Ignored));
}

#[test]
fn mixer_volume_rules() {
    assert_eq!(mixer_volume(50, "+10"), 60);
    assert_eq!(mixer_volume(50, "-70"), 0);
    assert_eq!(mixer_volume(95, "+10"), 100);
    assert_eq!(mixer_volume(50, "+x"), 50);
    assert_eq!(mixer_volume(50, "30"), 30);
    assert_eq!(mixer_volume(50, "250"), 100);
    assert_eq!(mixer_volume(50, "300"), 50);
    assert_eq!(mixer_volume(50, "abc"), 50);
    assert!(mixer_arg_fits(50, "+100"));
    assert!(!mixer_arg_fits(255, "+32767"));
    assert!(mixer_arg_fits(255, "-32768"));
}

#[test]
fn play_pause_stop_effects() {
    let mut p = player(2);
    assert_eq!(resume_if_paused(&mut p), None);
    p.state = PlayerState::Playing;
    assert_eq!(pause_if_playing(&mut p), Some(StrmCommand::Pause));
    assert_eq!(p.state, PlayerState::Paused);
    assert_eq!(resume_if_paused(&mut p), Some(StrmCommand::Unpause));
    assert_eq!(p.state, PlayerState::Playing);
    p.elapsed_ms = 500;
    stop_player(&mut p);
    assert_eq!(p.state, PlayerState::Stopped);
    assert_eq!(p.elapsed_ms, 0);
}

#[test]
fn skip_back_undoes_prefetch() {
    let mut p = player(3);
    p.queue.jump_to(1);
    p.prefetched_generation = Some(1);
    p.queue.next();
    assert!(skip_back(&mut p));
    assert_eq!(p.queue.current().unwrap().id, 1);
    assert!(p.prefetched_generation.is_none());
    assert!(p.suppress_track_finished);
}

#[test]
fn jump_and_start_track() {
    let mut p = player(3);
    jump_to_index(&mut p, 2);
    assert_eq!(p.queue.current().unwrap().id, 3);
    jump_to_index(&mut p, 9);
    assert_eq!(p.queue.current().unwrap().id, 3);
    let r = start_current_track(&mut p);
    assert_eq!(r, Some(("/m/3.flac".to_string(), 1)));
    assert_eq!(p.state, PlayerState::Playing);
    let s = start_seek(&mut p, 42_000);
    assert_eq!(s, Some(("/m/3.flac".to_string(), 2)));
    assert_eq!(p.seek_offset_ms, 42_000);
    assert_eq!(p.elapsed_ms, 42_000);
    let mut e = player(0);
    assert_eq!(start_current_track(&mut e), None);
    assert_eq!(e.state, PlayerState::Stopped);
}

#[test]
fn status_codes() {
    assert_eq!(status_mode(PlayerState::Playing), "play");
    assert_eq!(status_mode(PlayerState::Paused), "pause");
    assert_eq!(status_mode(PlayerState::Buffering), "stop");
    assert_eq!(repeat_code(RepeatMode::Off), 0);
    assert_eq!(repeat_code(RepeatMode::One), 1);
    assert_eq!(repeat_code(RepeatMode::All), 2);
}

#[test]
fn status_summary_of_current_track() {
    let mut p = player(3);
    p.queue.jump_to(1);
    p.state = PlayerState::Playing;
    p.volume = 33;
    let s = status_summary(&p, PID);
    assert_eq!(s.mode, "play");
    assert_eq!(s.cur_index, 1);
    assert_eq!(s.track.as_ref().map(|t| t.id), Some(2));
    assert_eq!(s.display_text, "Song 2\nBand");
    assert_eq!(s.coverid, "2");
    assert_eq!(s.artwork_url, "/music/2/cover.jpg");
    assert_eq!(s.stream_url, "/stream?player=aa:bb:cc:dd:ee:ff");
    assert_eq!(s.playlist_tracks, 3);
    assert_eq!(s.volume, 33);
    assert_eq!(s.shuffle, 0);
}

#[test]
fn status_summary_prefers_display_track() {
    let mut p = player(3);
    p.display_track = Some(track(3));
    let s = status_summary(&p, PID);
    assert_eq!(s.track.map(|t| t.id), Some(3));
    assert_eq!(s.cur_index, 2);
    let e = player(0);
    let s = status_summary(&e, PID);
    assert!(s.track.is_none());
    assert_eq!(s.cur_index, 0);
    assert_eq!(s.coverid, "");
    assert_eq!(s.stream_url, "");
}

#[test]
fn mac_parsing_ignores_case() {
    let lower = parse_mac_address("aa:bb:cc:0d:ee:ff");
    assert_eq!(parse_mac_address("AA:BB:CC:0D:EE:FF"), lower);
    assert_eq!(parse_mac_address("Aa:bB:Cc:0d:eE:Ff"), lower);
    assert_eq!(lower, MacAddress([0xaa, 0xbb, 0xcc, 0x0d, 0xee, 0xff]));
}

#[test]
fn skip_back_steps_one_or_two_and_keeps_the_rest() {
    let mut p = player(4);
    p.queue.jump_to(2);
    p.volume = 33;
    p.elapsed_ms = 1234;
    assert!(skip_back(&mut p));
    assert_eq!(p.queue.current_position(), Some(1));
    assert_eq!(p.volume, 33);
    assert_eq!(p.elapsed_ms, 1234);

    let mut q = player(4);
    q.queue.jump_to(3);
    q.prefetched_generation = Some(7);
    assert!(skip_back(&mut q));
    assert_eq!(q.queue.current_position(), Some(1));

    let mut r = player(4);
    r.queue.set_repeat(RepeatMode::All);
    r.prefetched_generation = Some(7);
    assert!(skip_back(&mut r));
    assert_eq!(r.queue.current_position(), Some(2));
}

#[test]
fn handshake_player_starts_fresh() {
    let p = handshake_player(parse_mac_address(PID), PID, "u", None);
    assert_eq!(p.volume, 80);
    assert_eq!(p.generation, 0);
    assert!(p.queue.is_empty());
    assert!(p.queue.current().is_none());
    assert_eq!(p.elapsed_ms, 0);
}

#[test]
fn watchdog_evicts_after_ninety_seconds() {
    let limit: u128 = 90_000_000_000;
    assert_eq!(watchdog_step(limit, Some(false)), WatchdogAction::Keep);
    assert_eq!(watchdog_step(limit + 1, Some(false)), WatchdogAction::EvictClientAndPlayer);
    assert_eq!(watchdog_step(limit + 1, Some(true)), WatchdogAction::EvictClient);
    assert_eq!(watchdog_step(limit + 1, None), WatchdogAction::EvictClient);
    assert_eq!(watchdog_step(0, None), WatchdogAction::Keep);
    assert!(drops_player_with_client(Some(false)));
    assert!(!drops_player_with_client(Some(true)));
    assert!(!drops_player_with_client(None));
}
