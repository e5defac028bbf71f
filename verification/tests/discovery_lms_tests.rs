use audion::lms_client::api::{
    artwork_url, base_url, current_entry_index, int_field, parse_player, play_mode_of, playlist_index_of,
    playlist_tracks_of, repeat_mode_of, shuffle_mode_of, track_id_of, volume_arg, volume_of,
    IndexField, IntField, PlayerFields,
};
use audion::lms_client::audio_server::{content_range, cover_url, guess_content_type, parse_range, track_url};
use audion::lms_client::cometd_client::{
    handshake_client_id, next_backoff_secs, poll_message, status_channel, PollMessage,
};
use audion::lms_client::discovery::parse_tlv_response;
use audion::lms_client::types::{LmsError, PlayMode, RepeatMode, ShuffleMode};
use audion::lms_client::{enriched_text, enrichment_track_id, extract_id_from_str, play_plan, track_title, PlaylistStep};
use audion::squeeze::discovery::{build_legacy_response, build_tlv_response, discovery_reply};

#[test]
fn tlv_response_layout() {
    let r = build_tlv_response("Audion", 9000);
    let mut expected = vec![b'E'];
    expected.extend_from_slice(b"NAME\x06Audion");
    expected.extend_from_slice(b"JSON\x049000");
    expected.extend_from_slice(b"UUID\x1aaudion-squeeze-server-0001");
    expected.extend_from_slice(b"VERS\x058.4.0");
    assert_eq!(r, expected);
}

#[test]
fn legacy_response_pads_and_truncates() {
    let r = build_legacy_response("den");
    assert_eq!(r.len(), 18);
    assert_eq!(&r[..4], b"Dden");
    assert!(r[4..].iter().all(|&b| b == 0));
    let long = build_legacy_response("a-very-long-server-name");
    assert_eq!(&long[..], b"Da-very-long-serve");
}

#[test]
fn discovery_replies_by_first_byte() {
    assert_eq!(discovery_reply(b"e", "S", 1), Some(build_tlv_response("S", 1)));
    assert_eq!(discovery_reply(b"dxyz", "S", 1), Some(build_legacy_response("S")));
    assert_eq!(discovery_reply(b"x", "S", 1), None);
    assert_eq!(discovery_reply(b"", "S", 1), None);
}

#[test]
fn tlv_roundtrip_through_client() {
    let r = build_tlv_response("Living Room", 9000);
    let s = parse_tlv_response(&r[1..], "192.168.1.5").unwrap();
    assert_eq!(s.name, "Living Room");
    assert_eq!(s.host, "192.168.1.5");
    assert_eq!(s.json_port, 9000);
    assert_eq!(s.uuid, "audion-squeeze-server-0001");
    let unnamed = build_tlv_response("", 9002);
    let s = parse_tlv_response(&unnamed[1..], "10.0.0.1").unwrap();
    assert_eq!(s.name, "LMS @ 10.0.0.1");
    assert_eq!(s.json_port, 9002);
}

#[test]
fn tlv_parse_edge_cases() {
    assert!(parse_tlv_response(b"", "1.1.1.1").is_none());
    assert!(parse_tlv_response(b"JSON\x049000", "1.1.1.1").is_none());
    let s = parse_tlv_response(b"UUID\x03abcJSON\x02xx", "h").unwrap();
    assert_eq!(s.uuid, "abc");
    assert_eq!(s.json_port, 9000);
    assert_eq!(s.name, "LMS @ h");
    let overlapping = parse_tlv_response(b"NAME\x05abcUUID\x01z", "h").unwrap();
    assert_eq!(overlapping.name, "abcUU");
    assert_eq!(overlapping.uuid, "");
    assert!(parse_tlv_response(b"UUID\x09abc", "h").is_none());
    assert!(parse_tlv_response(b"\xff\xfe\xfd\xfc\x01a", "h").is_none());
}

#[test]
fn extract_ids() {
    assert_eq!(extract_id_from_str("http://192.168.1.3:51496/audio/477", ":51496/audio/"), Some(477));
    assert_eq!(extract_id_from_str("http://h/audio/12abc", "/audio/"), Some(12));
    assert_eq!(extract_id_from_str("http://h/audio/", "/audio/"), None);
    assert_eq!(extract_id_from_str("nothing here", "/audio/"), None);
    assert_eq!(extract_id_from_str("/audio/99999999999999999999", "/audio/"), None);
    assert_eq!(extract_id_from_str("/audio/1/audio/2", "/audio/"), Some(1));
    assert_eq!(enrichment_track_id(None, "http://x/audio/5"), Some(5));
    assert_eq!(enrichment_track_id(Some("http://x/audio/6"), "http://x/audio/5"), Some(6));
    assert_eq!(enrichment_track_id(Some("http://x/other"), "no"), None);
}

#[test]
fn track_titles() {
    assert_eq!(track_title("Band", "Song", 3), "Band - Song");
    assert_eq!(track_title("", "Song", 3), "Song");
    assert_eq!(track_title("Band", "", 3), "Track 3");
    assert_eq!(track_title("", "", -4), "Track -4");
}

#[test]
fn play_plans() {
    assert_eq!(play_plan(&[5, 6, 7], 0), vec![PlaylistStep::Play(5), PlaylistStep::Add(6), PlaylistStep::Add(7)]);
    assert_eq!(
        play_plan(&[5, 6, 7], 2),
        vec![PlaylistStep::Add(5), PlaylistStep::Add(6), PlaylistStep::Add(7), PlaylistStep::Jump(2)]
    );
    assert_eq!(play_plan(&[], 0), vec![]);
}

#[test]
fn api_urls_and_volume() {
    assert_eq!(base_url("lms.local", 9000), "http://lms.local:9000");
    assert_eq!(artwork_url("http://h:1", 42), "http://h:1/music/42/cover.jpg");
    assert_eq!(volume_arg(55), "55");
    assert_eq!(volume_arg(200), "100");
}

#[test]
fn player_parsing() {
    let f = PlayerFields {
        player_id: Some("aa:bb".to_string()),
        name: None,
        model: Some("squeezelite".to_string()),
        connected: Some(1),
        power: Some(0),
        is_playing: None,
    };
    let p = parse_player(&f).unwrap();
    assert_eq!(p.player_id, "aa:bb");
    assert_eq!(p.name, "Unknown");
    assert_eq!(p.model, "squeezelite");
    assert!(p.connected);
    assert!(!p.power);
    assert!(!p.is_playing);
    let none = PlayerFields { player_id: None, name: None, model: None, connected: None, power: None, is_playing: None };
    assert!(parse_player(&none).is_none());
}

#[test]
fn status_field_parsing() {
    assert_eq!(play_mode_of(Some("play")), PlayMode::Playing);
    assert_eq!(play_mode_of(Some("pause")), PlayMode::Paused);
    assert_eq!(play_mode_of(Some("stop")), PlayMode::Stopped);
    assert_eq!(play_mode_of(None), PlayMode::Stopped);
    assert_eq!(repeat_mode_of(Some(2)), RepeatMode::All);
    assert_eq!(repeat_mode_of(Some(7)), RepeatMode::Off);
    assert_eq!(shuffle_mode_of(Some(1)), ShuffleMode::Songs);
    assert_eq!(shuffle_mode_of(None), ShuffleMode::Off);
    assert_eq!(playlist_index_of(&Some(IndexField::Number(Some(4)))), 4);
    assert_eq!(playlist_index_of(&Some(IndexField::Number(None))), 0);
    assert_eq!(playlist_index_of(&Some(IndexField::Text("7".to_string()))), 7);
    assert_eq!(playlist_index_of(&Some(IndexField::Text("x".to_string()))), 0);
    assert_eq!(playlist_index_of(&None), 0);
    let t = |s: &str| Some(IntField { as_i64: None, text: Some(s.to_string()) });
    assert_eq!(int_field(&t("-12")), Some(-12));
    assert_eq!(volume_of(&t("250")), 100);
    assert_eq!(volume_of(&Some(IntField { as_i64: Some(-5), text: None })), 0);
    assert_eq!(volume_of(&None), 0);
    assert_eq!(playlist_tracks_of(&t("12")), 12);
    assert_eq!(track_id_of(&None), -1);
    assert_eq!(track_id_of(&t("x")), -1);
    assert_eq!(track_id_of(&Some(IntField { as_i64: Some(9), text: None })), 9);
}

#[test]
fn audio_server_helpers() {
    assert_eq!(track_url([192, 168, 0, 7], 5000, 12), "http://192.168.0.7:5000/audio/12");
    assert_eq!(cover_url([10, 0, 0, 1], 80, 3), "http://10.0.0.1:80/cover/3");
    assert_eq!(parse_range("0-99", 1000), (0, 99));
    assert_eq!(parse_range("500-", 1000), (500, 999));
    assert_eq!(parse_range("10-5000", 1000), (10, 999));
    assert_eq!(parse_range("abc-x", 1000), (0, 999));
    assert_eq!(parse_range("7", 1000), (7, 999));
    assert_eq!(content_range(0, 99, 1000), "bytes 0-99/1000");
    assert_eq!(guess_content_type("/m/a.FLAC"), "audio/flac");
    assert_eq!(guess_content_type("/m/a.dsf"), "audio/dsf");
    assert_eq!(guess_content_type("/m/noext"), "application/octet-stream");
}

#[test]
fn cometd_client_helpers() {
    assert_eq!(next_backoff_secs(2), 4);
    assert_eq!(next_backoff_secs(16), 30);
    assert_eq!(poll_message("/meta/connect", Some(false)), PollMessage::Rejected);
    assert_eq!(poll_message("/meta/connect", None), PollMessage::Ignore);
    assert_eq!(poll_message("/abc/status", None), PollMessage::Status);
    assert_eq!(poll_message("/meta/subscribe", Some(true)), PollMessage::Ignore);
}

#[test]
fn lms_error_messages() {
    assert_eq!(LmsError::Network("down".to_string()).message(), "Network error: down");
    assert_eq!(LmsError::Parse("bad".to_string()).message(), "JSON parse error: bad");
    assert_eq!(LmsError::NotConnected.message(), "Not connected to LMS server");
    assert_eq!(LmsError::PlayerNotFound("p".to_string()).message(), "Player not found: p");
}

#[test]
fn track_url_id_reads_back() {
    let u = track_url([192, 168, 1, 3], 51496, 477);
    assert_eq!(extract_id_from_str(&u, "/audio/"), Some(477));
    let z = track_url([10, 0, 0, 1], 9000, 0);
    assert_eq!(extract_id_from_str(&z, "/audio/"), Some(0));
    let big = track_url([127, 0, 0, 1], 1, i64::MAX);
    assert_eq!(extract_id_from_str(&big, "/audio/"), Some(i64::MAX));
}

#[test]
fn handshake_client_id_and_status_channel() {
    assert!(matches!(handshake_client_id(Some("abc123")), Ok(ref s) if s == "abc123"));
    match handshake_client_id(None) {
        Err(LmsError::Parse(m)) => assert_eq!(m, "No clientId in handshake response"),
        _ => panic!("expected a parse error"),
    }
    assert_eq!(status_channel("abc123"), "/abc123/status");
}

#[test]
fn current_entry_needs_a_reachable_index() {
    assert_eq!(current_entry_index(3, 0), Some(0));
    assert_eq!(current_entry_index(3, 2), Some(2));
    assert_eq!(current_entry_index(3, 3), None);
    assert_eq!(current_entry_index(0, 0), None);
}

#[test]
fn enriched_text_defaults_and_bitrate() {
    let e = enriched_text(Some("Song"), Some("Band"), None, Some(320));
    assert_eq!(e.title, "Song");
    assert_eq!(e.artist, "Band");
    assert_eq!(e.album, "");
    assert_eq!(e.bitrate.as_deref(), Some("320kbps"));
    let d = enriched_text(None, None, Some("LP"), None);
    assert_eq!(d.title, "Unknown");
    assert_eq!(d.artist, "");
    assert_eq!(d.album, "LP");
    assert!(d.bitrate.is_none());
}
