use audion::squeeze::codec::{
    encode_aude, encode_audg, encode_setd_query_name, encode_strm_simple, encode_strm_start,
    encode_vers, parse_butn, parse_client_message, parse_helo, parse_stat, read_u16_be,
    read_u32_be, read_u64_be, server_frame, volume_gain, AudioFormat, ClientMessage, MacAddress,
    StatEvent, StrmCommand, StrmStartParams,
};

#[test]
fn server_frame_prefixes_length_and_tag() {
    let f = server_frame(b"vers", b"abc");
    assert_eq!(f, vec![0, 7, b'v', b'e', b'r', b's', b'a', b'b', b'c']);
}

#[test]
fn server_frame_length_reads_back() {
    let data = vec![9u8; 300];
    let f = server_frame(b"strm", &data);
    assert_eq!(read_u16_be(&f, 0) as usize, 4 + data.len());
    assert_eq!(f.len(), 2 + 4 + 300);
}

#[test]
fn strm_command_bytes() {
    assert_eq!(StrmCommand::Start.as_byte(), b's');
    assert_eq!(StrmCommand::Pause.as_byte(), b'p');
    assert_eq!(StrmCommand::Unpause.as_byte(), b'u');
    assert_eq!(StrmCommand::Stop.as_byte(), b'q');
    assert_eq!(StrmCommand::Flush.as_byte(), b'f');
    assert_eq!(StrmCommand::Status.as_byte(), b't');
    assert_eq!(StrmCommand::Skip.as_byte(), b'a');
}

#[test]
fn audio_format_bytes_and_extensions() {
    assert_eq!(AudioFormat::Flac.as_byte(), b'f');
    assert_eq!(AudioFormat::Alac.as_byte(), b'l');
    assert_eq!(AudioFormat::from_extension("FLAC"), AudioFormat::Flac);
    assert_eq!(AudioFormat::from_extension("mp3"), AudioFormat::Mp3);
    assert_eq!(AudioFormat::from_extension("oga"), AudioFormat::Ogg);
    assert_eq!(AudioFormat::from_extension("m4a"), AudioFormat::Aac);
    assert_eq!(AudioFormat::from_extension("aiff"), AudioFormat::Pcm);
    assert_eq!(AudioFormat::from_extension("wma"), AudioFormat::Wma);
    assert_eq!(AudioFormat::from_extension("alac"), AudioFormat::Alac);
    assert_eq!(AudioFormat::from_extension("xyz"), AudioFormat::Pcm);
}

#[test]
fn strm_simple_layout() {
    let f = encode_strm_simple(StrmCommand::Pause, 0x01020304);
    assert_eq!(f.len(), 2 + 4 + 24);
    assert_eq!(&f[0..6], &[0, 28, b's', b't', b'r', b'm']);
    assert_eq!(f[6], b'p');
    assert_eq!(&f[7..20], &[0u8; 13]);
    assert_eq!(&f[20..24], &[1, 2, 3, 4]);
    assert_eq!(&f[24..30], &[0u8; 6]);
}

#[test]
fn strm_start_layout() {
    let p = StrmStartParams {
        format: AudioFormat::Flac,
        server_port: 9000,
        server_ip: [192, 168, 1, 2],
        http_request: "GET / HTTP/1.0\r\n\r\n".to_string(),
        replay_gain_fixed: 65536,
        flags: 0x40,
        transition_type: 0,
        transition_period: 0,
        threshold_kb: 40,
        output_threshold_ds: 0,
    };
    let f = encode_strm_start(&p);
    let d = &f[6..];
    assert_eq!(&d[0..7], b"s1f????");
    assert_eq!(d[7], 40);
    assert_eq!(d[11], 0x40);
    assert_eq!(&d[14..18], &[0, 1, 0, 0]);
    assert_eq!(&d[18..20], &[0x23, 0x28]);
    assert_eq!(&d[20..24], &[192, 168, 1, 2]);
    assert_eq!(&d[24..], b"GET / HTTP/1.0\r\n\r\n");
    assert_eq!(read_u16_be(&f, 0) as usize, 4 + 24 + 18);
}

#[test]
fn volume_gain_matches_float_formula() {
    for v in [0u8, 1, 33, 50, 80, 99, 100] {
        let expected = ((v as f64 / 100.0) * 65536.0) as u32;
        assert_eq!(volume_gain(v), expected, "volume {}", v);
    }
    assert_eq!(volume_gain(100), 65536);
    assert_eq!(volume_gain(50), 32768);
}

#[test]
fn audg_layout() {
    let f = encode_audg(65536, 32768);
    assert_eq!(&f[2..6], b"audg");
    assert_eq!(&f[6..16], &[0u8; 10]);
    assert_eq!(&f[16..20], &[0, 1, 0, 0]);
    assert_eq!(&f[20..24], &[0, 0, 0x80, 0]);
}

#[test]
fn aude_vers_setd() {
    assert_eq!(encode_aude(true, false), vec![0, 6, b'a', b'u', b'd', b'e', 1, 0]);
    assert_eq!(encode_vers("7.9"), vec![0, 7, b'v', b'e', b'r', b's', b'7', b'.', b'9']);
    assert_eq!(encode_setd_query_name(), vec![0, 5, b's', b'e', b't', b'd', 0]);
}

#[test]
fn mac_to_string_lowercase_hex() {
    let m = MacAddress([0x00, 0x04, 0x20, 0xab, 0xCD, 0xff]);
    assert_eq!(m.to_string(), "00:04:20:ab:cd:ff");
}

#[test]
fn stat_event_codes() {
    assert!(matches!(StatEvent::from_bytes(b"STMt"), StatEvent::Timer));
    assert!(matches!(StatEvent::from_bytes(b"STMs"), StatEvent::TrackStarted));
    assert!(matches!(StatEvent::from_bytes(b"STMd"), StatEvent::DecoderReady));
    assert!(matches!(StatEvent::from_bytes(b"STMu"), StatEvent::Underrun));
    assert!(matches!(StatEvent::from_bytes(b"STMo"), StatEvent::OutputUnderrun));
    assert!(matches!(StatEvent::from_bytes(b"STMx"), StatEvent::Unknown(b) if &b == b"STMx"));
}

#[test]
fn big_endian_readers() {
    let d = [1u8, 2, 3, 4, 5, 6, 7, 8, 9];
    assert_eq!(read_u16_be(&d, 1), 0x0203);
    assert_eq!(read_u32_be(&d, 0), 0x01020304);
    assert_eq!(read_u64_be(&d, 1), 0x0203040506070809);
    assert_eq!(read_u32_be(&d, 6), 0);
    assert_eq!(read_u64_be(&d, 2), 0);
}

fn helo_payload(caps: &str) -> Vec<u8> {
    let mut d = vec![12u8, 3, 0xaa, 0xbb, 0xcc, 0xdd, 0xee, 0xff];
    d.extend_from_slice(&[0u8; 28]);
    d.extend_from_slice(caps.as_bytes());
    d
}

#[test]
fn helo_with_capabilities() {
    match parse_helo(&helo_payload("Model=squeezelite,MaxSampleRate=192000")) {
        ClientMessage::Helo(h) => {
            assert_eq!(h.device_id, 12);
            assert_eq!(h.revision, 3);
            assert_eq!(h.mac.0, [0xaa, 0xbb, 0xcc, 0xdd, 0xee, 0xff]);
            assert_eq!(h.capabilities, "Model=squeezelite,MaxSampleRate=192000");
        }
        other => panic!("unexpected {:?}", other),
    }
}

#[test]
fn helo_too_short_is_unknown() {
    match parse_helo(&[1, 2, 3]) {
        ClientMessage::Unknown(tag, data) => {
            assert_eq!(tag, "HELO");
            assert_eq!(data, vec![1, 2, 3]);
        }
        other => panic!("unexpected {:?}", other),
    }
    match parse_helo(&helo_payload("")) {
        ClientMessage::Helo(h) => assert_eq!(h.capabilities, ""),
        other => panic!("unexpected {:?}", other),
    }
}

#[test]
fn stat_fields() {
    let mut d = vec![0u8; 51];
    d[0..4].copy_from_slice(b"STMt");
    d[25..29].copy_from_slice(&[0, 0, 1, 0]);
    d[37..41].copy_from_slice(&[0, 0, 0, 42]);
    d[43..47].copy_from_slice(&[0, 0, 0x30, 0x39]);
    match parse_stat(&d) {
        ClientMessage::Stat(s) => {
            assert!(matches!(s.event, StatEvent::Timer));
            assert_eq!(s.jiffies, 256);
            assert_eq!(s.elapsed_seconds, 42);
            assert_eq!(s.elapsed_milliseconds, 12345);
            assert_eq!(s.timestamp, 0);
        }
        other => panic!("unexpected {:?}", other),
    }
    assert!(matches!(parse_stat(&[1, 2]), ClientMessage::Unknown(t, _) if t == "STAT"));
}

#[test]
fn butn_short_and_ir_frames() {
    match parse_butn(&[0, 0, 0, 5, 0x76, 0x89, 0x20, 0xdf]) {
        ClientMessage::Butn(b) => {
            assert_eq!(b.timestamp, 5);
            assert_eq!(b.button_code, 0x768920df);
        }
        other => panic!("unexpected {:?}", other),
    }
    match parse_butn(&[0, 0, 0, 1, 0xff, 32, 0x76, 0x89, 0xa0, 0x5f]) {
        ClientMessage::Butn(b) => assert_eq!(b.button_code, 0x7689a05f),
        other => panic!("unexpected {:?}", other),
    }
}

#[test]
fn client_message_dispatch() {
    assert!(matches!(parse_client_message(b"BYE!", &[7]), ClientMessage::Bye(7)));
    assert!(matches!(parse_client_message(b"DSCO", &[]), ClientMessage::Dsco(0)));
    assert!(matches!(parse_client_message(b"SETD", &[0, b'x']), ClientMessage::Setd(v) if v == vec![0, b'x']));
    assert!(matches!(parse_client_message(b"RESP", &[1]), ClientMessage::Resp(_)));
    assert!(matches!(parse_client_message(b"META", &[1]), ClientMessage::Meta(_)));
    assert!(matches!(parse_client_message(b"IR  ", &[0, 0, 0, 1, 0, 0, 0, 2]), ClientMessage::Butn(_)));
    match parse_client_message(b"ABCD", &[9]) {
        ClientMessage::Unknown(t, d) => {
            assert_eq!(t, "ABCD");
            assert_eq!(d, vec![9]);
        }
        other => panic!("unexpected {:?}", other),
    }
}
