// SlimProto binary codec: encode server commands, decode client messages.
//
// Wire format (asymmetric):
//   Server to client: [u16 BE length][4-byte tag][data]   (length counts tag and data)
//   Client to server: [4-byte tag][u32 BE payload length][payload]

use vstd::prelude::*;
use vstd::string::StringSliceAdditionalSpecFns;
use crate::numfmt::{hex2, push_hex2};
use crate::text::{ascii_lower, chars_eq_str, lossy_utf8, push_char, str_chars, to_ascii_lower, utf8_lossy};

verus! {

// ── Big-endian integers ─────────────────────────────────────────────────────

pub open spec fn be16(x: int) -> Seq<u8> {
    seq![((x / 256) % 256) as u8, (x % 256) as u8]
}

pub open spec fn be32(x: int) -> Seq<u8> {
    seq![
        ((x / 0x1000000) % 256) as u8,
        ((x / 0x10000) % 256) as u8,
        ((x / 0x100) % 256) as u8,
        (x % 256) as u8,
    ]
}

/// Value of `n` bytes at `off`, most significant first.
pub open spec fn be_at(s: Seq<u8>, off: int, n: nat) -> int
    decreases n,
{
    if n == 0 {
        0
    } else {
        be_at(s, off, (n - 1) as nat) * 256 + s[off + n - 1] as int
    }
}

/// `read_u16_be`: two bytes at `off`, or 0 when they are not all there.
pub open spec fn read_be16(s: Seq<u8>, off: int) -> u16 {
    if off + 2 > s.len() {
        0
    } else {
        be_at(s, off, 2) as u16
    }
}

/// `read_u32_be`: four bytes at `off`, or 0 when they are not all there.
pub open spec fn read_be32(s: Seq<u8>, off: int) -> u32 {
    if off + 4 > s.len() {
        0
    } else {
        be_at(s, off, 4) as u32
    }
}

/// `read_u64_be`: eight bytes at `off`, or 0 when they are not all there.
pub open spec fn read_be64(s: Seq<u8>, off: int) -> u64 {
    if off + 8 > s.len() {
        0
    } else {
        be_at(s, off, 8) as u64
    }
}

/// A 16-bit value written big-endian reads back as itself.
pub proof fn lemma_be16_roundtrip(x: u16)
    ensures
        read_be16(be16(x as int), 0) == x,
{
    reveal_with_fuel(be_at, 3);
    assert(be_at(be16(x as int), 0, 2) == ((x as int / 256) % 256) * 256 + x as int % 256);
}

/// A 32-bit value written big-endian reads back as itself.
pub proof fn lemma_be32_roundtrip(x: u32)
    ensures
        read_be32(be32(x as int), 0) == x,
{
    reveal_with_fuel(be_at, 5);
    let b = be32(x as int);
    assert(be_at(b, 0, 4) == (((x as int / 0x1000000) % 256) * 256 + (x as int / 0x10000) % 256)
        * 65536 + ((x as int / 0x100) % 256) * 256 + x as int % 256);
}

fn be32_bytes(x: u32) -> (a: [u8; 4])
    ensures
        a@ == be32(x as int),
{
    let a = [(x / 0x1000000) as u8, ((x / 0x10000) % 256) as u8, ((x / 0x100) % 256) as u8, (x % 256) as u8];
    assert(a@ =~= be32(x as int));
    a
}

fn be16_bytes(x: u16) -> (a: [u8; 2])
    ensures
        a@ == be16(x as int),
{
    let a = [(x / 256) as u8, (x % 256) as u8];
    assert(a@ =~= be16(x as int));
    a
}

/// Appends all bytes of `s` to `v`.
fn push_bytes(v: &mut Vec<u8>, s: &[u8])
    ensures
        final(v)@ == old(v)@ + s@,
{
    let mut i: usize = 0;
    while i < s.len()
        invariant
            i <= s@.len(),
            v@ == old(v)@ + s@.take(i as int),
        decreases s@.len() - i,
    {
        v.push(s[i]);
        i = i + 1;
        assert(v@ =~= old(v)@ + s@.take(i as int));
    }
    assert(s@.take(s@.len() as int) =~= s@);
}

/// `n` zero bytes.
pub open spec fn zeros(n: nat) -> Seq<u8> {
    Seq::new(n, |i: int| 0u8)
}

fn push_zeros(v: &mut Vec<u8>, n: usize)
    ensures
        final(v)@ == old(v)@ + zeros(n as nat),
{
    let mut i: usize = 0;
    while i < n
        invariant
            i <= n,
            v@ == old(v)@ + zeros(i as nat),
        decreases n - i,
    {
        v.push(0u8);
        i = i + 1;
        assert(v@ =~= old(v)@ + zeros(i as nat));
    }
}

// ── Server to client commands ──────────────────────────────────────────────

/// A complete server frame: [u16 BE length][tag][data]; the length counts the
/// tag and the data and is kept modulo 2^16, as the `u16` cast keeps it.
pub open spec fn server_frame_spec(tag: Seq<u8>, data: Seq<u8>) -> Seq<u8> {
    be16((4 + data.len()) as int % 0x10000) + tag + data
}

/// The length prefix of a server frame reads back (big-endian) as the
/// length of its tag and data, modulo 2^16.
pub proof fn lemma_server_frame_length(tag: Seq<u8>, data: Seq<u8>)
    ensures
        read_be16(server_frame_spec(tag, data), 0) == (4 + data.len()) % 0x10000,
        server_frame_spec(tag, data).len() == 2 + tag.len() + data.len(),
{
    let x = ((4 + data.len()) % 0x10000) as u16;
    lemma_be16_roundtrip(x);
    let f = server_frame_spec(tag, data);
    reveal_with_fuel(be_at, 3);
    assert(f[0] == be16(x as int)[0] && f[1] == be16(x as int)[1]);
}

/// Build a complete server to client frame: [u16 BE len][tag][data].
pub fn server_frame(tag: &[u8; 4], data: &[u8]) -> (frame: Vec<u8>)
    ensures
        frame@ == server_frame_spec(tag@, data@),
{
    let frame_len: u16 = (((data.len() % 0x10000) + 4) % 0x10000) as u16;
    assert(frame_len == (4 + data@.len()) % 0x10000);
    let mut buf: Vec<u8> = Vec::new();
    let lb = be16_bytes(frame_len);
    push_bytes(&mut buf, &lb);
    push_bytes(&mut buf, tag);
    push_bytes(&mut buf, data);
    buf
}

pub open spec fn tag_strm() -> Seq<u8> {
    seq![('s' as u8), ('t' as u8), ('r' as u8), ('m' as u8)]
}

pub open spec fn tag_audg() -> Seq<u8> {
    seq![('a' as u8), ('u' as u8), ('d' as u8), ('g' as u8)]
}

pub open spec fn tag_aude() -> Seq<u8> {
    seq![('a' as u8), ('u' as u8), ('d' as u8), ('e' as u8)]
}

pub open spec fn tag_vers() -> Seq<u8> {
    seq![('v' as u8), ('e' as u8), ('r' as u8), ('s' as u8)]
}

pub open spec fn tag_setd() -> Seq<u8> {
    seq![('s' as u8), ('e' as u8), ('t' as u8), ('d' as u8)]
}

/// `strm` sub-commands.
#[derive(Debug, Clone, Copy, PartialEq, Eq, Structural)]
pub enum StrmCommand {
    Start,
    Pause,
    Unpause,
    Stop,
    Flush,
    Status,
    Skip,
}

pub open spec fn strm_byte(c: StrmCommand) -> u8 {
    match c {
        StrmCommand::Start => ('s' as u8),
        StrmCommand::Pause => ('p' as u8),
        StrmCommand::Unpause => ('u' as u8),
        StrmCommand::Stop => ('q' as u8),
        StrmCommand::Flush => ('f' as u8),
        StrmCommand::Status => ('t' as u8),
        StrmCommand::Skip => ('a' as u8),
    }
}

impl StrmCommand {
    pub fn as_byte(self) -> (b: u8)
        ensures
            b == strm_byte(self),
    {
        match self {
            StrmCommand::Start => ('s' as u8),
            StrmCommand::Pause => ('p' as u8),
            StrmCommand::Unpause => ('u' as u8),
            StrmCommand::Stop => ('q' as u8),
            StrmCommand::Flush => ('f' as u8),
            StrmCommand::Status => ('t' as u8),
            StrmCommand::Skip => ('a' as u8),
        }
    }
}

/// Audio format hint sent to the player.
#[derive(Debug, Clone, Copy, PartialEq, Eq, Structural)]
pub enum AudioFormat {
    Pcm,
    Mp3,
    Flac,
    Wma,
    Ogg,
    Aac,
    Alac,
}

pub open spec fn format_byte(f: AudioFormat) -> u8 {
    match f {
        AudioFormat::Pcm => ('p' as u8),
        AudioFormat::Mp3 => ('m' as u8),
        AudioFormat::Flac => ('f' as u8),
        AudioFormat::Wma => ('w' as u8),
        AudioFormat::Ogg => ('o' as u8),
        AudioFormat::Aac => ('a' as u8),
        AudioFormat::Alac => ('l' as u8),
    }
}

/// The format a (case-insensitive) file extension stands for; unknown
/// extensions are sent as PCM.
pub open spec fn format_for_extension(ext: Seq<char>) -> AudioFormat {
    let e = ascii_lower(ext);
    if e == "flac"@ {
        AudioFormat::Flac
    } else if e == "mp3"@ {
        AudioFormat::Mp3
    } else if e == "ogg"@ || e == "oga"@ {
        AudioFormat::Ogg
    } else if e == "aac"@ || e == "m4a"@ {
        AudioFormat::Aac
    } else if e == "wav"@ || e == "wave"@ || e == "aif"@ || e == "aiff"@ {
        AudioFormat::Pcm
    } else if e == "wma"@ {
        AudioFormat::Wma
    } else if e == "alac"@ {
        AudioFormat::Alac
    } else {
        AudioFormat::Pcm
    }
}

impl AudioFormat {
    pub fn as_byte(self) -> (b: u8)
        ensures
            b == format_byte(self),
    {
        match self {
            AudioFormat::Pcm => ('p' as u8),
            AudioFormat::Mp3 => ('m' as u8),
            AudioFormat::Flac => ('f' as u8),
            AudioFormat::Wma => ('w' as u8),
            AudioFormat::Ogg => ('o' as u8),
            AudioFormat::Aac => ('a' as u8),
            AudioFormat::Alac => ('l' as u8),
        }
    }

    /// Infer from file extension.
    pub fn from_extension(ext: &str) -> (f: AudioFormat)
        ensures
            f == format_for_extension(ext@),
    {
        let chars = str_chars(ext);
        let low = to_ascii_lower(chars.as_slice());
        let e = low.as_slice();
        if chars_eq_str(e, "flac") {
            AudioFormat::Flac
        } else if chars_eq_str(e, "mp3") {
            AudioFormat::Mp3
        } else if chars_eq_str(e, "ogg") || chars_eq_str(e, "oga") {
            AudioFormat::Ogg
        } else if chars_eq_str(e, "aac") || chars_eq_str(e, "m4a") {
            AudioFormat::Aac
        } else if chars_eq_str(e, "wav") || chars_eq_str(e, "wave") || chars_eq_str(e, "aif")
            || chars_eq_str(e, "aiff") {
            AudioFormat::Pcm
        } else if chars_eq_str(e, "wma") {
            AudioFormat::Wma
        } else if chars_eq_str(e, "alac") {
            AudioFormat::Alac
        } else {
            AudioFormat::Pcm
        }
    }
}

/// Parameters for `strm 's'` (start streaming).
///
/// The replay gain travels as 16.16 fixed point (65536 = unity gain).
pub struct StrmStartParams {
    pub format: AudioFormat,
    pub server_port: u16,
    /// 0.0.0.0 = use the control connection's IP.
    pub server_ip: [u8; 4],
    /// e.g. "GET /stream?player=MAC HTTP/1.0\r\n\r\n"
    pub http_request: String,
    pub replay_gain_fixed: u32,
    /// 0x40 = NO_RESTART_DECODER (gapless)
    pub flags: u8,
    pub transition_type: u8,
    pub transition_period: u8,
    pub threshold_kb: u8,
    pub output_threshold_ds: u8,
}

/// The data of a `strm 's'` command: 24 fixed bytes, then the HTTP request.
pub open spec fn strm_start_bytes(
    format: AudioFormat,
    server_port: u16,
    server_ip: Seq<u8>,
    http_request: Seq<char>,
    replay_gain_fixed: u32,
    flags: u8,
    transition_type: u8,
    transition_period: u8,
    threshold_kb: u8,
    output_threshold_ds: u8,
) -> Seq<u8> {
    seq![
        ('s' as u8),
        ('1' as u8),
        format_byte(format),
        ('?' as u8),
        ('?' as u8),
        ('?' as u8),
        ('?' as u8),
        threshold_kb,
        0u8,
        transition_period,
        transition_type,
        flags,
        output_threshold_ds,
        0u8,
    ] + be32(replay_gain_fixed as int) + be16(server_port as int) + server_ip
        + vstd::utf8::encode_utf8(http_request)
}

pub open spec fn strm_start_data(p: StrmStartParams) -> Seq<u8> {
    strm_start_bytes(
        p.format,
        p.server_port,
        p.server_ip@,
        p.http_request@,
        p.replay_gain_fixed,
        p.flags,
        p.transition_type,
        p.transition_period,
        p.threshold_kb,
        p.output_threshold_ds,
    )
}

/// Encode `strm` command into a complete server frame.
pub fn encode_strm_start(p: &StrmStartParams) -> (frame: Vec<u8>)
    ensures
        frame@ == server_frame_spec(tag_strm(), strm_start_data(*p)),
{
    let req_bytes = p.http_request.as_str().as_bytes();
    let mut data: Vec<u8> = Vec::new();
    data.push(('s' as u8));
    data.push(('1' as u8));
    data.push(p.format.as_byte());
    data.push(('?' as u8));
    data.push(('?' as u8));
    data.push(('?' as u8));
    data.push(('?' as u8));
    data.push(p.threshold_kb);
    data.push(0x00);
    data.push(p.transition_period);
    data.push(p.transition_type);
    data.push(p.flags);
    data.push(p.output_threshold_ds);
    data.push(0x00);
    let rg = be32_bytes(p.replay_gain_fixed);
    push_bytes(&mut data, &rg);
    let port = be16_bytes(p.server_port);
    push_bytes(&mut data, &port);
    push_bytes(&mut data, &p.server_ip);
    push_bytes(&mut data, req_bytes);
    assert(data@ =~= strm_start_data(*p));
    let tag: [u8; 4] = [('s' as u8), ('t' as u8), ('r' as u8), ('m' as u8)];
    assert(tag@ =~= tag_strm());
    server_frame(&tag, data.as_slice())
}

/// The data of a simple `strm` command: 24 bytes, the sub-command first and
/// the timestamp (big-endian) at offset 14.
pub open spec fn strm_simple_data(cmd: StrmCommand, timestamp: u32) -> Seq<u8> {
    seq![strm_byte(cmd)] + zeros(13) + be32(timestamp as int) + zeros(6)
}

/// Encode simple strm sub-commands (pause/unpause/stop/flush/status).
pub fn encode_strm_simple(cmd: StrmCommand, timestamp: u32) -> (frame: Vec<u8>)
    ensures
        frame@ == server_frame_spec(tag_strm(), strm_simple_data(cmd, timestamp)),
{
    let mut data: Vec<u8> = Vec::new();
    data.push(cmd.as_byte());
    push_zeros(&mut data, 13);
    let ts = be32_bytes(timestamp);
    push_bytes(&mut data, &ts);
    push_zeros(&mut data, 6);
    assert(data@ =~= strm_simple_data(cmd, timestamp));
    let tag: [u8; 4] = [('s' as u8), ('t' as u8), ('r' as u8), ('m' as u8)];
    assert(tag@ =~= tag_strm());
    server_frame(&tag, data.as_slice())
}

/// The 16.16 fixed-point gain for a volume in percent (100 = unity).
pub open spec fn gain_for_volume(volume: int) -> int {
    volume * 65536 / 100
}

/// The 16.16 fixed-point gain that a volume of `volume` percent is sent with.
pub fn volume_gain(volume: u8) -> (g: u32)
    ensures
        g == gain_for_volume(volume as int),
{
    ((volume as u32) * 65536) / 100
}

/// The data of an `audg` command: ten zero bytes (old gain, digital volume
/// control, preamp), then the left and right gains, 16.16 fixed point.
pub open spec fn audg_data(left_fixed: u32, right_fixed: u32) -> Seq<u8> {
    zeros(10) + be32(left_fixed as int) + be32(right_fixed as int)
}

/// Encode `audg` (volume) into a server frame; the gains are 16.16 fixed
/// point, 65536 being unity.
pub fn encode_audg(left_fixed: u32, right_fixed: u32) -> (frame: Vec<u8>)
    ensures
        frame@ == server_frame_spec(tag_audg(), audg_data(left_fixed, right_fixed)),
{
    let mut data: Vec<u8> = Vec::new();
    push_zeros(&mut data, 10);
    let l = be32_bytes(left_fixed);
    push_bytes(&mut data, &l);
    let r = be32_bytes(right_fixed);
    push_bytes(&mut data, &r);
    assert(data@ =~= audg_data(left_fixed, right_fixed));
    let tag: [u8; 4] = [('a' as u8), ('u' as u8), ('d' as u8), ('g' as u8)];
    assert(tag@ =~= tag_audg());
    server_frame(&tag, data.as_slice())
}

pub open spec fn bool_byte(b: bool) -> u8 {
    if b {
        1
    } else {
        0
    }
}

/// Encode `aude` (enable DAC/SPDIF) into a server frame.
pub fn encode_aude(spdif: bool, dac: bool) -> (frame: Vec<u8>)
    ensures
        frame@ == server_frame_spec(tag_aude(), seq![bool_byte(spdif), bool_byte(dac)]),
{
    let data: [u8; 2] = [
        if spdif {
            1u8
        } else {
            0u8
        },
        if dac {
            1u8
        } else {
            0u8
        },
    ];
    assert(data@ =~= seq![bool_byte(spdif), bool_byte(dac)]);
    let tag: [u8; 4] = [('a' as u8), ('u' as u8), ('d' as u8), ('e' as u8)];
    assert(tag@ =~= tag_aude());
    server_frame(&tag, &data)
}

/// Encode `vers` (server version string) into a server frame.
pub fn encode_vers(version: &str) -> (frame: Vec<u8>)
    ensures
        frame@ == server_frame_spec(tag_vers(), version.spec_bytes()),
{
    let tag: [u8; 4] = [('v' as u8), ('e' as u8), ('r' as u8), ('s' as u8)];
    assert(tag@ =~= tag_vers());
    server_frame(&tag, version.as_bytes())
}

/// Encode `setd` (query player name, id=0) into a server frame.
pub fn encode_setd_query_name() -> (frame: Vec<u8>)
    ensures
        frame@ == server_frame_spec(tag_setd(), seq![0u8]),
{
    let tag: [u8; 4] = [('s' as u8), ('e' as u8), ('t' as u8), ('d' as u8)];
    assert(tag@ =~= tag_setd());
    let data: [u8; 1] = [0u8];
    assert(data@ =~= seq![0u8]);
    server_frame(&tag, &data)
}

// ── Client to server messages ──────────────────────────────────────────────

/// MAC address as 6 bytes.
#[derive(Clone, Copy, PartialEq, Eq, Hash, Debug)]
pub struct MacAddress(pub [u8; 6]);

/// `aa:bb:cc:dd:ee:ff`, lowercase hex.
pub open spec fn mac_text(m: [u8; 6]) -> Seq<char> {
    hex2(m[0]) + seq![':'] + hex2(m[1]) + seq![':'] + hex2(m[2]) + seq![':'] + hex2(m[3])
        + seq![':'] + hex2(m[4]) + seq![':'] + hex2(m[5])
}

impl MacAddress {
    pub fn to_string(&self) -> (s: String)
        ensures
            s@ == mac_text(self.0),
    {
        let mut s = String::new();
        push_hex2(&mut s, self.0[0]);
        push_char(&mut s, ':');
        push_hex2(&mut s, self.0[1]);
        push_char(&mut s, ':');
        push_hex2(&mut s, self.0[2]);
        push_char(&mut s, ':');
        push_hex2(&mut s, self.0[3]);
        push_char(&mut s, ':');
        push_hex2(&mut s, self.0[4]);
        push_char(&mut s, ':');
        push_hex2(&mut s, self.0[5]);
        assert(s@ =~= mac_text(self.0));
        s
    }

    /// Whether two addresses hold the same bytes.
    pub fn same(&self, other: &MacAddress) -> (r: bool)
        ensures
            r == (self.0@ == other.0@),
    {
        let r = self.0[0] == other.0[0] && self.0[1] == other.0[1] && self.0[2] == other.0[2]
            && self.0[3] == other.0[3] && self.0[4] == other.0[4] && self.0[5] == other.0[5];
        proof {
            if r {
                assert(self.0@ =~= other.0@);
            } else if self.0@ == other.0@ {
                assert(self.0@[0] == other.0@[0] && self.0@[5] == other.0@[5]);
            }
        }
        r
    }
}

/// Parsed HELO message from a player.
#[derive(Debug, Clone)]
pub struct HeloMessage {
    pub device_id: u8,
    pub revision: u8,
    pub mac: MacAddress,
    pub capabilities: String,
}

/// STAT event codes.
#[derive(Debug, Clone, Copy, PartialEq, Eq)]
pub enum StatEvent {
    /// STMt: heartbeat/timer
    Timer,
    /// STMc: connected to streaming endpoint
    Connected,
    /// STMs: track started playing
    TrackStarted,
    /// STMd: decoder ready (input consumed)
    DecoderReady,
    /// STMu: output underrun (track finished normally)
    Underrun,
    /// STMp: paused
    Paused,
    /// STMr: resumed
    Resumed,
    /// STMf: flushed
    Flushed,
    /// STMl: buffer threshold reached
    BufferThreshold,
    /// STMn: format not supported
    NotSupported,
    /// STMo: output buffer underrun (rebuffer)
    OutputUnderrun,
    /// Unknown
    Unknown([u8; 4]),
}

pub open spec fn stm(c: u8) -> Seq<u8> {
    seq![('S' as u8), ('T' as u8), ('M' as u8), c]
}

/// The event a 4-byte STAT code stands for.
pub open spec fn stat_event_of(b: [u8; 4]) -> StatEvent {
    let s = b@;
    if s == stm(('t' as u8)) {
        StatEvent::Timer
    } else if s == stm(('c' as u8)) {
        StatEvent::Connected
    } else if s == stm(('s' as u8)) {
        StatEvent::TrackStarted
    } else if s == stm(('d' as u8)) {
        StatEvent::DecoderReady
    } else if s == stm(('u' as u8)) {
        StatEvent::Underrun
    } else if s == stm(('p' as u8)) {
        StatEvent::Paused
    } else if s == stm(('r' as u8)) {
        StatEvent::Resumed
    } else if s == stm(('f' as u8)) {
        StatEvent::Flushed
    } else if s == stm(('l' as u8)) {
        StatEvent::BufferThreshold
    } else if s == stm(('n' as u8)) {
        StatEvent::NotSupported
    } else if s == stm(('o' as u8)) {
        StatEvent::OutputUnderrun
    } else {
        StatEvent::Unknown(b)
    }
}

impl StatEvent {
    pub fn from_bytes(b: &[u8; 4]) -> (ev: StatEvent)
        ensures
            ev == stat_event_of(*b),
    {
        if b[0] == ('S' as u8) && b[1] == ('T' as u8) && b[2] == ('M' as u8) {
            proof {
                assert(forall|c: u8| b[3] == c ==> b@ =~= stm(c));
            }
            let c = b[3];
            if c == ('t' as u8) {
                StatEvent::Timer
            } else if c == ('c' as u8) {
                StatEvent::Connected
            } else if c == ('s' as u8) {
                StatEvent::TrackStarted
            } else if c == ('d' as u8) {
                StatEvent::DecoderReady
            } else if c == ('u' as u8) {
                StatEvent::Underrun
            } else if c == ('p' as u8) {
                StatEvent::Paused
            } else if c == ('r' as u8) {
                StatEvent::Resumed
            } else if c == ('f' as u8) {
                StatEvent::Flushed
            } else if c == ('l' as u8) {
                StatEvent::BufferThreshold
            } else if c == ('n' as u8) {
                StatEvent::NotSupported
            } else if c == ('o' as u8) {
                StatEvent::OutputUnderrun
            } else {
                proof {
                    assert(forall|d: u8| #![auto] d != c ==> stm(d)[3] != b@[3]);
                }
                StatEvent::Unknown(*b)
            }
        } else {
            proof {
                assert(forall|d: u8| #![auto] stm(d)[0] == ('S' as u8) && stm(d)[1] == ('T' as u8) && stm(d)[2] == ('M' as u8));
            }
            StatEvent::Unknown(*b)
        }
    }
}

/// Parsed STAT message from a player.
#[derive(Debug, Clone, Copy)]
pub struct StatMessage {
    pub event: StatEvent,
    pub buffer_size: u32,
    pub buffer_fullness: u32,
    pub bytes_received: u64,
    pub signal_strength: u16,
    pub jiffies: u32,
    pub output_buffer_size: u32,
    pub output_buffer_fullness: u32,
    pub elapsed_seconds: u32,
    pub elapsed_milliseconds: u32,
    pub timestamp: u32,
}

/// Parsed BUTN message from a player (button press).
#[derive(Debug, Clone, Copy)]
pub struct ButtonMessage {
    pub timestamp: u32,
    pub button_code: u32,
}

/// All possible client messages.
#[derive(Debug, Clone)]
pub enum ClientMessage {
    Helo(HeloMessage),
    Stat(StatMessage),
    Bye(u8),
    Dsco(u8),
    Resp(Vec<u8>),
    Meta(Vec<u8>),
    Setd(Vec<u8>),
    Butn(ButtonMessage),
    Unknown(String, Vec<u8>),
}

/// A client message with its byte and text contents taken as sequences.
pub enum ClientMessageModel {
    Helo { device_id: u8, revision: u8, mac: Seq<u8>, capabilities: Seq<char> },
    Stat(StatMessage),
    Bye(u8),
    Dsco(u8),
    Resp(Seq<u8>),
    Meta(Seq<u8>),
    Setd(Seq<u8>),
    Butn(ButtonMessage),
    Unknown(Seq<char>, Seq<u8>),
}

impl View for ClientMessage {
    type V = ClientMessageModel;

    open spec fn view(&self) -> ClientMessageModel {
        match self {
            ClientMessage::Helo(h) => ClientMessageModel::Helo {
                device_id: h.device_id,
                revision: h.revision,
                mac: h.mac.0@,
                capabilities: h.capabilities@,
            },
            ClientMessage::Stat(s) => ClientMessageModel::Stat(*s),
            ClientMessage::Bye(b) => ClientMessageModel::Bye(*b),
            ClientMessage::Dsco(b) => ClientMessageModel::Dsco(*b),
            ClientMessage::Resp(v) => ClientMessageModel::Resp(v@),
            ClientMessage::Meta(v) => ClientMessageModel::Meta(v@),
            ClientMessage::Setd(v) => ClientMessageModel::Setd(v@),
            ClientMessage::Butn(b) => ClientMessageModel::Butn(*b),
            ClientMessage::Unknown(t, v) => ClientMessageModel::Unknown(t@, v@),
        }
    }
}

pub open spec fn tag4(a: u8, b: u8, c: u8, d: u8) -> Seq<u8> {
    seq![a, b, c, d]
}

pub open spec fn parse_helo_spec(data: Seq<u8>) -> ClientMessageModel {
    if data.len() < 8 {
        ClientMessageModel::Unknown("HELO"@, data)
    } else {
        ClientMessageModel::Helo {
            device_id: data[0],
            revision: data[1],
            mac: data.subrange(2, 8),
            capabilities: if data.len() > 36 {
                lossy_utf8(data.skip(36))
            } else {
                Seq::empty()
            },
        }
    }
}

pub open spec fn parse_stat_spec(data: Seq<u8>) -> ClientMessageModel {
    if data.len() < 4 {
        ClientMessageModel::Unknown("STAT"@, data)
    } else {
        ClientMessageModel::Stat(
            StatMessage {
                event: stat_event_of([data[0], data[1], data[2], data[3]]),
                buffer_size: read_be32(data, 7),
                buffer_fullness: read_be32(data, 11),
                bytes_received: read_be64(data, 15),
                signal_strength: read_be16(data, 23),
                jiffies: read_be32(data, 25),
                output_buffer_size: read_be32(data, 29),
                output_buffer_fullness: read_be32(data, 33),
                elapsed_seconds: read_be32(data, 37),
                elapsed_milliseconds: read_be32(data, 43),
                timestamp: read_be32(data, 47),
            },
        )
    }
}

/// BUTN: timestamp at 0; the code at 6 for IR frames (10 bytes or more), else at 4.
pub open spec fn parse_butn_spec(data: Seq<u8>) -> ClientMessageModel {
    ClientMessageModel::Butn(
        ButtonMessage {
            timestamp: read_be32(data, 0),
            button_code: if data.len() >= 10 {
                read_be32(data, 6)
            } else {
                read_be32(data, 4)
            },
        },
    )
}

pub open spec fn first_or_zero(data: Seq<u8>) -> u8 {
    if data.len() > 0 {
        data[0]
    } else {
        0
    }
}

/// What one client frame `[tag][len][payload]` decodes to.
pub open spec fn parse_client_message_spec(tag: Seq<u8>, payload: Seq<u8>) -> ClientMessageModel {
    if tag == tag4(('H' as u8), ('E' as u8), ('L' as u8), ('O' as u8)) {
        parse_helo_spec(payload)
    } else if tag == tag4(('S' as u8), ('T' as u8), ('A' as u8), ('T' as u8)) {
        parse_stat_spec(payload)
    } else if tag == tag4(('B' as u8), ('Y' as u8), ('E' as u8), ('!' as u8)) {
        ClientMessageModel::Bye(first_or_zero(payload))
    } else if tag == tag4(('D' as u8), ('S' as u8), ('C' as u8), ('O' as u8)) {
        ClientMessageModel::Dsco(first_or_zero(payload))
    } else if tag == tag4(('R' as u8), ('E' as u8), ('S' as u8), ('P' as u8)) {
        ClientMessageModel::Resp(payload)
    } else if tag == tag4(('M' as u8), ('E' as u8), ('T' as u8), ('A' as u8)) {
        ClientMessageModel::Meta(payload)
    } else if tag == tag4(('S' as u8), ('E' as u8), ('T' as u8), ('D' as u8)) {
        ClientMessageModel::Setd(payload)
    } else if tag == tag4(('B' as u8), ('U' as u8), ('T' as u8), ('N' as u8)) || tag == tag4(('I' as u8), ('R' as u8), (' ' as u8), (' ' as u8)) {
        parse_butn_spec(payload)
    } else {
        ClientMessageModel::Unknown(lossy_utf8(tag), payload)
    }
}

fn is_tag(tag: &[u8; 4], a: u8, b: u8, c: u8, d: u8) -> (r: bool)
    ensures
        r == (tag@ == tag4(a, b, c, d)),
{
    let r = tag[0] == a && tag[1] == b && tag[2] == c && tag[3] == d;
    proof {
        if r {
            assert(tag@ =~= tag4(a, b, c, d));
        } else if tag@ == tag4(a, b, c, d) {
            assert(tag@[0] == a && tag@[1] == b && tag@[2] == c && tag@[3] == d);
        }
    }
    r
}

fn slice_to_vec(s: &[u8]) -> (v: Vec<u8>)
    ensures
        v@ == s@,
{
    let mut v: Vec<u8> = Vec::new();
    push_bytes(&mut v, s);
    assert(v@ =~= s@);
    v
}

/// Parse one complete client to server message from `[tag(4)][len(4)][payload(len)]`.
/// Caller must have already read the full frame.
pub fn parse_client_message(tag: &[u8; 4], payload: &[u8]) -> (msg: ClientMessage)
    ensures
        msg@ == parse_client_message_spec(tag@, payload@),
{
    if is_tag(tag, ('H' as u8), ('E' as u8), ('L' as u8), ('O' as u8)) {
        parse_helo(payload)
    } else if is_tag(tag, ('S' as u8), ('T' as u8), ('A' as u8), ('T' as u8)) {
        parse_stat(payload)
    } else if is_tag(tag, ('B' as u8), ('Y' as u8), ('E' as u8), ('!' as u8)) {
        let val = if payload.len() > 0 {
            payload[0]
        } else {
            0
        };
        ClientMessage::Bye(val)
    } else if is_tag(tag, ('D' as u8), ('S' as u8), ('C' as u8), ('O' as u8)) {
        let val = if payload.len() > 0 {
            payload[0]
        } else {
            0
        };
        ClientMessage::Dsco(val)
    } else if is_tag(tag, ('R' as u8), ('E' as u8), ('S' as u8), ('P' as u8)) {
        ClientMessage::Resp(slice_to_vec(payload))
    } else if is_tag(tag, ('M' as u8), ('E' as u8), ('T' as u8), ('A' as u8)) {
        ClientMessage::Meta(slice_to_vec(payload))
    } else if is_tag(tag, ('S' as u8), ('E' as u8), ('T' as u8), ('D' as u8)) {
        ClientMessage::Setd(slice_to_vec(payload))
    } else if is_tag(tag, ('B' as u8), ('U' as u8), ('T' as u8), ('N' as u8)) {
        parse_butn(payload)
    } else if is_tag(tag, ('I' as u8), ('R' as u8), (' ' as u8), (' ' as u8)) {
        parse_butn(payload)
    } else {
        let tag_str = utf8_lossy(tag);
        ClientMessage::Unknown(tag_str, slice_to_vec(payload))
    }
}

pub fn parse_helo(data: &[u8]) -> (msg: ClientMessage)
    ensures
        msg@ == parse_helo_spec(data@),
{
    if data.len() < 8 {
        let t = String::from_str("HELO");
        return ClientMessage::Unknown(t, slice_to_vec(data));
    }
    let device_id = data[0];
    let revision = data[1];
    let mac: [u8; 6] = [data[2], data[3], data[4], data[5], data[6], data[7]];
    assert(mac@ =~= data@.subrange(2, 8));
    let capabilities = if data.len() > 36 {
        let rest = slice_skip_bytes(data, 36);
        utf8_lossy(rest.as_slice())
    } else {
        String::new()
    };
    ClientMessage::Helo(HeloMessage { device_id, revision, mac: MacAddress(mac), capabilities })
}

fn slice_skip_bytes(s: &[u8], k: usize) -> (r: Vec<u8>)
    requires
        k <= s@.len(),
    ensures
        r@ == s@.skip(k as int),
{
    let mut r: Vec<u8> = Vec::new();
    let mut i: usize = k;
    while i < s.len()
        invariant
            k <= i <= s@.len(),
            r@ == s@.subrange(k as int, i as int),
        decreases s@.len() - i,
    {
        r.push(s[i]);
        i = i + 1;
        assert(r@ =~= s@.subrange(k as int, i as int));
    }
    assert(r@ =~= s@.skip(k as int));
    r
}

pub fn read_u16_be(data: &[u8], offset: usize) -> (v: u16)
    requires
        offset + 2 <= usize::MAX,
    ensures
        v == read_be16(data@, offset as int),
{
    if offset + 2 > data.len() {
        return 0;
    }
    reveal_with_fuel(be_at, 3);
    (data[offset] as u16) * 256 + (data[offset + 1] as u16)
}

pub fn read_u32_be(data: &[u8], offset: usize) -> (v: u32)
    requires
        offset + 4 <= usize::MAX,
    ensures
        v == read_be32(data@, offset as int),
{
    if offset + 4 > data.len() {
        return 0;
    }
    reveal_with_fuel(be_at, 5);
    (data[offset] as u32) * 0x1000000 + (data[offset + 1] as u32) * 0x10000 + (data[offset
        + 2] as u32) * 0x100 + (data[offset + 3] as u32)
}

pub fn read_u64_be(data: &[u8], offset: usize) -> (v: u64)
    requires
        offset + 8 <= usize::MAX,
    ensures
        v == read_be64(data@, offset as int),
{
    if offset + 8 > data.len() {
        return 0;
    }
    reveal_with_fuel(be_at, 9);
    (data[offset] as u64) * 0x100000000000000 + (data[offset + 1] as u64) * 0x1000000000000
        + (data[offset + 2] as u64) * 0x10000000000 + (data[offset + 3] as u64) * 0x100000000
        + (data[offset + 4] as u64) * 0x1000000 + (data[offset + 5] as u64) * 0x10000 + (data[offset
        + 6] as u64) * 0x100 + (data[offset + 7] as u64)
}

pub fn parse_stat(data: &[u8]) -> (msg: ClientMessage)
    ensures
        msg@ == parse_stat_spec(data@),
{
    if data.len() < 4 {
        let t = String::from_str("STAT");
        return ClientMessage::Unknown(t, slice_to_vec(data));
    }
    let event_code: [u8; 4] = [data[0], data[1], data[2], data[3]];
    ClientMessage::Stat(
        StatMessage {
            event: StatEvent::from_bytes(&event_code),
            buffer_size: read_u32_be(data, 7),
            buffer_fullness: read_u32_be(data, 11),
            bytes_received: read_u64_be(data, 15),
            signal_strength: read_u16_be(data, 23),
            jiffies: read_u32_be(data, 25),
            output_buffer_size: read_u32_be(data, 29),
            output_buffer_fullness: read_u32_be(data, 33),
            elapsed_seconds: read_u32_be(data, 37),
            elapsed_milliseconds: read_u32_be(data, 43),
            timestamp: read_u32_be(data, 47),
        },
    )
}

pub fn parse_butn(data: &[u8]) -> (msg: ClientMessage)
    ensures
        msg@ == parse_butn_spec(data@),
{
    let timestamp = read_u32_be(data, 0);
    let button_code = if data.len() >= 10 {
        read_u32_be(data, 6)
    } else {
        read_u32_be(data, 4)
    };
    ClientMessage::Butn(ButtonMessage { timestamp, button_code })
}

} // verus!
