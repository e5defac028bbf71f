// Cometd/Bayeux command logic for modern Squeeze players (e.g. Eversolo).
//
// These players use HTTP long-polling instead of the binary SlimProto
// protocol. The JSON transport is handled by the caller; this module decides
// what each request means and what it does to the player.

use vstd::prelude::*;
use crate::numfmt::{
    decimal, decimal_signed, i64_to_decimal, lemma_decimal_digits, lemma_parse_decimal, hex2, hex_padded, hex_digit_value, hex_value, all_hex_digits, lemma_hex_char_value, lemma_parse_hex2, parse_hex_u8, parse_hex_u8_chars, parse_signed,
    parse_signed_chars, parse_unsigned, parse_unsigned_chars, u64_to_hex_padded,
};
use crate::squeeze::codec::{MacAddress, StrmCommand, mac_text};
use crate::squeeze::player::{PlayerState, SqueezePlayer};
use crate::squeeze::server::prepare_current_track;
use crate::squeeze::queue::{QueueTrack, RepeatMode, first_position_with_id, lemma_first_position_with_id, step_back};
use crate::text::{ascii_lower, ascii_lower_char, ascii_upper, ascii_upper_char, chars_eq_str, contains_str, contains_text, push_str, str_chars, string_from_chars};

verus! {

// ── MAC addresses ───────────────────────────────────────────────────────────

/// The pieces of `s` between occurrences of `sep` (as `str::split` yields them).
pub open spec fn split_on(s: Seq<char>, sep: char) -> Seq<Seq<char>>
    decreases s.len(),
{
    if s.len() == 0 {
        seq![Seq::<char>::empty()]
    } else {
        let init = split_on(s.drop_last(), sep);
        if s.last() == sep {
            init.push(Seq::<char>::empty())
        } else {
            init.update(init.len() - 1, init.last().push(s.last()))
        }
    }
}

pub open spec fn hex_byte_or_zero(s: Seq<char>) -> u8 {
    match parse_hex_u8(s) {
        Some(b) => b,
        None => 0,
    }
}

/// `aa:bb:cc:dd:ee:ff` to bytes: exactly six colon-separated pieces, each
/// read as hex (a piece that does not read gives 0); anything else gives all zeros.
pub open spec fn parse_mac_spec(s: Seq<char>) -> [u8; 6] {
    let parts = split_on(s, ':');
    if parts.len() != 6 {
        [0u8, 0u8, 0u8, 0u8, 0u8, 0u8]
    } else {
        [
            hex_byte_or_zero(parts[0]),
            hex_byte_or_zero(parts[1]),
            hex_byte_or_zero(parts[2]),
            hex_byte_or_zero(parts[3]),
            hex_byte_or_zero(parts[4]),
            hex_byte_or_zero(parts[5]),
        ]
    }
}

proof fn lemma_split_nonempty(s: Seq<char>, sep: char)
    ensures
        split_on(s, sep).len() >= 1,
    decreases s.len(),
{
    if s.len() > 0 {
        lemma_split_nonempty(s.drop_last(), sep);
    }
}

/// Text without the separator extends the last piece.
proof fn lemma_split_append_plain(prefix: Seq<char>, b: Seq<char>, sep: char)
    requires
        forall|i: int| 0 <= i < b.len() ==> b[i] != sep,
    ensures
        ({
            let init = split_on(prefix, sep);
            split_on(prefix + b, sep) == init.update(init.len() - 1, init.last() + b)
        }),
    decreases b.len(),
{
    lemma_split_nonempty(prefix, sep);
    let init = split_on(prefix, sep);
    if b.len() == 0 {
        assert(prefix + b =~= prefix);
        assert(init.last() + b =~= init.last());
        assert(init.update(init.len() - 1, init.last()) =~= init);
    } else {
        let b1 = b.drop_last();
        lemma_split_append_plain(prefix, b1, sep);
        assert((prefix + b).drop_last() =~= prefix + b1);
        assert((prefix + b).last() == b.last());
        assert((init.last() + b1).push(b.last()) =~= init.last() + b);
        let mid = init.update(init.len() - 1, init.last() + b1);
        assert(mid.update(mid.len() - 1, mid.last().push(b.last())) =~= init.update(
            init.len() - 1,
            init.last() + b,
        ));
    }
}

/// A separator starts a new, empty piece.
proof fn lemma_split_push_sep(prefix: Seq<char>, sep: char)
    ensures
        split_on(prefix.push(sep), sep) == split_on(prefix, sep).push(Seq::<char>::empty()),
{
    assert(prefix.push(sep).drop_last() =~= prefix);
}

proof fn lemma_hex2_no_colon(b: u8)
    ensures
        forall|i: int| 0 <= i < hex2(b).len() ==> hex2(b)[i] != ':',
{
    lemma_hex_char_value((b / 16) as nat);
    lemma_hex_char_value((b % 16) as nat);
}

/// One colon-free piece, then a colon.
proof fn lemma_split_piece(prefix: Seq<char>, pieces: Seq<Seq<char>>, b: u8)
    requires
        split_on(prefix, ':') == pieces.push(Seq::<char>::empty()),
    ensures
        split_on(prefix + hex2(b), ':') == pieces.push(hex2(b)),
        split_on(prefix + hex2(b) + seq![':'], ':') == pieces.push(hex2(b)).push(
            Seq::<char>::empty(),
        ),
{
    let h = hex2(b);
    let e = Seq::<char>::empty();
    lemma_hex2_no_colon(b);
    lemma_split_append_plain(prefix, h, ':');
    assert(e + h =~= h);
    assert(pieces.push(e).update(pieces.len() as int, h) =~= pieces.push(h));
    lemma_split_push_sep(prefix + h, ':');
    assert((prefix + h).push(':') =~= prefix + h + seq![':']);
}

/// A MAC address written as text (`MacAddress::to_string`) and read back
/// (`parse_mac_address`) is the same address.
pub proof fn lemma_mac_text_roundtrip(m: [u8; 6])
    ensures
        parse_mac_spec(mac_text(m)) == m,
{
    let c = seq![':'];
    let e = Seq::<char>::empty();
    let p0 = Seq::<Seq<char>>::empty();
    assert(split_on(e, ':') == p0.push(e));
    lemma_split_piece(e, p0, m[0]);
    assert(e + hex2(m[0]) =~= hex2(m[0]));
    let a1 = hex2(m[0]) + c;
    let p1 = p0.push(hex2(m[0]));
    lemma_split_piece(a1, p1, m[1]);
    let a2 = a1 + hex2(m[1]) + c;
    let p2 = p1.push(hex2(m[1]));
    lemma_split_piece(a2, p2, m[2]);
    let a3 = a2 + hex2(m[2]) + c;
    let p3 = p2.push(hex2(m[2]));
    lemma_split_piece(a3, p3, m[3]);
    let a4 = a3 + hex2(m[3]) + c;
    let p4 = p3.push(hex2(m[3]));
    lemma_split_piece(a4, p4, m[4]);
    let a5 = a4 + hex2(m[4]) + c;
    let p5 = p4.push(hex2(m[4]));
    lemma_split_piece(a5, p5, m[5]);
    let parts = p5.push(hex2(m[5]));
    assert(mac_text(m) == a5 + hex2(m[5]));
    assert(split_on(mac_text(m), ':') == parts);
    lemma_parse_hex2(m[0]);
    lemma_parse_hex2(m[1]);
    lemma_parse_hex2(m[2]);
    lemma_parse_hex2(m[3]);
    lemma_parse_hex2(m[4]);
    lemma_parse_hex2(m[5]);
    assert(parse_mac_spec(mac_text(m))@ =~= m@);
}

/// A character map that keeps `:`, `+` and the value of every hex digit
/// (as ASCII case changes do).
pub open spec fn keeps_mac_syntax(f: spec_fn(char) -> char) -> bool {
    forall|c: char|
        #![trigger f(c)]
        (f(c) == ':' <==> c == ':') && (f(c) == '+' <==> c == '+') && hex_digit_value(f(c))
            == hex_digit_value(c)
}

proof fn lemma_hex_value_mapped(s: Seq<char>, f: spec_fn(char) -> char)
    requires
        keeps_mac_syntax(f),
    ensures
        hex_value(s.map_values(f)) == hex_value(s),
        all_hex_digits(s.map_values(f)) == all_hex_digits(s),
    decreases s.len(),
{
    let t = s.map_values(f);
    if s.len() > 0 {
        lemma_hex_value_mapped(s.drop_last(), f);
        assert(t.drop_last() =~= s.drop_last().map_values(f));
        assert(t.last() == f(s.last()));
    }
    if all_hex_digits(s) {
        assert forall|i: int| 0 <= i < t.len() implies (#[trigger] hex_digit_value(t[i])) is Some by {
            assert(t[i] == f(s[i]));
            assert(hex_digit_value(s[i]) is Some);
        }
    }
    if all_hex_digits(t) {
        assert forall|i: int| 0 <= i < s.len() implies (#[trigger] hex_digit_value(s[i])) is Some by {
            assert(t[i] == f(s[i]));
            assert(hex_digit_value(t[i]) is Some);
        }
    }
}

proof fn lemma_parse_hex_mapped(s: Seq<char>, f: spec_fn(char) -> char)
    requires
        keeps_mac_syntax(f),
    ensures
        crate::numfmt::parse_hex_u8(s.map_values(f)) == crate::numfmt::parse_hex_u8(s),
{
    let t = s.map_values(f);
    if s.len() > 0 {
        assert(t[0] == f(s[0]));
        assert(t.skip(1) =~= s.skip(1).map_values(f));
        lemma_hex_value_mapped(s.skip(1), f);
    }
    lemma_hex_value_mapped(s, f);
}

proof fn lemma_split_mapped(s: Seq<char>, f: spec_fn(char) -> char)
    requires
        keeps_mac_syntax(f),
    ensures
        split_on(s.map_values(f), ':') == split_on(s, ':').map_values(|p: Seq<char>| p.map_values(f)),
    decreases s.len(),
{
    let g = |p: Seq<char>| p.map_values(f);
    let t = s.map_values(f);
    if s.len() == 0 {
        assert(t =~= Seq::<char>::empty());
        assert(Seq::<char>::empty().map_values(f) =~= Seq::<char>::empty());
        assert(split_on(s, ':').map_values(g) =~= seq![Seq::<char>::empty()]);
    } else {
        lemma_split_mapped(s.drop_last(), f);
        lemma_split_nonempty(s.drop_last(), ':');
        assert(t.drop_last() =~= s.drop_last().map_values(f));
        assert(t.last() == f(s.last()));
        let init = split_on(s.drop_last(), ':');
        assert(Seq::<char>::empty().map_values(f) =~= Seq::<char>::empty());
        if s.last() == ':' {
            assert(g(Seq::<char>::empty()) == Seq::<char>::empty());
            assert(init.push(Seq::<char>::empty()).map_values(g) =~= init.map_values(g).push(
                Seq::<char>::empty(),
            ));
        } else {
            let last = init.last().push(s.last());
            assert(last.map_values(f) =~= init.last().map_values(f).push(f(s.last())));
            assert(init.update(init.len() - 1, last).map_values(g) =~= init.map_values(g).update(
                init.len() - 1,
                init.map_values(g).last().push(f(s.last())),
            ));
        }
    }
}

/// MAC text read through a case-keeping character map parses to the same
/// address.
proof fn lemma_parse_mac_mapped(s: Seq<char>, f: spec_fn(char) -> char)
    requires
        keeps_mac_syntax(f),
    ensures
        parse_mac_spec(s.map_values(f)) == parse_mac_spec(s),
{
    lemma_split_mapped(s, f);
    let parts = split_on(s, ':');
    if parts.len() == 6 {
        lemma_parse_hex_mapped(parts[0], f);
        lemma_parse_hex_mapped(parts[1], f);
        lemma_parse_hex_mapped(parts[2], f);
        lemma_parse_hex_mapped(parts[3], f);
        lemma_parse_hex_mapped(parts[4], f);
        lemma_parse_hex_mapped(parts[5], f);
        assert(parse_mac_spec(s.map_values(f))@ =~= parse_mac_spec(s)@);
    }
}

/// MAC parsing ignores ASCII case: the uppercased and the lowercased text
/// give the same address as the text itself.
pub proof fn lemma_mac_parse_ignores_case(s: Seq<char>)
    ensures
        parse_mac_spec(ascii_upper(s)) == parse_mac_spec(s),
        parse_mac_spec(ascii_lower(s)) == parse_mac_spec(s),
{
    let up = |c: char| ascii_upper_char(c);
    let low = |c: char| ascii_lower_char(c);
    assert forall|c: char| #![trigger up(c)]
        (up(c) == ':' <==> c == ':') && (up(c) == '+' <==> c == '+') && hex_digit_value(up(c))
            == hex_digit_value(c) by {
        if 'a' <= c && c <= 'z' {
            assert(up(c) as u32 == c as u32 - 32);
        }
    }
    assert forall|c: char| #![trigger low(c)]
        (low(c) == ':' <==> c == ':') && (low(c) == '+' <==> c == '+') && hex_digit_value(low(c))
            == hex_digit_value(c) by {
        if 'A' <= c && c <= 'Z' {
            assert(low(c) as u32 == c as u32 + 32);
        }
    }
    lemma_parse_mac_mapped(s, up);
    lemma_parse_mac_mapped(s, low);
    assert(ascii_upper(s) =~= s.map_values(up));
    assert(ascii_lower(s) =~= s.map_values(low));
}

pub fn parse_mac_address(mac_str: &str) -> (m: MacAddress)
    ensures
        m.0 == parse_mac_spec(mac_str@),
{
    let chars = str_chars(mac_str);
    let mut parts: Vec<Vec<char>> = Vec::new();
    parts.push(Vec::new());
    let mut i: usize = 0;
    while i < chars.len()
        invariant
            i <= chars@.len(),
            parts@.len() >= 1,
            parts@.map_values(|p: Vec<char>| p@) =~= split_on(chars@.take(i as int), ':'),
        decreases chars@.len() - i,
    {
        let c = chars[i];
        let ghost before = parts@.map_values(|p: Vec<char>| p@);
        assert(chars@.take(i + 1).drop_last() =~= chars@.take(i as int));
        if c == ':' {
            parts.push(Vec::new());
            assert(parts@.map_values(|p: Vec<char>| p@) =~= before.push(Seq::<char>::empty()));
        } else {
            let last = parts.len() - 1;
            let mut piece = parts[last].clone();
            piece.push(c);
            parts.set(last, piece);
            assert(parts@.map_values(|p: Vec<char>| p@) =~= before.update(
                before.len() - 1,
                before.last().push(c),
            ));
        }
        i = i + 1;
    }
    assert(chars@.take(chars@.len() as int) =~= chars@);
    if parts.len() != 6 {
        return MacAddress([0u8; 6]);
    }
    let mut bytes: [u8; 6] = [0u8; 6];
    let mut k: usize = 0;
    while k < 6
        invariant
            parts@.len() == 6,
            parts@.map_values(|p: Vec<char>| p@) =~= split_on(chars@, ':'),
            k <= 6,
            forall|j: int| 0 <= j < k ==> bytes@[j] == hex_byte_or_zero(parts@[j]@),
        decreases 6 - k,
    {
        let b = match parse_hex_u8_chars(parts[k].as_slice()) {
            Some(b) => b,
            None => 0,
        };
        bytes[k] = b;
        k = k + 1;
    }
    proof {
        let sp = split_on(chars@, ':');
        assert(forall|j: int| 0 <= j < 6 ==> #[trigger] sp[j] == parts@[j]@);
        assert(bytes@ =~= parse_mac_spec(mac_str@)@);
    }
    MacAddress(bytes)
}

// ── Client ids ──────────────────────────────────────────────────────────────

/// The client id handed out for the `counter`-th handshake: at least eight
/// lowercase hex digits (`{:08x}`).
pub fn client_id_for(counter: u64) -> (s: String)
    ensures
        s@ == hex_padded(counter as nat, 8),
{
    u64_to_hex_padded(counter, 8)
}

/// The name a handshaking player gets: the one its `ext` sent, else
/// "Player <mac>".
pub fn handshake_player_name(ext_name: Option<&str>, mac_str: &str) -> (s: String)
    ensures
        match ext_name {
            Some(n) => s@ == n@,
            None => s@ == "Player "@ + mac_str@,
        },
{
    match ext_name {
        Some(n) => String::from_str(n),
        None => {
            let mut s = String::from_str("Player ");
            push_str(&mut s, mac_str);
            s
        },
    }
}

/// Registers a handshake on an already known player (e.g. one connected over
/// SlimProto): it is marked as a CometD player and takes the handshake's
/// name if one was sent; everything else is kept.
pub fn merge_handshake(player: &mut SqueezePlayer, ext_name: Option<&str>)
    ensures
        *final(player) == (SqueezePlayer {
            is_cometd: true,
            name: final(player).name,
            ..*old(player)
        }),
        match ext_name {
            Some(n) => final(player).name@ == n@,
            None => final(player).name == old(player).name,
        },
{
    player.is_cometd = true;
    if let Some(n) = ext_name {
        player.name = String::from_str(n);
    }
}

/// A new CometD player from a handshake: named by the handshake if it sent
/// a name, else "Player <mac>".
pub fn handshake_player(mac: MacAddress, mac_str: &str, uuid: &str, ext_name: Option<&str>) -> (p:
    SqueezePlayer)
    ensures
        p.mac == mac,
        p.is_cometd,
        p.state == PlayerState::Stopped,
        p.queue.wf(),
        p.queue.tracks().len() == 0,
        p.queue.position() is None,
        p.capabilities@ == "cometd,uuid="@ + uuid@,
        p.server_ip@ == seq![127u8, 0, 0, 1],
        p.volume == 80,
        p.elapsed_ms == 0,
        p.seek_offset_ms == 0,
        p.generation == 0,
        p.confirmed_generation is None,
        p.prefetched_generation is None,
        !p.suppress_track_finished,
        p.display_track is None,
        match ext_name {
            Some(n) => p.name@ == n@,
            None => p.name@ == "Player "@ + mac_str@,
        },
{
    let mut p = SqueezePlayer::new_cometd(mac, mac_str, uuid);
    if let Some(n) = ext_name {
        p.name = String::from_str(n);
    }
    p
}

/// How long a `/meta/connect` may be held open: the client's timeout hint
/// in whole seconds, at most 30; `None` (answer at once) for a hint of 0.
pub fn long_poll_seconds(client_timeout_ms: u64) -> (r: Option<u64>)
    ensures
        client_timeout_ms == 0 ==> r is None,
        client_timeout_ms != 0 ==> r == Some(if client_timeout_ms / 1000 < 30 {
            client_timeout_ms / 1000
        } else {
            30
        }),
{
    if client_timeout_ms == 0 {
        None
    } else {
        let s = client_timeout_ms / 1000;
        Some(if s < 30 {
            s
        } else {
            30
        })
    }
}

// ── Slim requests ───────────────────────────────────────────────────────────

/// A JSON number as the command reads it: its value as `u64` and as `i64`,
/// where it has one (serde_json's `as_u64` / `as_i64`).
#[derive(Debug, Clone, Copy)]
pub struct NumberArg {
    pub as_u64: Option<u64>,
    pub as_i64: Option<i64>,
}

/// One element of a slim request command array.
#[derive(Debug, Clone)]
pub enum CmdArg {
    Text(String),
    Number(NumberArg),
    Other,
}

pub enum CmdArgModel {
    Text(Seq<char>),
    Number(NumberArg),
    Other,
}

impl View for CmdArg {
    type V = CmdArgModel;

    open spec fn view(&self) -> CmdArgModel {
        match self {
            CmdArg::Text(s) => CmdArgModel::Text(s@),
            CmdArg::Number(n) => CmdArgModel::Number(*n),
            CmdArg::Other => CmdArgModel::Other,
        }
    }
}

/// What a slim request asks of the server.
#[derive(Debug)]
pub enum SlimRequest {
    ServerStatus,
    Status,
    VolumeQuery,
    VolumeSet(String),
    /// `play`, button `play`: resume if paused
    Play,
    /// `pause 0`: resume if paused
    Unpause,
    /// `pause 1`: pause if playing
    ForcePause,
    /// `pause`, button `pause`: toggle
    TogglePause,
    /// `stop`, `power 0`
    Stop,
    SkipForward,
    SkipBackward,
    JumpTo(usize),
    SetRepeat(RepeatMode),
    SetShuffle(bool),
    /// `time <seconds>`: seek to the number in argument 1
    Seek,
    /// `name [<new name>|?]`: report the name, after setting it if given
    Name(Option<String>),
    /// `playerpref playername <name>`
    SetPlayerName(String),
    /// Nothing to do
    Ignored,
}

pub enum SlimRequestModel {
    ServerStatus,
    Status,
    VolumeQuery,
    VolumeSet(Seq<char>),
    Play,
    Unpause,
    ForcePause,
    TogglePause,
    Stop,
    SkipForward,
    SkipBackward,
    JumpTo(usize),
    SetRepeat(RepeatMode),
    SetShuffle(bool),
    Seek,
    Name(Option<Seq<char>>),
    SetPlayerName(Seq<char>),
    Ignored,
}

impl View for SlimRequest {
    type V = SlimRequestModel;

    open spec fn view(&self) -> SlimRequestModel {
        match self {
            SlimRequest::ServerStatus => SlimRequestModel::ServerStatus,
            SlimRequest::Status => SlimRequestModel::Status,
            SlimRequest::VolumeQuery => SlimRequestModel::VolumeQuery,
            SlimRequest::VolumeSet(s) => SlimRequestModel::VolumeSet(s@),
            SlimRequest::Play => SlimRequestModel::Play,
            SlimRequest::Unpause => SlimRequestModel::Unpause,
            SlimRequest::ForcePause => SlimRequestModel::ForcePause,
            SlimRequest::TogglePause => SlimRequestModel::TogglePause,
            SlimRequest::Stop => SlimRequestModel::Stop,
            SlimRequest::SkipForward => SlimRequestModel::SkipForward,
            SlimRequest::SkipBackward => SlimRequestModel::SkipBackward,
            SlimRequest::JumpTo(i) => SlimRequestModel::JumpTo(*i),
            SlimRequest::SetRepeat(r) => SlimRequestModel::SetRepeat(*r),
            SlimRequest::SetShuffle(b) => SlimRequestModel::SetShuffle(*b),
            SlimRequest::Seek => SlimRequestModel::Seek,
            SlimRequest::Name(n) => SlimRequestModel::Name(
                match n {
                    Some(s) => Some(s@),
                    None => None,
                },
            ),
            SlimRequest::SetPlayerName(s) => SlimRequestModel::SetPlayerName(s@),
            SlimRequest::Ignored => SlimRequestModel::Ignored,
        }
    }
}

/// The command array as the specs read it.
pub open spec fn args_view(cmd: Seq<CmdArg>) -> Seq<CmdArgModel> {
    cmd.map_values(|a: CmdArg| a@)
}

/// Argument `i` as text (`as_str`), if it is a string.
pub open spec fn arg_str(cmd: Seq<CmdArgModel>, i: int) -> Option<Seq<char>> {
    if 0 <= i < cmd.len() {
        match cmd[i] {
            CmdArgModel::Text(s) => Some(s),
            _ => None,
        }
    } else {
        None
    }
}

pub open spec fn str_or(o: Option<Seq<char>>, d: Seq<char>) -> Seq<char> {
    match o {
        Some(s) => s,
        None => d,
    }
}

/// Argument `i` as a switch value: its text, an empty text for an unsigned
/// number, or `default` when absent or of another kind.
pub open spec fn arg_switch(cmd: Seq<CmdArgModel>, i: int, default: Seq<char>) -> Seq<char> {
    if 0 <= i < cmd.len() {
        match cmd[i] {
            CmdArgModel::Text(s) => s,
            CmdArgModel::Number(n) => if n.as_u64 is Some {
                Seq::empty()
            } else {
                default
            },
            CmdArgModel::Other => default,
        }
    } else {
        default
    }
}

/// The `pause` argument: its text, or the decimal of an unsigned number.
pub open spec fn pause_arg(cmd: Seq<CmdArgModel>) -> Option<Seq<char>> {
    if 1 < cmd.len() {
        match cmd[1] {
            CmdArgModel::Text(s) => Some(s),
            CmdArgModel::Number(n) => match n.as_u64 {
                Some(v) => Some(decimal(v as nat)),
                None => None,
            },
            CmdArgModel::Other => None,
        }
    } else {
        None
    }
}

/// The `playlist index` argument as text: a string as is, a positive
/// integer as "+n", another integer in decimal; "0" when absent.
pub open spec fn index_arg(cmd: Seq<CmdArgModel>) -> Seq<char> {
    if 2 < cmd.len() {
        match cmd[2] {
            CmdArgModel::Text(s) => s,
            CmdArgModel::Number(n) => match n.as_i64 {
                Some(v) => if v > 0 {
                    seq!['+'] + decimal(v as nat)
                } else {
                    decimal_signed(v as int)
                },
                None => "0"@,
            },
            CmdArgModel::Other => "0"@,
        }
    } else {
        "0"@
    }
}

pub open spec fn classify_playlist(cmd: Seq<CmdArgModel>) -> SlimRequestModel {
    let sub = str_or(arg_str(cmd, 1), Seq::empty());
    if sub == "index"@ || sub == "jump"@ {
        let idx = index_arg(cmd);
        if idx == "+1"@ {
            SlimRequestModel::SkipForward
        } else if idx == "-1"@ {
            SlimRequestModel::SkipBackward
        } else {
            match parse_unsigned(idx, usize::MAX as nat) {
                Some(k) => SlimRequestModel::JumpTo(k as usize),
                None => SlimRequestModel::Ignored,
            }
        }
    } else if sub == "repeat"@ {
        let v = arg_switch(cmd, 2, "0"@);
        SlimRequestModel::SetRepeat(
            if v == "1"@ {
                RepeatMode::One
            } else if v == "2"@ {
                RepeatMode::All
            } else {
                RepeatMode::Off
            },
        )
    } else if sub == "shuffle"@ {
        SlimRequestModel::SetShuffle(arg_switch(cmd, 2, "0"@) != "0"@)
    } else {
        SlimRequestModel::Ignored
    }
}

pub open spec fn classify_button(cmd: Seq<CmdArgModel>) -> SlimRequestModel {
    let b = str_or(arg_str(cmd, 1), Seq::empty());
    if b == "fwd"@ || b == "fwd.single"@ || b == "fwd.hold"@ {
        SlimRequestModel::SkipForward
    } else if b == "rew"@ || b == "rew.single"@ || b == "rew.hold"@ {
        SlimRequestModel::SkipBackward
    } else if b == "pause"@ || b == "pause.single"@ {
        SlimRequestModel::TogglePause
    } else if b == "play"@ || b == "play.single"@ {
        SlimRequestModel::Play
    } else {
        SlimRequestModel::Ignored
    }
}

/// What the command array `cmd` (`request[1]`) for player `player_id` asks.
/// Every command but `serverstatus` needs a player id.
pub open spec fn classify_spec(player_id: Seq<char>, cmd: Seq<CmdArgModel>) -> SlimRequestModel {
    let name = str_or(arg_str(cmd, 0), Seq::empty());
    if name == "serverstatus"@ {
        SlimRequestModel::ServerStatus
    } else if player_id.len() == 0 {
        SlimRequestModel::Ignored
    } else if name == "status"@ {
        SlimRequestModel::Status
    } else if name == "mixer"@ {
        if str_or(arg_str(cmd, 1), Seq::empty()) == "volume"@ {
            match arg_str(cmd, 2) {
                Some(v) => if v == "?"@ {
                    SlimRequestModel::VolumeQuery
                } else {
                    SlimRequestModel::VolumeSet(v)
                },
                None => SlimRequestModel::Ignored,
            }
        } else {
            SlimRequestModel::Ignored
        }
    } else if name == "play"@ {
        SlimRequestModel::Play
    } else if name == "pause"@ {
        match pause_arg(cmd) {
            Some(v) => if v == "0"@ {
                SlimRequestModel::Unpause
            } else if v == "1"@ {
                SlimRequestModel::ForcePause
            } else {
                SlimRequestModel::TogglePause
            },
            None => SlimRequestModel::TogglePause,
        }
    } else if name == "stop"@ {
        SlimRequestModel::Stop
    } else if name == "playlist"@ {
        classify_playlist(cmd)
    } else if name == "button"@ {
        classify_button(cmd)
    } else if name == "time"@ {
        if cmd.len() > 1 {
            SlimRequestModel::Seek
        } else {
            SlimRequestModel::Ignored
        }
    } else if name == "power"@ {
        if arg_switch(cmd, 1, "1"@) == "0"@ {
            SlimRequestModel::Stop
        } else {
            SlimRequestModel::Ignored
        }
    } else if name == "name"@ {
        let v = str_or(arg_str(cmd, 1), "?"@);
        SlimRequestModel::Name(
            if v != "?"@ && v.len() != 0 {
                Some(v)
            } else {
                None
            },
        )
    } else if name == "playerpref"@ {
        if str_or(arg_str(cmd, 1), Seq::empty()) == "playername"@ {
            match arg_str(cmd, 2) {
                Some(v) => if v.len() != 0 && v != "?"@ {
                    SlimRequestModel::SetPlayerName(v)
                } else {
                    SlimRequestModel::Ignored
                },
                None => SlimRequestModel::Ignored,
            }
        } else {
            SlimRequestModel::Ignored
        }
    } else {
        SlimRequestModel::Ignored
    }
}

// ── Laws of the request vocabulary ──────────────────────────────────────────

/// Facts every request law needs: the command word of a request is its first
/// argument's text.
proof fn lemma_first_word(cmd: Seq<CmdArgModel>, w: Seq<char>)
    requires
        cmd.len() >= 1,
        cmd[0] == CmdArgModel::Text(w),
    ensures
        str_or(arg_str(cmd, 0), Seq::empty()) == w,
{
}

/// The `playlist` requests of a player. "playlist repeat <v>": "0" turns
/// repeat off, "1" repeats the current track, "2" repeats the whole queue.
/// "playlist shuffle <v>": shuffle is on for anything but "0". "playlist
/// index <v>" (or "jump"): "+1" skips forward, "-1" back, and a plain
/// decimal position `k` jumps to position `k`.
pub proof fn lemma_classify_playlist(player_id: Seq<char>, cmd: Seq<CmdArgModel>, sub: Seq<char>, v: Seq<char>, k: usize)
    requires
        player_id.len() > 0,
        cmd.len() >= 3,
        cmd[0] == CmdArgModel::Text("playlist"@),
        cmd[1] == CmdArgModel::Text(sub),
        cmd[2] == CmdArgModel::Text(v),
    ensures
        sub == "repeat"@ && v == "0"@ ==> classify_spec(player_id, cmd) == SlimRequestModel::SetRepeat(RepeatMode::Off),
        sub == "repeat"@ && v == "1"@ ==> classify_spec(player_id, cmd) == SlimRequestModel::SetRepeat(RepeatMode::One),
        sub == "repeat"@ && v == "2"@ ==> classify_spec(player_id, cmd) == SlimRequestModel::SetRepeat(RepeatMode::All),
        sub == "shuffle"@ ==> classify_spec(player_id, cmd) == SlimRequestModel::SetShuffle(v != "0"@),
        (sub == "index"@ || sub == "jump"@) && v == "+1"@ ==> classify_spec(player_id, cmd) == SlimRequestModel::SkipForward,
        (sub == "index"@ || sub == "jump"@) && v == "-1"@ ==> classify_spec(player_id, cmd) == SlimRequestModel::SkipBackward,
        (sub == "index"@ || sub == "jump"@) && v == decimal(k as nat) ==> classify_spec(player_id, cmd) == SlimRequestModel::JumpTo(k),
{
    {
        reveal_strlit("+1");
        reveal_strlit("-1");
        reveal_strlit("0");
        reveal_strlit("1");
        reveal_strlit("2");
        reveal_strlit("button");
        reveal_strlit("index");
        reveal_strlit("jump");
        reveal_strlit("mixer");
        reveal_strlit("name");
        reveal_strlit("pause");
        reveal_strlit("play");
        reveal_strlit("playerpref");
        reveal_strlit("playlist");
        reveal_strlit("power");
        reveal_strlit("repeat");
        reveal_strlit("serverstatus");
        reveal_strlit("shuffle");
        reveal_strlit("status");
        reveal_strlit("stop");
        reveal_strlit("time");
        assert("playlist"@.len() != "serverstatus"@.len());
        assert("playlist"@.len() != "status"@.len());
        assert("playlist"@.len() != "mixer"@.len());
        assert("playlist"@.len() != "play"@.len());
        assert("playlist"@.len() != "pause"@.len());
        assert("playlist"@.len() != "stop"@.len());
        assert("repeat"@.len() != "index"@.len());
        assert("repeat"@.len() != "jump"@.len());
        assert("shuffle"@.len() != "index"@.len());
        assert("shuffle"@.len() != "jump"@.len());
        assert("shuffle"@.len() != "repeat"@.len());
        assert("0"@[0] != "1"@[0]);
        assert("0"@[0] != "2"@[0]);
        assert("1"@[0] != "2"@[0]);
        assert("+1"@[0] != "-1"@[0]);
    }
    lemma_first_word(cmd, "playlist"@);
    lemma_decimal_digits(k as nat);
    lemma_parse_decimal(k as nat, usize::MAX as nat);
    if v == decimal(k as nat) {
        assert(v[0] != "+1"@[0]);
        assert(v[0] != "-1"@[0]);
    }
}

/// Remote-control buttons named in a `button` request: "fwd" skips forward,
/// "rew" skips back, "pause" toggles pause and "play" plays.
pub proof fn lemma_classify_button(player_id: Seq<char>, cmd: Seq<CmdArgModel>, b: Seq<char>)
    requires
        player_id.len() > 0,
        cmd.len() >= 2,
        cmd[0] == CmdArgModel::Text("button"@),
        cmd[1] == CmdArgModel::Text(b),
    ensures
        b == "fwd"@ ==> classify_spec(player_id, cmd) == SlimRequestModel::SkipForward,
        b == "rew"@ ==> classify_spec(player_id, cmd) == SlimRequestModel::SkipBackward,
        b == "pause"@ ==> classify_spec(player_id, cmd) == SlimRequestModel::TogglePause,
        b == "play"@ ==> classify_spec(player_id, cmd) == SlimRequestModel::Play,
{
    {
        reveal_strlit("button");
        reveal_strlit("fwd");
        reveal_strlit("fwd.hold");
        reveal_strlit("fwd.single");
        reveal_strlit("mixer");
        reveal_strlit("name");
        reveal_strlit("pause");
        reveal_strlit("pause.single");
        reveal_strlit("play");
        reveal_strlit("play.single");
        reveal_strlit("playerpref");
        reveal_strlit("playlist");
        reveal_strlit("power");
        reveal_strlit("rew");
        reveal_strlit("rew.hold");
        reveal_strlit("rew.single");
        reveal_strlit("serverstatus");
        reveal_strlit("status");
        reveal_strlit("stop");
        reveal_strlit("time");
        assert("button"@.len() != "serverstatus"@.len());
        assert("button"@[0] != "status"@[0]);
        assert("button"@.len() != "mixer"@.len());
        assert("button"@.len() != "play"@.len());
        assert("button"@.len() != "pause"@.len());
        assert("button"@.len() != "stop"@.len());
        assert("button"@.len() != "playlist"@.len());
        assert("rew"@[0] != "fwd"@[0]);
        assert("rew"@.len() != "fwd.single"@.len());
        assert("rew"@.len() != "fwd.hold"@.len());
        assert("pause"@.len() != "fwd"@.len());
        assert("pause"@.len() != "fwd.single"@.len());
        assert("pause"@.len() != "fwd.hold"@.len());
        assert("pause"@.len() != "rew"@.len());
        assert("pause"@.len() != "rew.single"@.len());
        assert("pause"@.len() != "rew.hold"@.len());
        assert("play"@.len() != "fwd"@.len());
        assert("play"@.len() != "fwd.single"@.len());
        assert("play"@.len() != "fwd.hold"@.len());
        assert("play"@.len() != "rew"@.len());
        assert("play"@.len() != "rew.single"@.len());
        assert("play"@.len() != "rew.hold"@.len());
        assert("play"@.len() != "pause"@.len());
        assert("play"@.len() != "pause.single"@.len());
    }
    lemma_first_word(cmd, "button"@);
}

/// The one-word requests and the player-free one: "serverstatus" asks for
/// the server's status from anyone; without a player id nothing else is
/// done. For a player, "status" asks for its status, "play" plays, "stop"
/// and "power 0" stop, a bare "pause" toggles, "pause 0" resumes and
/// "pause 1" pauses; "mixer volume ?" asks for the volume and "mixer volume
/// <v>" sets it from `v`.
pub proof fn lemma_classify_commands(player_id: Seq<char>, cmd: Seq<CmdArgModel>, w: Seq<char>, arg: Seq<char>, v: Seq<char>)
    requires
        cmd.len() >= 1,
        cmd[0] == CmdArgModel::Text(w),
    ensures
        w == "serverstatus"@ ==> classify_spec(player_id, cmd) == SlimRequestModel::ServerStatus,
        w != "serverstatus"@ && player_id.len() == 0 ==> classify_spec(player_id, cmd) == SlimRequestModel::Ignored,
        player_id.len() > 0 && w == "status"@ ==> classify_spec(player_id, cmd) == SlimRequestModel::Status,
        player_id.len() > 0 && w == "play"@ ==> classify_spec(player_id, cmd) == SlimRequestModel::Play,
        player_id.len() > 0 && w == "stop"@ ==> classify_spec(player_id, cmd) == SlimRequestModel::Stop,
        player_id.len() > 0 && w == "pause"@ && cmd.len() == 1 ==> classify_spec(player_id, cmd) == SlimRequestModel::TogglePause,
        player_id.len() > 0 && w == "pause"@ && cmd.len() >= 2 && cmd[1] == CmdArgModel::Text(arg) && arg == "0"@
            ==> classify_spec(player_id, cmd) == SlimRequestModel::Unpause,
        player_id.len() > 0 && w == "pause"@ && cmd.len() >= 2 && cmd[1] == CmdArgModel::Text(arg) && arg == "1"@
            ==> classify_spec(player_id, cmd) == SlimRequestModel::ForcePause,
        player_id.len() > 0 && w == "power"@ && cmd.len() >= 2 && cmd[1] == CmdArgModel::Text(arg) && arg == "0"@
            ==> classify_spec(player_id, cmd) == SlimRequestModel::Stop,
        player_id.len() > 0 && w == "mixer"@ && cmd.len() >= 3 && cmd[1] == CmdArgModel::Text("volume"@) && cmd[2] == CmdArgModel::Text(v)
            ==> classify_spec(player_id, cmd) == if v == "?"@ {
                SlimRequestModel::VolumeQuery
            } else {
                SlimRequestModel::VolumeSet(v)
            },
{
    {
        reveal_strlit("0");
        reveal_strlit("1");
        reveal_strlit("?");
        reveal_strlit("button");
        reveal_strlit("mixer");
        reveal_strlit("name");
        reveal_strlit("pause");
        reveal_strlit("play");
        reveal_strlit("playerpref");
        reveal_strlit("playlist");
        reveal_strlit("power");
        reveal_strlit("serverstatus");
        reveal_strlit("status");
        reveal_strlit("stop");
        reveal_strlit("time");
        reveal_strlit("volume");
        assert("status"@.len() != "serverstatus"@.len());
        assert("mixer"@.len() != "serverstatus"@.len());
        assert("mixer"@.len() != "status"@.len());
        assert("play"@.len() != "serverstatus"@.len());
        assert("play"@.len() != "status"@.len());
        assert("play"@.len() != "mixer"@.len());
        assert("pause"@.len() != "serverstatus"@.len());
        assert("pause"@.len() != "status"@.len());
        assert("pause"@[0] != "mixer"@[0]);
        assert("pause"@.len() != "play"@.len());
        assert("stop"@.len() != "serverstatus"@.len());
        assert("stop"@.len() != "status"@.len());
        assert("stop"@.len() != "mixer"@.len());
        assert("stop"@[0] != "play"@[0]);
        assert("stop"@.len() != "pause"@.len());
        assert("power"@.len() != "serverstatus"@.len());
        assert("power"@.len() != "status"@.len());
        assert("power"@[0] != "mixer"@[0]);
        assert("power"@.len() != "play"@.len());
        assert("power"@[1] != "pause"@[1]);
        assert("power"@.len() != "stop"@.len());
        assert("power"@.len() != "playlist"@.len());
        assert("power"@.len() != "button"@.len());
        assert("power"@.len() != "time"@.len());
        assert("0"@[0] != "1"@[0]);
    }
    lemma_first_word(cmd, w);
}

/// The requests about time and names: "time <x>" seeks; "name <n>" renames
/// the player to `n` and reports it, while a bare "name" or "name ?" only
/// reports; "playerpref playername <n>" renames to `n` (not empty, not "?").
pub proof fn lemma_classify_names(player_id: Seq<char>, cmd: Seq<CmdArgModel>, w: Seq<char>, n: Seq<char>)
    requires
        player_id.len() > 0,
        cmd.len() >= 1,
        cmd[0] == CmdArgModel::Text(w),
    ensures
        w == "time"@ && cmd.len() >= 2 ==> classify_spec(player_id, cmd) == SlimRequestModel::Seek,
        w == "name"@ && cmd.len() == 1 ==> classify_spec(player_id, cmd) == SlimRequestModel::Name(None),
        w == "name"@ && cmd.len() >= 2 && cmd[1] == CmdArgModel::Text(n) ==> classify_spec(player_id, cmd)
            == SlimRequestModel::Name(if n.len() != 0 && n != "?"@ {
                Some(n)
            } else {
                None
            }),
        w == "playerpref"@ && cmd.len() >= 3 && cmd[1] == CmdArgModel::Text("playername"@) && cmd[2]
            == CmdArgModel::Text(n) && n.len() != 0 && n != "?"@ ==> classify_spec(player_id, cmd)
            == SlimRequestModel::SetPlayerName(n),
{
    {
        reveal_strlit("?");
        reveal_strlit("button");
        reveal_strlit("mixer");
        reveal_strlit("name");
        reveal_strlit("pause");
        reveal_strlit("play");
        reveal_strlit("playername");
        reveal_strlit("playerpref");
        reveal_strlit("playlist");
        reveal_strlit("power");
        reveal_strlit("serverstatus");
        reveal_strlit("status");
        reveal_strlit("stop");
        reveal_strlit("time");
        assert("time"@.len() != "serverstatus"@.len());
        assert("time"@.len() != "status"@.len());
        assert("time"@.len() != "mixer"@.len());
        assert("time"@[0] != "play"@[0]);
        assert("time"@.len() != "pause"@.len());
        assert("time"@[0] != "stop"@[0]);
        assert("time"@.len() != "playlist"@.len());
        assert("time"@.len() != "button"@.len());
        assert("name"@.len() != "serverstatus"@.len());
        assert("name"@.len() != "status"@.len());
        assert("name"@.len() != "mixer"@.len());
        assert("name"@[0] != "play"@[0]);
        assert("name"@.len() != "pause"@.len());
        assert("name"@[0] != "stop"@[0]);
        assert("name"@.len() != "playlist"@.len());
        assert("name"@.len() != "button"@.len());
        assert("name"@[0] != "time"@[0]);
        assert("name"@.len() != "power"@.len());
        assert("playerpref"@.len() != "serverstatus"@.len());
        assert("playerpref"@.len() != "status"@.len());
        assert("playerpref"@.len() != "mixer"@.len());
        assert("playerpref"@.len() != "play"@.len());
        assert("playerpref"@.len() != "pause"@.len());
        assert("playerpref"@.len() != "stop"@.len());
        assert("playerpref"@.len() != "playlist"@.len());
        assert("playerpref"@.len() != "button"@.len());
        assert("playerpref"@.len() != "time"@.len());
        assert("playerpref"@.len() != "power"@.len());
        assert("playerpref"@.len() != "name"@.len());
    }
    lemma_first_word(cmd, w);
}

fn arg_text(cmd: &[CmdArg], i: usize) -> (r: Option<Vec<char>>)
    ensures
        match arg_str(args_view(cmd@), i as int) {
            Some(s) => r matches Some(v) && v@ == s,
            None => r is None,
        },
{
    if i < cmd.len() {
        match &cmd[i] {
            CmdArg::Text(s) => Some(str_chars(s.as_str())),
            _ => None,
        }
    } else {
        None
    }
}

fn arg_text_or(cmd: &[CmdArg], i: usize, default: &str) -> (r: Vec<char>)
    ensures
        r@ == str_or(arg_str(args_view(cmd@), i as int), default@),
{
    match arg_text(cmd, i) {
        Some(v) => v,
        None => str_chars(default),
    }
}

fn arg_switch_text(cmd: &[CmdArg], i: usize, default: &str) -> (r: Vec<char>)
    ensures
        r@ == arg_switch(args_view(cmd@), i as int, default@),
{
    if i < cmd.len() {
        match &cmd[i] {
            CmdArg::Text(s) => str_chars(s.as_str()),
            CmdArg::Number(n) => {
                if n.as_u64.is_some() {
                    Vec::new()
                } else {
                    str_chars(default)
                }
            },
            CmdArg::Other => str_chars(default),
        }
    } else {
        str_chars(default)
    }
}

fn text_is(s: &[char], lit: &str) -> (r: bool)
    ensures
        r == (s@ == lit@),
{
    chars_eq_str(s, lit)
}

fn owned(s: &[char]) -> (r: String)
    ensures
        r@ == s@,
{
    string_from_chars(s)
}

fn classify_playlist_exec(cmd: &[CmdArg]) -> (r: SlimRequest)
    ensures
        r@ == classify_playlist(args_view(cmd@)),
{
    let ghost m = args_view(cmd@);
    proof {
        reveal_strlit("");
        reveal_strlit("+");
    }
    let sub = arg_text_or(cmd, 1, "");
    assert(sub@ == str_or(arg_str(m, 1), Seq::empty()));
    if text_is(&sub, "index") || text_is(&sub, "jump") {
        let idx: Vec<char> = if 2 < cmd.len() {
            match &cmd[2] {
                CmdArg::Text(s) => str_chars(s.as_str()),
                CmdArg::Number(n) => match n.as_i64 {
                    Some(v) => {
                        if v > 0 {
                            let mut t = String::from_str("+");
                            let d = crate::numfmt::u64_to_decimal(v as u64);
                            push_str(&mut t, d.as_str());
                            str_chars(t.as_str())
                        } else {
                            let d = crate::numfmt::i64_to_decimal(v);
                            str_chars(d.as_str())
                        }
                    },
                    None => str_chars("0"),
                },
                CmdArg::Other => str_chars("0"),
            }
        } else {
            str_chars("0")
        };
        assert(idx@ == index_arg(m));
        if text_is(&idx, "+1") {
            SlimRequest::SkipForward
        } else if text_is(&idx, "-1") {
            SlimRequest::SkipBackward
        } else {
            match parse_unsigned_chars(&idx, usize::MAX as u64) {
                Some(k) => SlimRequest::JumpTo(k as usize),
                None => SlimRequest::Ignored,
            }
        }
    } else if text_is(&sub, "repeat") {
        let v = arg_switch_text(cmd, 2, "0");
        let mode = if text_is(&v, "1") {
            RepeatMode::One
        } else if text_is(&v, "2") {
            RepeatMode::All
        } else {
            RepeatMode::Off
        };
        SlimRequest::SetRepeat(mode)
    } else if text_is(&sub, "shuffle") {
        let v = arg_switch_text(cmd, 2, "0");
        SlimRequest::SetShuffle(!text_is(&v, "0"))
    } else {
        SlimRequest::Ignored
    }
}

fn classify_button_exec(cmd: &[CmdArg]) -> (r: SlimRequest)
    ensures
        r@ == classify_button(args_view(cmd@)),
{
    proof {
        reveal_strlit("");
    }
    let b = arg_text_or(cmd, 1, "");
    assert(b@ == str_or(arg_str(args_view(cmd@), 1), Seq::empty()));
    if text_is(&b, "fwd") || text_is(&b, "fwd.single") || text_is(&b, "fwd.hold") {
        SlimRequest::SkipForward
    } else if text_is(&b, "rew") || text_is(&b, "rew.single") || text_is(&b, "rew.hold") {
        SlimRequest::SkipBackward
    } else if text_is(&b, "pause") || text_is(&b, "pause.single") {
        SlimRequest::TogglePause
    } else if text_is(&b, "play") || text_is(&b, "play.single") {
        SlimRequest::Play
    } else {
        SlimRequest::Ignored
    }
}

/// Decides what a slim request (`[player_id, cmd]`) asks.
pub fn classify_request(player_id: &str, cmd: &[CmdArg]) -> (r: SlimRequest)
    ensures
        r@ == classify_spec(player_id@, args_view(cmd@)),
{
    proof {
        reveal_strlit("");
    }
    let name = arg_text_or(cmd, 0, "");
    assert(name@ == str_or(arg_str(args_view(cmd@), 0), Seq::empty()));
    if text_is(&name, "serverstatus") {
        return SlimRequest::ServerStatus;
    }
    if player_id.unicode_len() == 0 {
        return SlimRequest::Ignored;
    }
    if text_is(&name, "status") {
        SlimRequest::Status
    } else if text_is(&name, "mixer") {
        let sub = arg_text_or(cmd, 1, "");
        assert(sub@ == str_or(arg_str(args_view(cmd@), 1), Seq::empty()));
        if text_is(&sub, "volume") {
            match arg_text(cmd, 2) {
                Some(v) => {
                    if text_is(&v, "?") {
                        SlimRequest::VolumeQuery
                    } else {
                        SlimRequest::VolumeSet(owned(&v))
                    }
                },
                None => SlimRequest::Ignored,
            }
        } else {
            SlimRequest::Ignored
        }
    } else if text_is(&name, "play") {
        SlimRequest::Play
    } else if text_is(&name, "pause") {
        let v: Option<Vec<char>> = if 1 < cmd.len() {
            match &cmd[1] {
                CmdArg::Text(s) => Some(str_chars(s.as_str())),
                CmdArg::Number(n) => match n.as_u64 {
                    Some(x) => {
                        let d = crate::numfmt::u64_to_decimal(x);
                        Some(str_chars(d.as_str()))
                    },
                    None => None,
                },
                CmdArg::Other => None,
            }
        } else {
            None
        };
        match v {
            Some(v) => {
                if text_is(&v, "0") {
                    SlimRequest::Unpause
                } else if text_is(&v, "1") {
                    SlimRequest::ForcePause
                } else {
                    SlimRequest::TogglePause
                }
            },
            None => SlimRequest::TogglePause,
        }
    } else if text_is(&name, "stop") {
        SlimRequest::Stop
    } else if text_is(&name, "playlist") {
        classify_playlist_exec(cmd)
    } else if text_is(&name, "button") {
        classify_button_exec(cmd)
    } else if text_is(&name, "time") {
        if cmd.len() > 1 {
            SlimRequest::Seek
        } else {
            SlimRequest::Ignored
        }
    } else if text_is(&name, "power") {
        let v = arg_switch_text(cmd, 1, "1");
        if text_is(&v, "0") {
            SlimRequest::Stop
        } else {
            SlimRequest::Ignored
        }
    } else if text_is(&name, "name") {
        let v = arg_text_or(cmd, 1, "?");
        if !text_is(&v, "?") && v.len() != 0 {
            SlimRequest::Name(Some(owned(&v)))
        } else {
            SlimRequest::Name(None)
        }
    } else if text_is(&name, "playerpref") {
        let key = arg_text_or(cmd, 1, "");
        assert(key@ == str_or(arg_str(args_view(cmd@), 1), Seq::empty()));
        if text_is(&key, "playername") {
            match arg_text(cmd, 2) {
                Some(v) => {
                    if v.len() != 0 && !text_is(&v, "?") {
                        SlimRequest::SetPlayerName(owned(&v))
                    } else {
                        SlimRequest::Ignored
                    }
                },
                None => SlimRequest::Ignored,
            }
        } else {
            SlimRequest::Ignored
        }
    } else {
        SlimRequest::Ignored
    }
}

// ── Effects on the player ───────────────────────────────────────────────────

/// The volume after `mixer volume <arg>`: a signed argument ("+n"/"-n")
/// moves the volume by n within 0..=100 (an unreadable delta moves it by 0);
/// another argument sets it, capped at 100 (an unreadable one keeps it).
pub open spec fn mixer_volume_spec(current: u8, arg: Seq<char>) -> u8 {
    if arg.len() > 0 && (arg[0] == '+' || arg[0] == '-') {
        let delta: int = match parse_signed(arg, -32768, 32767) {
            Some(d) => d,
            None => 0,
        };
        let v = current + delta;
        (if v < 0 {
            0
        } else if v > 100 {
            100
        } else {
            v
        }) as u8
    } else {
        let v: nat = match parse_unsigned(arg, 255) {
            Some(v) => v,
            None => current as nat,
        };
        (if v > 100 {
            100
        } else {
            v
        }) as u8
    }
}

proof fn lemma_signed_decimal(sign: char, n: nat)
    requires
        sign == '+' || sign == '-',
    ensures
        (seq![sign] + decimal(n))[0] == sign,
        (seq![sign] + decimal(n)).len() > 0,
        (seq![sign] + decimal(n)).skip(1) == decimal(n),
        crate::numfmt::all_digits(decimal(n)),
        crate::numfmt::digits_value(decimal(n)) == n,
        decimal(n).len() > 0,
{
    lemma_decimal_digits(n);
    assert((seq![sign] + decimal(n)).skip(1) =~= decimal(n));
}

/// Volume changes: a volume written in decimal (at most 255) sets the volume
/// to it, capped at 100; "+n" raises the current volume by n and "-n"
/// lowers a volume of at most 100 by n, not below 0. Whatever the argument, the new
/// volume is at most 100.
pub proof fn lemma_mixer_volume_moves(current: u8, n: nat, arg: Seq<char>)
    ensures
        n <= 255 ==> mixer_volume_spec(current, decimal(n)) == if n > 100 {
            100
        } else {
            n
        },
        n <= 32767 ==> mixer_volume_spec(current, seq!['+'] + decimal(n)) == if current + n > 100 {
            100
        } else {
            current + n
        },
        current <= 100 && n <= 32768 ==> mixer_volume_spec(current, seq!['-'] + decimal(n))
            == if current < n {
            0
        } else {
            current - n
        },
        mixer_volume_spec(current, arg) <= 100,
{
    if n <= 255 {
        lemma_decimal_digits(n);
        lemma_parse_decimal(n, 255);
    }
    if n <= 32767 {
        lemma_signed_decimal('+', n);
        let s = seq!['+'] + decimal(n);
        assert(parse_signed(s, -32768, 32767) == Some(n as int));
    }
    if n <= 32768 {
        lemma_signed_decimal('-', n);
        let s = seq!['-'] + decimal(n);
        assert(parse_signed(s, -32768, 32767) == Some(-(n as int)));
    }
}

/// Whether `current + delta` stays an `i16`, as the addition requires.
pub open spec fn mixer_delta_fits(current: u8, arg: Seq<char>) -> bool {
    arg.len() > 0 && (arg[0] == '+' || arg[0] == '-') ==> match parse_signed(arg, -32768, 32767) {
        Some(d) => current + d <= 32767,
        None => true,
    }
}

pub fn mixer_volume(current: u8, arg: &str) -> (v: u8)
    requires
        mixer_delta_fits(current, arg@),
    ensures
        v == mixer_volume_spec(current, arg@),
{
    let a = str_chars(arg);
    if a.len() > 0 && (a[0] == '+' || a[0] == '-') {
        let delta: i32 = match parse_signed_chars(&a, 32768, 32767) {
            Some((neg, m)) => if neg {
                -(m as i32)
            } else {
                m as i32
            },
            None => 0,
        };
        let v: i32 = (current as i32) + delta;
        (if v < 0 {
            0
        } else if v > 100 {
            100
        } else {
            v
        }) as u8
    } else {
        let v: u64 = match parse_unsigned_chars(&a, 255) {
            Some(v) => v,
            None => current as u64,
        };
        (if v > 100 {
            100
        } else {
            v
        }) as u8
    }
}

/// Whether `mixer volume <arg>` can be applied: a relative change must keep
/// `volume + delta` within `i16`, the type the sum is computed in.
pub fn mixer_arg_fits(current: u8, arg: &str) -> (b: bool)
    ensures
        b == mixer_delta_fits(current, arg@),
{
    let a = str_chars(arg);
    if a.len() > 0 && (a[0] == '+' || a[0] == '-') {
        match parse_signed_chars(&a, 32768, 32767) {
            Some((neg, m)) => neg || (current as u64) + m <= 32767,
            None => true,
        }
    } else {
        true
    }
}

/// Starts the queue's current track for a CometD player: a new generation,
/// position 0, state Playing. Returns the file and generation to stream, or
/// `None` (nothing changed) without a current track.
pub fn start_current_track(player: &mut SqueezePlayer) -> (r: Option<(String, u64)>)
    requires
        old(player).queue.wf(),
        old(player).generation < u64::MAX,
    ensures
        match old(player).queue.current_track() {
            Some(t) => r matches Some((path, g)) && path@ == t.path@ && g == old(player).generation
                + 1 && *final(player) == (SqueezePlayer {
                generation: g,
                seek_offset_ms: 0,
                elapsed_ms: 0,
                state: PlayerState::Playing,
                ..*old(player)
            }),
            None => r is None && *final(player) == *old(player),
        },
{
    let r = prepare_current_track(player);
    if r.is_some() {
        player.state = PlayerState::Playing;
    }
    r
}

/// Seeks the current track of a CometD player to `position_ms`: a new
/// generation whose stream starts at that offset, state Playing. Returns the
/// file and generation to stream, or `None` (nothing changed) without a
/// current track.
pub fn start_seek(player: &mut SqueezePlayer, position_ms: u32) -> (r: Option<(String, u64)>)
    requires
        old(player).queue.wf(),
        old(player).generation < u64::MAX,
    ensures
        match old(player).queue.current_track() {
            Some(t) => r matches Some((path, g)) && path@ == t.path@ && g == old(player).generation
                + 1 && *final(player) == (SqueezePlayer {
                generation: g,
                seek_offset_ms: position_ms,
                elapsed_ms: position_ms,
                suppress_track_finished: true,
                state: PlayerState::Playing,
                ..*old(player)
            }),
            None => r is None && *final(player) == (SqueezePlayer {
                suppress_track_finished: true,
                ..*old(player)
            }),
        },
{
    player.suppress_track_finished = true;
    let path = match player.queue.current() {
        Some(t) => t.path.clone(),
        None => return None,
    };
    player.generation = player.generation + 1;
    player.seek_offset_ms = position_ms;
    player.elapsed_ms = position_ms;
    player.state = PlayerState::Playing;
    Some((path, player.generation))
}

/// `play` / `pause 0`: a paused player resumes; returns the command to send.
pub fn resume_if_paused(player: &mut SqueezePlayer) -> (cmd: Option<StrmCommand>)
    ensures
        old(player).state == PlayerState::Paused ==> cmd == Some(StrmCommand::Unpause) && *final(player)
            == (SqueezePlayer { state: PlayerState::Playing, ..*old(player) }),
        old(player).state != PlayerState::Paused ==> cmd is None && *final(player) == *old(player),
{
    if player.state == PlayerState::Paused {
        player.state = PlayerState::Playing;
        Some(StrmCommand::Unpause)
    } else {
        None
    }
}

/// `pause 1`: a playing player pauses; returns the command to send.
pub fn pause_if_playing(player: &mut SqueezePlayer) -> (cmd: Option<StrmCommand>)
    ensures
        old(player).state == PlayerState::Playing ==> cmd == Some(StrmCommand::Pause) && *final(player)
            == (SqueezePlayer { state: PlayerState::Paused, ..*old(player) }),
        old(player).state != PlayerState::Playing ==> cmd is None && *final(player) == *old(player),
{
    if player.state == PlayerState::Playing {
        player.state = PlayerState::Paused;
        Some(StrmCommand::Pause)
    } else {
        None
    }
}

/// `stop` / `power 0`: elapsed time cleared, state Stopped.
pub fn stop_player(player: &mut SqueezePlayer)
    ensures
        *final(player) == (SqueezePlayer {
            elapsed_ms: 0,
            state: PlayerState::Stopped,
            ..*old(player)
        }),
{
    player.elapsed_ms = 0;
    player.state = PlayerState::Stopped;
}

/// Rewinds for a CometD "previous": clears the displayed track, suppresses
/// the coming STMu; a pending prefetch (which already advanced the queue) is
/// undone with one extra step back. Returns whether there is a track to play.
pub fn skip_back(player: &mut SqueezePlayer) -> (has_prev: bool)
    requires
        old(player).queue.wf(),
    ensures
        *final(player) == (SqueezePlayer {
            display_track: None,
            suppress_track_finished: true,
            prefetched_generation: None,
            queue: final(player).queue,
            ..*old(player)
        }),
        final(player).queue.wf(),
        final(player).queue.tracks() == old(player).queue.tracks(),
        final(player).queue.order() == old(player).queue.order(),
        final(player).queue.repeat_mode() == old(player).queue.repeat_mode(),
        final(player).queue.shuffled() == old(player).queue.shuffled(),
        final(player).queue.position() == if old(player).prefetched_generation is Some {
            step_back(
                old(player).queue.previous_position(),
                old(player).queue.order().len(),
                old(player).queue.repeat_mode(),
            )
        } else {
            old(player).queue.previous_position()
        },
        has_prev == (final(player).queue.current_track() is Some),
{
    player.display_track = None;
    player.suppress_track_finished = true;
    if player.prefetched_generation.is_some() {
        player.queue.previous();
        player.prefetched_generation = None;
    }
    player.queue.previous().is_some()
}

/// Prepares a jump to an absolute queue position: clears the displayed
/// track, suppresses the coming STMu and any prefetch, and moves the queue.
pub fn jump_to_index(player: &mut SqueezePlayer, index: usize)
    requires
        old(player).queue.wf(),
    ensures
        *final(player) == (SqueezePlayer {
            display_track: None,
            suppress_track_finished: true,
            prefetched_generation: None,
            queue: final(player).queue,
            ..*old(player)
        }),
        final(player).queue.wf(),
        final(player).queue.tracks() == old(player).queue.tracks(),
        final(player).queue.order() == old(player).queue.order(),
        final(player).queue.repeat_mode() == old(player).queue.repeat_mode(),
        final(player).queue.shuffled() == old(player).queue.shuffled(),
        final(player).queue.position() == if index < old(player).queue.order().len() {
            Some(index)
        } else {
            old(player).queue.position()
        },
{
    player.display_track = None;
    player.suppress_track_finished = true;
    player.prefetched_generation = None;
    player.queue.jump_to(index);
}

/// The "mode" reported in a status: "play", "pause" or "stop".
pub open spec fn status_mode_spec(state: PlayerState) -> Seq<char> {
    match state {
        PlayerState::Playing => "play"@,
        PlayerState::Paused => "pause"@,
        _ => "stop"@,
    }
}

pub fn status_mode(state: PlayerState) -> (s: &'static str)
    ensures
        s@ == status_mode_spec(state),
{
    match state {
        PlayerState::Playing => "play",
        PlayerState::Paused => "pause",
        _ => "stop",
    }
}

/// The "playlist repeat" code: 0 off, 1 one, 2 all.
pub fn repeat_code(mode: RepeatMode) -> (c: u8)
    ensures
        c == match mode {
            RepeatMode::Off => 0u8,
            RepeatMode::One => 1u8,
            RepeatMode::All => 2u8,
        },
{
    match mode {
        RepeatMode::Off => 0,
        RepeatMode::One => 1,
        RepeatMode::All => 2,
    }
}

// ── Bayeux messages ─────────────────────────────────────────────────────────

/// Reconnect advice sent with a Bayeux response.
#[derive(Debug, Clone)]
pub struct BayeuxAdvice {
    pub reconnect: String,
    pub interval: u32,
    pub timeout: u32,
}

/// The advice of a successful handshake or connect: retry at once, hold
/// long-polls for up to 30 s.
pub fn retry_advice() -> (a: BayeuxAdvice)
    ensures
        a.reconnect@ == "retry"@,
        a.interval == 0,
        a.timeout == 30000,
{
    BayeuxAdvice { reconnect: String::from_str("retry"), interval: 0, timeout: 30000 }
}

/// The advice answering a request that could not be read: handshake again
/// after a second.
pub fn rehandshake_advice() -> (a: BayeuxAdvice)
    ensures
        a.reconnect@ == "handshake"@,
        a.interval == 1000,
        a.timeout == 30000,
{
    BayeuxAdvice { reconnect: String::from_str("handshake"), interval: 1000, timeout: 30000 }
}

/// Which handler a Bayeux message goes to.
#[derive(Debug, Clone, Copy, PartialEq, Eq, Structural)]
pub enum CometdChannel {
    Handshake,
    Connect,
    Subscribe,
    Disconnect,
    SlimSubscribe,
    /// A slim request or player command (any channel containing "/slim/request")
    SlimRequest,
    /// Acknowledged and otherwise ignored
    Unknown,
}

pub open spec fn channel_spec(channel: Seq<char>) -> CometdChannel {
    if channel == "/meta/handshake"@ {
        CometdChannel::Handshake
    } else if channel == "/meta/connect"@ {
        CometdChannel::Connect
    } else if channel == "/meta/subscribe"@ {
        CometdChannel::Subscribe
    } else if channel == "/meta/disconnect"@ {
        CometdChannel::Disconnect
    } else if channel == "/slim/subscribe"@ {
        CometdChannel::SlimSubscribe
    } else if contains_text(channel, "/slim/request"@) {
        CometdChannel::SlimRequest
    } else {
        CometdChannel::Unknown
    }
}

// ── Client registry ─────────────────────────────────────────────────────────

/// A client unseen for longer than this (90 s, in nanoseconds) is taken for
/// dead: longer than any long-poll, with slack.
pub const WATCHDOG_TIMEOUT_NS: u128 = 90_000_000_000;

/// When a CometD client goes away (a disconnect, or the watchdog), its player
/// goes too only if it is registered and no SlimProto connection owns it.
/// `player_has_tcp` is `None` when no player is registered for its MAC.
pub fn drops_player_with_client(player_has_tcp: Option<bool>) -> (b: bool)
    ensures
        b == (player_has_tcp == Some(false)),
{
    match player_has_tcp {
        Some(has_tcp) => !has_tcp,
        None => false,
    }
}

/// What the watchdog does with one CometD client.
#[derive(Debug, Clone, Copy, PartialEq, Eq, Structural)]
pub enum WatchdogAction {
    /// Seen recently enough: kept.
    Keep,
    /// Stale: the client is evicted, its player kept.
    EvictClient,
    /// Stale: the client and its player are evicted.
    EvictClientAndPlayer,
}

/// The watchdog's decision for a client idle for `idle_ns` nanoseconds.
pub fn watchdog_step(idle_ns: u128, player_has_tcp: Option<bool>) -> (a: WatchdogAction)
    ensures
        a == if idle_ns <= WATCHDOG_TIMEOUT_NS {
            WatchdogAction::Keep
        } else if player_has_tcp == Some(false) {
            WatchdogAction::EvictClientAndPlayer
        } else {
            WatchdogAction::EvictClient
        },
{
    if idle_ns <= WATCHDOG_TIMEOUT_NS {
        WatchdogAction::Keep
    } else if drops_player_with_client(player_has_tcp) {
        WatchdogAction::EvictClientAndPlayer
    } else {
        WatchdogAction::EvictClient
    }
}

/// Routes a message by its channel. Every message but a handshake also
/// refreshes its client's liveness.
pub fn route_channel(channel: &str) -> (c: CometdChannel)
    ensures
        c == channel_spec(channel@),
{
    let cs = str_chars(channel);
    if text_is(&cs, "/meta/handshake") {
        CometdChannel::Handshake
    } else if text_is(&cs, "/meta/connect") {
        CometdChannel::Connect
    } else if text_is(&cs, "/meta/subscribe") {
        CometdChannel::Subscribe
    } else if text_is(&cs, "/meta/disconnect") {
        CometdChannel::Disconnect
    } else if text_is(&cs, "/slim/subscribe") {
        CometdChannel::SlimSubscribe
    } else if contains_str(channel, "/slim/request") {
        CometdChannel::SlimRequest
    } else {
        CometdChannel::Unknown
    }
}

/// The player name a handshake's `ext` carries: `name`, else `devicename`,
/// else `deviceName`.
pub fn handshake_ext_name(name: Option<&str>, devicename: Option<&str>, device_name: Option<&str>) -> (r:
    Option<String>)
    ensures
        match (name, devicename, device_name) {
            (Some(n), _, _) => r matches Some(s) && s@ == n@,
            (None, Some(n), _) => r matches Some(s) && s@ == n@,
            (None, None, Some(n)) => r matches Some(s) && s@ == n@,
            (None, None, None) => r is None,
        },
{
    match name {
        Some(n) => Some(String::from_str(n)),
        None => match devicename {
            Some(n) => Some(String::from_str(n)),
            None => match device_name {
                Some(n) => Some(String::from_str(n)),
                None => None,
            },
        },
    }
}

/// What a `/slim/subscribe` asks for.
#[derive(Debug, Clone, Copy, PartialEq, Eq, Structural)]
pub enum SlimSubscription {
    /// Send the server status on the response channel
    ServerStatus,
    /// Remember the response channel for the player's status and send it now
    PlayerStatus,
    /// Only acknowledge
    Nothing,
}

/// `serverstatus` needs a response channel, `status` also a player id.
pub open spec fn slim_subscription_spec(
    cmd_name: Seq<char>,
    player_id: Seq<char>,
    response_channel: Seq<char>,
) -> SlimSubscription {
    if cmd_name == "serverstatus"@ && response_channel.len() != 0 {
        SlimSubscription::ServerStatus
    } else if cmd_name == "status"@ && player_id.len() != 0 && response_channel.len() != 0 {
        SlimSubscription::PlayerStatus
    } else {
        SlimSubscription::Nothing
    }
}

pub fn slim_subscription(cmd_name: &str, player_id: &str, response_channel: &str) -> (r:
    SlimSubscription)
    ensures
        r == slim_subscription_spec(cmd_name@, player_id@, response_channel@),
{
    let c = str_chars(cmd_name);
    if text_is(&c, "serverstatus") && response_channel.unicode_len() != 0 {
        SlimSubscription::ServerStatus
    } else if text_is(&c, "status") && player_id.unicode_len() != 0
        && response_channel.unicode_len() != 0 {
        SlimSubscription::PlayerStatus
    } else {
        SlimSubscription::Nothing
    }
}

// ── Player status ───────────────────────────────────────────────────────────

/// What a player status reports, but for its times (which the caller adds).
pub struct StatusSummary {
    /// "play", "pause" or "stop"
    pub mode: String,
    /// `playlist repeat`: 0 off, 1 one, 2 all
    pub repeat: u8,
    /// `playlist shuffle`: 0 or 1
    pub shuffle: u8,
    /// `playlist_cur_index`
    pub cur_index: usize,
    /// The track shown: the displayed (prefetch) track, else the current one.
    pub track: Option<QueueTrack>,
    /// The track id in decimal ("" without a track).
    pub id_text: String,
    /// The track id in decimal, "" without a track or for id 0.
    pub coverid: String,
    /// "<title>\n<artist>" ("" without a track)
    pub display_text: String,
    /// "/music/<id>/cover.jpg" ("" without a track)
    pub artwork_url: String,
    /// "/stream?player=<player id>" ("" without a track)
    pub stream_url: String,
    /// The number of tracks in the queue.
    pub playlist_tracks: usize,
    pub volume: u8,
}

/// The track a status shows: the displayed track, else the queue's current one.
pub open spec fn shown_track(p: SqueezePlayer) -> Option<QueueTrack> {
    match p.display_track {
        Some(t) => Some(t),
        None => p.queue.current_track(),
    }
}

/// The position reported: where the shown track first stands in the play
/// order, else the queue position, else 0.
pub open spec fn status_index(p: SqueezePlayer) -> usize {
    let fallback: usize = match p.queue.position() {
        Some(i) => i,
        None => 0,
    };
    match shown_track(p) {
        Some(t) => match first_position_with_id(p.queue, t.id, 0) {
            Some(i) => i as usize,
            None => fallback,
        },
        None => fallback,
    }
}

/// What a status reports. The mode is "play" exactly for a playing player,
/// "pause" exactly for a paused one, "stop" otherwise. The track shown is
/// the one on display while a prefetched stream waits behind it, else the
/// queue's current track. When the shown track's id stands in the play
/// order, the reported index is its first position there; otherwise it is
/// the queue position (0 when there is none).
pub proof fn lemma_status_reports(p: SqueezePlayer)
    requires
        p.queue.wf(),
        p.queue.order().len() <= usize::MAX,
    ensures
        (status_mode_spec(p.state) == "play"@) == (p.state == PlayerState::Playing),
        (status_mode_spec(p.state) == "pause"@) == (p.state == PlayerState::Paused),
        (status_mode_spec(p.state) == "stop"@) == (p.state != PlayerState::Playing && p.state
            != PlayerState::Paused),
        p.display_track is Some ==> shown_track(p) == p.display_track,
        p.display_track is None ==> shown_track(p) == p.queue.current_track(),
        shown_track(p) matches Some(t) ==> ((exists|k: int|
            0 <= k < p.queue.order().len() && #[trigger] p.queue.track_at(k).id == t.id) ==> {
            &&& status_index(p) < p.queue.order().len()
            &&& p.queue.track_at(status_index(p) as int).id == t.id
            &&& forall|k: int| 0 <= k < status_index(p) ==> #[trigger] p.queue.track_at(k).id != t.id
        }),
        (shown_track(p) is None || forall|k: int|
            0 <= k < p.queue.order().len() ==> #[trigger] p.queue.track_at(k).id != shown_track(
                p,
            )->0.id) ==> status_index(p) == match p.queue.position() {
            Some(i) => i,
            None => 0usize,
        },
{
    reveal_strlit("play");
    reveal_strlit("pause");
    reveal_strlit("stop");
    assert("play"@.len() != "pause"@.len());
    assert("play"@[1] != "stop"@[1]);
    assert("pause"@.len() != "stop"@.len());
    if let Some(t) = shown_track(p) {
        lemma_first_position_with_id(p.queue, t.id, 0);
    }
}

pub fn status_summary(player: &SqueezePlayer, player_id: &str) -> (s: StatusSummary)
    requires
        player.queue.wf(),
    ensures
        s.mode@ == status_mode_spec(player.state),
        s.repeat == match player.queue.repeat_mode() {
            RepeatMode::Off => 0u8,
            RepeatMode::One => 1u8,
            RepeatMode::All => 2u8,
        },
        s.shuffle == if player.queue.shuffled() { 1u8 } else { 0u8 },
        s.cur_index == status_index(*player),
        s.track == shown_track(*player),
        s.playlist_tracks == player.queue.tracks().len(),
        s.volume == player.volume,
        match shown_track(*player) {
            Some(t) => {
                &&& s.id_text@ == decimal_signed(t.id as int)
                &&& s.coverid@ == if t.id != 0 { decimal_signed(t.id as int) } else { Seq::empty() }
                &&& s.display_text@ == t.title@ + seq!['\n'] + t.artist@
                &&& s.artwork_url@ == "/music/"@ + decimal_signed(t.id as int) + "/cover.jpg"@
                &&& s.stream_url@ == "/stream?player="@ + player_id@
            },
            None => {
                &&& s.id_text@.len() == 0
                &&& s.coverid@.len() == 0
                &&& s.display_text@.len() == 0
                &&& s.artwork_url@.len() == 0
                &&& s.stream_url@.len() == 0
            },
        },
{
    let track: Option<QueueTrack> = match &player.display_track {
        Some(t) => Some(t.duplicate()),
        None => match player.queue.current() {
            Some(t) => Some(t.duplicate()),
            None => None,
        },
    };
    let fallback: usize = match player.queue.current_position() {
        Some(i) => i,
        None => 0,
    };
    let cur_index = match &track {
        Some(t) => match player.queue.position_of_track_id(t.id) {
            Some(i) => i,
            None => fallback,
        },
        None => fallback,
    };
    let (id_text, coverid, display_text, artwork_url, stream_url) = match &track {
        Some(t) => {
            let id_text = i64_to_decimal(t.id);
            let coverid = if t.id != 0 {
                i64_to_decimal(t.id)
            } else {
                String::new()
            };
            let mut display = t.title.clone();
            crate::text::push_char(&mut display, '\n');
            push_str(&mut display, t.artist.as_str());
            let mut art = String::from_str("/music/");
            push_str(&mut art, id_text.as_str());
            push_str(&mut art, "/cover.jpg");
            let mut url = String::from_str("/stream?player=");
            push_str(&mut url, player_id);
            (id_text, coverid, display, art, url)
        },
        None => (String::new(), String::new(), String::new(), String::new(), String::new()),
    };
    StatusSummary {
        mode: String::from_str(status_mode(player.state)),
        repeat: repeat_code(player.queue.repeat_setting()),
        shuffle: if player.queue.shuffle_enabled() {
            1
        } else {
            0
        },
        cur_index,
        track,
        id_text,
        coverid,
        display_text,
        artwork_url,
        stream_url,
        playlist_tracks: player.queue.len(),
        volume: player.volume,
    }
}

} // verus!
