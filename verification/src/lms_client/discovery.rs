// Reading the TLV answers of LMS servers to a discovery broadcast.
//
// The broadcast and the receive loop are done by the caller; each answer
// that starts with 'E' is handed here without its first byte, together with
// the address it came from.

use vstd::prelude::*;
use vstd::slice::slice_subrange;
use vstd::utf8::{
    decode_utf8, encode_utf8, encode_utf8_decode_utf8, encode_utf8_valid_utf8, is_ascii_chars,
    is_ascii_chars_encode_utf8, valid_utf8,
};
use crate::lms_client::types::{LmsServer, LmsServerModel};
use crate::numfmt::{
    decimal, lemma_decimal_digits, lemma_decimal_len, lemma_parse_decimal, parse_unsigned,
    parse_unsigned_chars, pow10,
};
use crate::squeeze::discovery::{
    SERVER_UUID, SERVER_VERSION, tag_json, tag_name, tag_uuid, tag_version, tlv_field,
    tlv_response_spec,
};
use crate::text::{push_str, str_chars, utf8_text};

verus! {

/// The LMS JSON-RPC port assumed when an answer names none.
pub const DEFAULT_JSON_PORT: u16 = 9000;

/// The fields read so far from a TLV answer.
pub struct TlvScan {
    pub name: Seq<char>,
    pub json_port: u16,
    pub uuid: Seq<char>,
}

/// A value's text: the bytes decoded as UTF-8, or empty when they are not UTF-8.
pub open spec fn utf8_or_empty(b: Seq<u8>) -> Seq<char> {
    if valid_utf8(b) {
        decode_utf8(b)
    } else {
        Seq::empty()
    }
}

/// The port in a JSON field: the text as a `u16`, else the default.
pub open spec fn json_port_of(text: Seq<char>) -> u16 {
    match parse_unsigned(text, 65535) {
        Some(v) => v as u16,
        None => DEFAULT_JSON_PORT,
    }
}

/// One field read: NAME, JSON and UUID are kept, other tags are skipped.
pub open spec fn tlv_apply(acc: TlvScan, tag: Seq<u8>, text: Seq<char>) -> TlvScan {
    if tag == tag_name() {
        TlvScan { name: text, ..acc }
    } else if tag == tag_json() {
        TlvScan { json_port: json_port_of(text), ..acc }
    } else if tag == tag_uuid() {
        TlvScan { uuid: text, ..acc }
    } else {
        acc
    }
}

/// Reads `[tag(4)][len(1)][value(len)]` fields from `pos` on. Reading stops
/// when fewer than five bytes are left or a value runs past the end; a tag
/// that is not UTF-8 makes the whole answer unreadable (`None`).
pub open spec fn scan_tlv(data: Seq<u8>, pos: nat, acc: TlvScan) -> Option<TlvScan>
    decreases data.len() - pos,
{
    let p = pos as int;
    if p + 4 >= data.len() {
        Some(acc)
    } else if !valid_utf8(data.subrange(p, p + 4)) {
        None
    } else {
        let len = data[p + 4] as int;
        let start = p + 5;
        if start + len > data.len() {
            Some(acc)
        } else {
            scan_tlv(
                data,
                (start + len) as nat,
                tlv_apply(
                    acc,
                    data.subrange(p, p + 4),
                    utf8_or_empty(data.subrange(start, start + len)),
                ),
            )
        }
    }
}

pub open spec fn scan_start() -> TlvScan {
    TlvScan { name: Seq::empty(), json_port: DEFAULT_JSON_PORT, uuid: Seq::empty() }
}

/// The server an answer describes: `None` when it is unreadable or names
/// neither a server name nor a UUID; a server without a name is called
/// "LMS @ <address>".
pub open spec fn parse_tlv_spec(data: Seq<u8>, src_ip: Seq<char>) -> Option<LmsServerModel> {
    match scan_tlv(data, 0, scan_start()) {
        None => None,
        Some(f) => if f.name.len() == 0 && f.uuid.len() == 0 {
            None
        } else {
            Some(
                LmsServerModel {
                    name: if f.name.len() == 0 {
                        "LMS @ "@ + src_ip
                    } else {
                        f.name
                    },
                    host: src_ip,
                    json_port: f.json_port,
                    uuid: f.uuid,
                },
            )
        },
    }
}

fn tag_is(t: &[u8], a: u8, b: u8, c: u8, d: u8) -> (r: bool)
    requires
        t@.len() == 4,
    ensures
        r == (t@ == seq![a, b, c, d]),
{
    let r = t[0] == a && t[1] == b && t[2] == c && t[3] == d;
    proof {
        if r {
            assert(t@ =~= seq![a, b, c, d]);
        }
    }
    r
}

/// Parses a TLV answer (without its leading 'E') from the server at `src_ip`.
pub fn parse_tlv_response(data: &[u8], src_ip: &str) -> (r: Option<LmsServer>)
    ensures
        match parse_tlv_spec(data@, src_ip@) {
            Some(m) => r matches Some(s) && s@ == m,
            None => r is None,
        },
{
    let mut name = String::new();
    let mut json_port: u16 = DEFAULT_JSON_PORT;
    let mut uuid = String::new();
    let mut pos: usize = 0;
    while data.len() > 4 && pos < data.len() - 4
        invariant
            pos <= data@.len(),
            scan_tlv(data@, 0, scan_start()) == scan_tlv(
                data@,
                pos as nat,
                TlvScan { name: name@, json_port, uuid: uuid@ },
            ),
        ensures
            scan_tlv(data@, 0, scan_start()) == Some(TlvScan { name: name@, json_port, uuid: uuid@ }),
        decreases data@.len() - pos,
    {
        let tag = slice_subrange(data, pos, pos + 4);
        if utf8_text(tag).is_none() {
            return None;
        }
        let len = data[pos + 4] as usize;
        let start = pos + 5;
        if len > data.len() - start {
            break;
        }
        let value = slice_subrange(data, start, start + len);
        let text = match utf8_text(value) {
            Some(t) => t,
            None => String::new(),
        };
        assert(text@ == utf8_or_empty(value@));
        if tag_is(tag, ('N' as u8), ('A' as u8), ('M' as u8), ('E' as u8)) {
            name = text;
        } else if tag_is(tag, ('J' as u8), ('S' as u8), ('O' as u8), ('N' as u8)) {
            let chars = str_chars(text.as_str());
            json_port = match parse_unsigned_chars(chars.as_slice(), 65535) {
                Some(v) => v as u16,
                None => DEFAULT_JSON_PORT,
            };
        } else if tag_is(tag, ('U' as u8), ('U' as u8), ('I' as u8), ('D' as u8)) {
            uuid = text;
        }
        pos = start + len;
    }
    if name.unicode_len() == 0 && uuid.unicode_len() == 0 {
        return None;
    }
    let display_name = if name.unicode_len() == 0 {
        let mut s = String::from_str("LMS @ ");
        push_str(&mut s, src_ip);
        s
    } else {
        name
    };
    Some(LmsServer { name: display_name, host: String::from_str(src_ip), json_port, uuid })
}

/// The UUIDs of a list of servers.
pub open spec fn server_uuids(servers: Seq<LmsServer>) -> Seq<Seq<char>> {
    servers.map_values(|s: LmsServer| s.uuid@)
}

fn same_text(a: &String, b: &String) -> (r: bool)
    ensures
        r == (a@ == b@),
{
    let ac = str_chars(a.as_str());
    crate::text::chars_eq_str(ac.as_slice(), b.as_str())
}

/// Adds a server found by broadcast unless one with the same UUID is
/// already listed.
pub fn add_discovered(servers: &mut Vec<LmsServer>, server: LmsServer)
    ensures
        if server_uuids(old(servers)@).contains(server.uuid@) {
            final(servers)@ == old(servers)@
        } else {
            final(servers)@ == old(servers)@.push(server)
        },
{
    let mut i: usize = 0;
    while i < servers.len()
        invariant
            i <= servers@.len(),
            forall|j: int| 0 <= j < i ==> servers@[j].uuid@ != server.uuid@,
        decreases servers@.len() - i,
    {
        if same_text(&servers[i].uuid, &server.uuid) {
            assert(server_uuids(servers@)[i as int] == server.uuid@);
            return;
        }
        i = i + 1;
    }
    proof {
        if server_uuids(servers@).contains(server.uuid@) {
            let j = choose|j: int| 0 <= j < server_uuids(servers@).len() && server_uuids(servers@)[j] == server.uuid@;
            assert(servers@[j].uuid@ == server.uuid@);
        }
    }
    servers.push(server);
}

/// Adds the server probed on this machine unless a server at 127.0.0.1 was
/// already found (UDP broadcasts do not loop back on every system).
pub fn add_local_server(servers: &mut Vec<LmsServer>, local: LmsServer)
    ensures
        if exists|j: int| 0 <= j < old(servers)@.len() && #[trigger] old(servers)@[j].host@ == "127.0.0.1"@ {
            final(servers)@ == old(servers)@
        } else {
            final(servers)@ == old(servers)@.push(local)
        },
{
    let localhost = String::from_str("127.0.0.1");
    let mut i: usize = 0;
    while i < servers.len()
        invariant
            i <= servers@.len(),
            localhost@ == "127.0.0.1"@,
            forall|j: int| 0 <= j < i ==> servers@[j].host@ != "127.0.0.1"@,
        decreases servers@.len() - i,
    {
        if same_text(&servers[i].host, &localhost) {
            return;
        }
        i = i + 1;
    }
    servers.push(local);
}

/// No UUID is listed twice among servers built up by `add_discovered`.
pub proof fn lemma_add_discovered_keeps_uuids_unique(before: Seq<LmsServer>, server: LmsServer, after: Seq<LmsServer>)
    requires
        server_uuids(before).no_duplicates(),
        if server_uuids(before).contains(server.uuid@) {
            after == before
        } else {
            after == before.push(server)
        },
    ensures
        server_uuids(after).no_duplicates(),
{
    if !server_uuids(before).contains(server.uuid@) {
        assert(server_uuids(after) =~= server_uuids(before).push(server.uuid@));
        assert forall|i: int, j: int| 0 <= i < j < server_uuids(after).len() implies server_uuids(after)[i] != server_uuids(after)[j] by {
            if j == server_uuids(before).len() {
                assert(server_uuids(before)[i] == server_uuids(after)[i]);
            }
        }
    }
}

/// Reading one well-formed field at `pos`.
proof fn lemma_scan_field(data: Seq<u8>, pos: nat, acc: TlvScan, tag: Seq<u8>, value: Seq<u8>)
    requires
        tag.len() == 4,
        valid_utf8(tag),
        value.len() < 256,
        pos + 5 + value.len() <= data.len(),
        data.subrange(pos as int, pos + 5 + value.len() as int) == tlv_field(tag, value),
    ensures
        scan_tlv(data, pos, acc) == scan_tlv(
            data,
            (pos + 5 + value.len()) as nat,
            tlv_apply(acc, tag, utf8_or_empty(value)),
        ),
{
    let p = pos as int;
    let f = tlv_field(tag, value);
    assert(data.subrange(p, p + 4) =~= tag) by {
        assert forall|i: int| 0 <= i < 4 implies #[trigger] data.subrange(p, p + 4)[i] == tag[i] by {
            assert(data.subrange(p, p + 5 + value.len())[i] == f[i]);
        }
    }
    assert(data[p + 4] == f[4]) by {
        assert(data.subrange(p, p + 5 + value.len())[4] == f[4]);
    }
    assert(data[p + 4] as int == value.len());
    assert(data.subrange(p + 5, p + 5 + value.len()) =~= value) by {
        assert forall|i: int| 0 <= i < value.len() implies #[trigger] data.subrange(
            p + 5,
            p + 5 + value.len(),
        )[i] == value[i] by {
            assert(data.subrange(p, p + 5 + value.len())[5 + i] == f[5 + i]);
        }
    }
}

/// ASCII text encodes to its characters' bytes and decodes back.
proof fn lemma_ascii_text(chars: Seq<char>)
    requires
        is_ascii_chars(chars),
    ensures
        encode_utf8(chars).len() == chars.len(),
        valid_utf8(encode_utf8(chars)),
        decode_utf8(encode_utf8(chars)) == chars,
{
    is_ascii_chars_encode_utf8(chars);
    encode_utf8_valid_utf8(chars);
    encode_utf8_decode_utf8(chars);
}

proof fn lemma_tag_valid(a: char, b: char, c: char, d: char)
    requires
        is_ascii_chars(seq![a, b, c, d]),
    ensures
        valid_utf8(seq![a as u8, b as u8, c as u8, d as u8]),
{
    let chars = seq![a, b, c, d];
    lemma_ascii_text(chars);
    is_ascii_chars_encode_utf8(chars);
    assert(encode_utf8(chars) =~= seq![a as u8, b as u8, c as u8, d as u8]) by {
        assert(encode_utf8(chars)[0] == chars[0] as u8);
        assert(encode_utf8(chars)[1] == chars[1] as u8);
        assert(encode_utf8(chars)[2] == chars[2] as u8);
        assert(encode_utf8(chars)[3] == chars[3] as u8);
    }
}

/// A discovery answer built by the embedded Squeeze server
/// (`build_tlv_response`) and read by the LMS client (`parse_tlv_response`)
/// describes a server with the same name, JSON port and UUID, at the address
/// it came from; a server without a name is called "LMS @ <address>". This
/// holds whenever the name fits the one-byte length (at most 255 bytes).
#[verifier::spinoff_prover]
#[verifier::rlimit(40)]
pub proof fn lemma_tlv_roundtrip(server_name: Seq<char>, http_port: u16, src_ip: Seq<char>)
    requires
        encode_utf8(server_name).len() <= 255,
    ensures
        parse_tlv_spec(tlv_response_spec(server_name, http_port).skip(1), src_ip) == Some(
            LmsServerModel {
                name: if server_name.len() == 0 {
                    "LMS @ "@ + src_ip
                } else {
                    server_name
                },
                host: src_ip,
                json_port: http_port,
                uuid: SERVER_UUID@,
            },
        ),
{
    let n = encode_utf8(server_name);
    let dec = decimal(http_port as nat);
    let j = encode_utf8(dec);
    let u = encode_utf8(SERVER_UUID@);
    let v = encode_utf8(SERVER_VERSION@);
    // The constant texts and the port are ASCII.
    reveal_strlit("audion-squeeze-server-0001");
    reveal_strlit("8.4.0");
    lemma_ascii_text(SERVER_UUID@);
    lemma_ascii_text(SERVER_VERSION@);
    lemma_decimal_digits(http_port as nat);
    assert(is_ascii_chars(dec)) by {
        assert forall|i: int| 0 <= i < dec.len() implies '\0' <= #[trigger] dec[i] <= '\u{7f}' by {
            assert(crate::numfmt::is_digit(dec[i]));
        }
    }
    lemma_ascii_text(dec);
    reveal_with_fuel(pow10, 6);
    lemma_decimal_len(http_port as nat, 5);
    encode_utf8_valid_utf8(server_name);
    encode_utf8_decode_utf8(server_name);
    lemma_parse_decimal(http_port as nat, 65535);
    // The tags are valid UTF-8.
    lemma_tag_valid('N', 'A', 'M', 'E');
    lemma_tag_valid('J', 'S', 'O', 'N');
    lemma_tag_valid('U', 'U', 'I', 'D');
    lemma_tag_valid('V', 'E', 'R', 'S');
    assert(tag_name() =~= seq!['N' as u8, 'A' as u8, 'M' as u8, 'E' as u8]);
    assert(tag_json() =~= seq!['J' as u8, 'S' as u8, 'O' as u8, 'N' as u8]);
    assert(tag_uuid() =~= seq!['U' as u8, 'U' as u8, 'I' as u8, 'D' as u8]);
    assert(tag_version() =~= seq!['V' as u8, 'E' as u8, 'R' as u8, 'S' as u8]);
    let f1 = tlv_field(tag_name(), n);
    let f2 = tlv_field(tag_json(), j);
    let f3 = tlv_field(tag_uuid(), u);
    let f4 = tlv_field(tag_version(), v);
    let data = tlv_response_spec(server_name, http_port).skip(1);
    assert(data =~= f1 + f2 + f3 + f4);
    let p1 = f1.len();
    let p2 = p1 + f2.len();
    let p3 = p2 + f3.len();
    let p4 = p3 + f4.len();
    assert(data.subrange(0, p1 as int) =~= f1);
    assert(data.subrange(p1 as int, p2 as int) =~= f2);
    assert(data.subrange(p2 as int, p3 as int) =~= f3);
    assert(data.subrange(p3 as int, p4 as int) =~= f4);
    let a0 = scan_start();
    lemma_scan_field(data, 0, a0, tag_name(), n);
    let a1 = tlv_apply(a0, tag_name(), utf8_or_empty(n));
    assert(a1 == TlvScan { name: server_name, ..a0 });
    lemma_scan_field(data, p1 as nat, a1, tag_json(), j);
    let a2 = tlv_apply(a1, tag_json(), utf8_or_empty(j));
    assert(tag_json() != tag_name()) by {
        assert(tag_json()[0] != tag_name()[0]);
    }
    assert(a2 == TlvScan { json_port: http_port, ..a1 });
    lemma_scan_field(data, p2 as nat, a2, tag_uuid(), u);
    let a3 = tlv_apply(a2, tag_uuid(), utf8_or_empty(u));
    assert(tag_uuid() != tag_name()) by {
        assert(tag_uuid()[0] != tag_name()[0]);
    }
    assert(tag_uuid() != tag_json()) by {
        assert(tag_uuid()[0] != tag_json()[0]);
    }
    assert(a3 == TlvScan { uuid: SERVER_UUID@, ..a2 });
    lemma_scan_field(data, p3 as nat, a3, tag_version(), v);
    let a4 = tlv_apply(a3, tag_version(), utf8_or_empty(v));
    assert(tag_version() != tag_name()) by {
        assert(tag_version()[0] != tag_name()[0]);
    }
    assert(tag_version() != tag_json()) by {
        assert(tag_version()[0] != tag_json()[0]);
    }
    assert(tag_version() != tag_uuid()) by {
        assert(tag_version()[0] != tag_uuid()[0]);
    }
    assert(a4 == a3);
    assert(p4 == data.len());
    assert(scan_tlv(data, p4 as nat, a4) == Some(a4));
}

} // verus!
