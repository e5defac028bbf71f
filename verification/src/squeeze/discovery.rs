// UDP discovery answers for Squeeze players.
//
// Players broadcast a single byte 'e' (TLV) or 'd' (legacy) to UDP port 3483.
// We respond with a packet that names this server; the player takes the
// server address from the packet's source and connects over SlimProto.
// The sockets are driven by the caller.

use vstd::prelude::*;
use vstd::utf8::encode_utf8;
use crate::numfmt::{decimal, u64_to_decimal};
use crate::squeeze::codec::zeros;

verus! {

/// Stable UUID for this Audion Squeeze server instance.
pub const SERVER_UUID: &'static str = "audion-squeeze-server-0001";

/// Version string advertised in the VERS TLV tag. Matches LMS convention
/// so players that check server version for compatibility don't reject us.
pub const SERVER_VERSION: &'static str = "8.4.0";

pub open spec fn tag_name() -> Seq<u8> {
    seq![('N' as u8), ('A' as u8), ('M' as u8), ('E' as u8)]
}

pub open spec fn tag_json() -> Seq<u8> {
    seq![('J' as u8), ('S' as u8), ('O' as u8), ('N' as u8)]
}

pub open spec fn tag_uuid() -> Seq<u8> {
    seq![('U' as u8), ('U' as u8), ('I' as u8), ('D' as u8)]
}

pub open spec fn tag_version() -> Seq<u8> {
    seq![('V' as u8), ('E' as u8), ('R' as u8), ('S' as u8)]
}

/// One TLV field: the 4-byte tag, the value's length as one byte (the low
/// byte of the length), and the value.
pub open spec fn tlv_field(tag: Seq<u8>, value: Seq<u8>) -> Seq<u8> {
    tag + seq![(value.len() % 256) as u8] + value
}

/// The TLV 'E' response: NAME (server name), JSON (HTTP port in decimal),
/// UUID (server id), VERS (version), each value UTF-8 encoded.
pub open spec fn tlv_response_spec(server_name: Seq<char>, http_port: u16) -> Seq<u8> {
    seq![('E' as u8)] + tlv_field(tag_name(), encode_utf8(server_name)) + tlv_field(
        tag_json(),
        encode_utf8(decimal(http_port as nat)),
    ) + tlv_field(tag_uuid(), encode_utf8(SERVER_UUID@)) + tlv_field(
        tag_version(),
        encode_utf8(SERVER_VERSION@),
    )
}

/// The legacy 'D' response: 18 bytes, 'D' then the first (at most 17) bytes
/// of the UTF-8 server name, zero padded.
pub open spec fn legacy_response_spec(server_name: Seq<char>) -> Seq<u8> {
    let b = encode_utf8(server_name);
    let k: nat = if b.len() < 17 {
        b.len()
    } else {
        17
    };
    seq![('D' as u8)] + b.take(k as int) + zeros((17 - k) as nat)
}

fn push_field(buf: &mut Vec<u8>, tag: [u8; 4], value: &[u8])
    ensures
        final(buf)@ == old(buf)@ + tlv_field(tag@, value@),
{
    let ghost start = buf@;
    buf.push(tag[0]);
    buf.push(tag[1]);
    buf.push(tag[2]);
    buf.push(tag[3]);
    buf.push((value.len() % 256) as u8);
    let mut i: usize = 0;
    while i < value.len()
        invariant
            i <= value@.len(),
            buf@ == start + tag@ + seq![(value@.len() % 256) as u8] + value@.take(i as int),
        decreases value@.len() - i,
    {
        buf.push(value[i]);
        i = i + 1;
        assert(buf@ =~= start + tag@ + seq![(value@.len() % 256) as u8] + value@.take(i as int));
    }
    assert(value@.take(value@.len() as int) =~= value@);
    assert(buf@ =~= start + tlv_field(tag@, value@));
}

/// Builds the TLV 'E' response matching the LMS format.
/// Tags: NAME (server name), JSON (HTTP port), UUID (server id), VERS (version).
/// The player uses the UDP source IP to determine the server address.
pub fn build_tlv_response(server_name: &str, http_port: u16) -> (buf: Vec<u8>)
    ensures
        buf@ == tlv_response_spec(server_name@, http_port),
{
    let mut buf: Vec<u8> = Vec::with_capacity(128);
    buf.push(('E' as u8));
    push_field(&mut buf, [('N' as u8), ('A' as u8), ('M' as u8), ('E' as u8)], server_name.as_bytes());
    let port_str = u64_to_decimal(http_port as u64);
    push_field(
        &mut buf,
        [('J' as u8), ('S' as u8), ('O' as u8), ('N' as u8)],
        port_str.as_str().as_bytes(),
    );
    push_field(&mut buf, [('U' as u8), ('U' as u8), ('I' as u8), ('D' as u8)], SERVER_UUID.as_bytes());
    push_field(
        &mut buf,
        [('V' as u8), ('E' as u8), ('R' as u8), ('S' as u8)],
        SERVER_VERSION.as_bytes(),
    );
    proof {
        let t1: [u8; 4] = [('N' as u8), ('A' as u8), ('M' as u8), ('E' as u8)];
        assert(t1@ =~= tag_name());
        let t2: [u8; 4] = [('J' as u8), ('S' as u8), ('O' as u8), ('N' as u8)];
        assert(t2@ =~= tag_json());
        let t3: [u8; 4] = [('U' as u8), ('U' as u8), ('I' as u8), ('D' as u8)];
        assert(t3@ =~= tag_uuid());
        let t4: [u8; 4] = [('V' as u8), ('E' as u8), ('R' as u8), ('S' as u8)];
        assert(t4@ =~= tag_version());
    }
    buf
}

/// Builds the legacy 'D' response (18 bytes: 'D' + hostname padded to 17 bytes).
pub fn build_legacy_response(server_name: &str) -> (buf: Vec<u8>)
    ensures
        buf@ == legacy_response_spec(server_name@),
{
    let name_bytes = server_name.as_bytes();
    let len: usize = if name_bytes.len() < 17 {
        name_bytes.len()
    } else {
        17
    };
    let mut buf: Vec<u8> = Vec::with_capacity(18);
    buf.push(('D' as u8));
    let mut i: usize = 0;
    while i < len
        invariant
            len <= name_bytes@.len(),
            len <= 17,
            i <= len,
            buf@ == seq![('D' as u8)] + name_bytes@.take(i as int),
        decreases len - i,
    {
        buf.push(name_bytes[i]);
        i = i + 1;
        assert(buf@ =~= seq![('D' as u8)] + name_bytes@.take(i as int));
    }
    let mut j: usize = len;
    while j < 17
        invariant
            len <= j <= 17,
            buf@ == seq![('D' as u8)] + name_bytes@.take(len as int) + zeros((j - len) as nat),
        decreases 17 - j,
    {
        buf.push(0u8);
        j = j + 1;
        assert(buf@ =~= seq![('D' as u8)] + name_bytes@.take(len as int) + zeros((j - len) as nat));
    }
    buf
}

/// The answer to a discovery packet: a TLV response to 'e', a legacy one to
/// 'd', nothing to an empty packet or any other first byte.
pub fn discovery_reply(packet: &[u8], server_name: &str, http_port: u16) -> (r: Option<Vec<u8>>)
    ensures
        packet@.len() == 0 ==> r is None,
        packet@.len() > 0 ==> match r {
            Some(b) => (packet@[0] == ('e' as u8) && b@ == tlv_response_spec(server_name@, http_port))
                || (packet@[0] == ('d' as u8) && b@ == legacy_response_spec(server_name@)),
            None => packet@[0] != ('e' as u8) && packet@[0] != ('d' as u8),
        },
{
    if packet.len() == 0 {
        return None;
    }
    if packet[0] == ('e' as u8) {
        Some(build_tlv_response(server_name, http_port))
    } else if packet[0] == ('d' as u8) {
        Some(build_legacy_response(server_name))
    } else {
        None
    }
}

} // verus!
