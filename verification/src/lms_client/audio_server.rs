// The local audio server LMS players fetch our tracks from: its URLs, the
// content types it announces and the byte ranges it serves. The HTTP server
// and the file access are the caller's.

use vstd::prelude::*;
use crate::text::{find_from, lemma_find_from_first, occurs_at};
use crate::numfmt::{all_digits, lemma_decimal_digits, lemma_parse_decimal, decimal, decimal_signed, i64_to_decimal, parse_unsigned, parse_unsigned_chars, u64_to_decimal};
use crate::paths::{is_extension_of, plain_path};
use crate::squeeze::streaming::{content_type_for_extension, lower_extension, lowercase_extension, stream_content_type};
use crate::text::{ascii_lower, chars_eq_str, push_str, str_chars};

verus! {

/// The content type for an extension (lowercased): the streaming types, and
/// "audio/dsf" for DSD files.
pub open spec fn audio_content_type(ext: Seq<char>) -> Seq<char> {
    if ext == "dsf"@ || ext == "dff"@ {
        "audio/dsf"@
    } else {
        stream_content_type(ext)
    }
}

/// The audio server announces DSD files (dsf, dff) as "audio/dsf" and no
/// other file so; every other extension gets the type it is streamed with
/// ("audio/wav" for wav and wave, "application/octet-stream" for unknown
/// ones, and so on).
pub proof fn lemma_audio_content_types(ext: Seq<char>)
    ensures
        (audio_content_type(ext) == "audio/dsf"@) == (ext == "dsf"@ || ext == "dff"@),
        !(ext == "dsf"@ || ext == "dff"@) ==> audio_content_type(ext) == stream_content_type(ext),
{
    reveal_strlit("audio/dsf");
    reveal_strlit("audio/flac");
    reveal_strlit("audio/mpeg");
    reveal_strlit("audio/ogg");
    reveal_strlit("audio/mp4");
    reveal_strlit("audio/wav");
    reveal_strlit("audio/aiff");
    reveal_strlit("audio/x-ms-wma");
    reveal_strlit("application/octet-stream");
    assert("audio/dsf"@.len() != "audio/flac"@.len());
    assert("audio/dsf"@.len() != "audio/mpeg"@.len());
    assert("audio/dsf"@.len() != "audio/aiff"@.len());
    assert("audio/dsf"@.len() != "audio/x-ms-wma"@.len());
    assert("audio/dsf"@.len() != "application/octet-stream"@.len());
    assert("audio/dsf"@[6] != "audio/ogg"@[6]);
    assert("audio/dsf"@[6] != "audio/mp4"@[6]);
    assert("audio/dsf"@[6] != "audio/wav"@[6]);
}

pub fn audio_content_type_for_extension(ext: &[char]) -> (s: &'static str)
    ensures
        s@ == audio_content_type(ext@),
{
    if chars_eq_str(ext, "dsf") || chars_eq_str(ext, "dff") {
        "audio/dsf"
    } else {
        content_type_for_extension(ext)
    }
}

/// The content type of a track file, from its extension (case-insensitive).
pub fn guess_content_type(path: &str) -> (s: String)
    ensures
        s@ == audio_content_type(Seq::empty()) || exists|x: Seq<char>| #[trigger] is_extension_of(path@, x) && s@ == audio_content_type(ascii_lower(x)),
        plain_path(path@) ==> s@ == audio_content_type(lower_extension(path@)),
{
    let e = lowercase_extension(path);
    if e.len() == 0 {
        assert(e@ =~= Seq::<char>::empty());
    }
    String::from_str(audio_content_type_for_extension(e.as_slice()))
}

/// `a.b.c.d`.
pub open spec fn ipv4_text(ip: [u8; 4]) -> Seq<char> {
    decimal(ip[0] as nat) + "."@ + decimal(ip[1] as nat) + "."@ + decimal(ip[2] as nat) + "."@
        + decimal(ip[3] as nat)
}

fn push_server(s: &mut String, local_ip: [u8; 4], port: u16)
    ensures
        final(s)@ == old(s)@ + "http://"@ + ipv4_text(local_ip) + ":"@ + decimal(port as nat),
{
    push_str(s, "http://");
    let a = u64_to_decimal(local_ip[0] as u64);
    push_str(s, a.as_str());
    push_str(s, ".");
    let b = u64_to_decimal(local_ip[1] as u64);
    push_str(s, b.as_str());
    push_str(s, ".");
    let c = u64_to_decimal(local_ip[2] as u64);
    push_str(s, c.as_str());
    push_str(s, ".");
    let d = u64_to_decimal(local_ip[3] as u64);
    push_str(s, d.as_str());
    push_str(s, ":");
    let p = u64_to_decimal(port as u64);
    push_str(s, p.as_str());
}

/// `http://<ip>:<port>`.
pub open spec fn server_text(local_ip: [u8; 4], port: u16) -> Seq<char> {
    "http://"@ + ipv4_text(local_ip) + ":"@ + decimal(port as nat)
}

/// `http://<ip>:<port>/audio/<id>`.
pub open spec fn track_url_text(local_ip: [u8; 4], port: u16, track_id: i64) -> Seq<char> {
    server_text(local_ip, port) + "/audio/"@ + decimal_signed(track_id as int)
}

/// The URL a player streams a track from: `http://<ip>:<port>/audio/<id>`.
pub fn track_url(local_ip: [u8; 4], port: u16, track_id: i64) -> (s: String)
    ensures
        s@ == track_url_text(local_ip, port, track_id),
{
    let mut s = String::new();
    push_server(&mut s, local_ip, port);
    push_str(&mut s, "/audio/");
    let d = i64_to_decimal(track_id);
    push_str(&mut s, d.as_str());
    s
}

proof fn lemma_decimal_no_a(n: nat)
    ensures
        forall|i: int| 0 <= i < decimal(n).len() ==> #[trigger] decimal(n)[i] != 'a',
{
    lemma_decimal_digits(n);
    assert forall|i: int| 0 <= i < decimal(n).len() implies #[trigger] decimal(n)[i] != 'a' by {
        assert(crate::numfmt::is_digit(decimal(n)[i]));
    }
}

/// The server part of a URL holds no `a`.
proof fn lemma_server_text_no_a(local_ip: [u8; 4], port: u16)
    ensures
        forall|i: int| 0 <= i < server_text(local_ip, port).len() ==> #[trigger] server_text(local_ip, port)[i] != 'a',
{
    reveal_strlit("http://");
    reveal_strlit(".");
    reveal_strlit(":");
    lemma_decimal_no_a(local_ip[0] as nat);
    lemma_decimal_no_a(local_ip[1] as nat);
    lemma_decimal_no_a(local_ip[2] as nat);
    lemma_decimal_no_a(local_ip[3] as nat);
    lemma_decimal_no_a(port as nat);
    let t = server_text(local_ip, port);
    assert forall|i: int| 0 <= i < t.len() implies #[trigger] t[i] != 'a' by {
        let h = "http://"@;
        let d0 = decimal(local_ip[0] as nat);
        let d1 = decimal(local_ip[1] as nat);
        let d2 = decimal(local_ip[2] as nat);
        let d3 = decimal(local_ip[3] as nat);
        let dp = decimal(port as nat);
        assert(t =~= h + d0 + "."@ + d1 + "."@ + d2 + "."@ + d3 + ":"@ + dp);
        if i < h.len() {
            assert(t[i] == h[i]);
        } else if i < h.len() + d0.len() {
            assert(t[i] == d0[i - h.len()]);
        } else if i < h.len() + d0.len() + 1 {
            assert(t[i] == '.');
        } else if i < h.len() + d0.len() + 1 + d1.len() {
            assert(t[i] == d1[i - h.len() - d0.len() - 1]);
        } else if i < h.len() + d0.len() + 2 + d1.len() {
            assert(t[i] == '.');
        } else if i < h.len() + d0.len() + 2 + d1.len() + d2.len() {
            assert(t[i] == d2[i - h.len() - d0.len() - 2 - d1.len()]);
        } else if i < h.len() + d0.len() + 3 + d1.len() + d2.len() {
            assert(t[i] == '.');
        } else if i < h.len() + d0.len() + 3 + d1.len() + d2.len() + d3.len() {
            assert(t[i] == d3[i - h.len() - d0.len() - 3 - d1.len() - d2.len()]);
        } else if i < h.len() + d0.len() + 4 + d1.len() + d2.len() + d3.len() {
            assert(t[i] == ':');
        } else {
            assert(t[i] == dp[i - h.len() - d0.len() - 4 - d1.len() - d2.len() - d3.len()]);
        }
    }
}

/// The id of a track URL reads back out of it: `extract_id_from_str` with
/// the pattern "/audio/" gives the id that `track_url` wrote, for every id
/// that is not negative.
pub proof fn lemma_track_url_id_roundtrip(local_ip: [u8; 4], port: u16, track_id: i64)
    requires
        track_id >= 0,
    ensures
        crate::lms_client::extract_id_spec(track_url_text(local_ip, port, track_id), "/audio/"@)
            == Some(track_id),
{
    reveal_strlit("/audio/");
    let pre = server_text(local_ip, port);
    let pat = "/audio/"@;
    let d = decimal(track_id as nat);
    let s = track_url_text(local_ip, port, track_id);
    let k = pre.len() as int;
    assert(s =~= pre + pat + d);
    lemma_server_text_no_a(local_ip, port);
    assert(s.subrange(k, k + 7) =~= pat);
    assert(occurs_at(s, pat, k));
    assert forall|i: int| 0 <= i < k implies !#[trigger] occurs_at(s, pat, i) by {
        if occurs_at(s, pat, i) {
            assert(s.subrange(i, i + 7)[1] == pat[1]);
            assert(s[i + 1] == 'a');
            if i + 1 < k {
                assert(s[i + 1] == pre[i + 1]);
            } else {
                assert(s[i + 1] == pat[0]);
            }
        }
    }
    lemma_find_from_first(s, pat, 0, k);
    assert(s.skip(k + 7) =~= d);
    lemma_decimal_digits(track_id as nat);
    crate::lms_client::lemma_leading_digits_all(d);
    lemma_parse_decimal(track_id as nat, 0x7fff_ffff_ffff_ffff);
}

/// The URL of a track's cover art: `http://<ip>:<port>/cover/<id>`.
pub fn cover_url(local_ip: [u8; 4], port: u16, track_id: i64) -> (s: String)
    ensures
        s@ == "http://"@ + ipv4_text(local_ip) + ":"@ + decimal(port as nat) + "/cover/"@
            + decimal_signed(track_id as int),
{
    let mut s = String::new();
    push_server(&mut s, local_ip, port);
    push_str(&mut s, "/cover/");
    let d = i64_to_decimal(track_id);
    push_str(&mut s, d.as_str());
    s
}

pub open spec fn u64_or(o: Option<nat>, d: u64) -> u64 {
    match o {
        Some(v) => v as u64,
        None => d,
    }
}

/// The byte range named by the text after "bytes=": `<start>-<end>`, split at
/// the first '-'. An unreadable start is 0; a missing, empty or unreadable
/// end is the last byte; the end is capped at the last byte.
pub open spec fn range_spec(range: Seq<char>, file_size: u64) -> (u64, u64) {
    let last = (file_size - 1) as u64;
    match find_from(range, seq!['-'], 0) {
        None => (u64_or(parse_unsigned(range, u64::MAX as nat), 0), last),
        Some(i) => {
            let start = u64_or(parse_unsigned(range.take(i), u64::MAX as nat), 0);
            let rest = range.skip(i + 1);
            let end = if rest.len() == 0 {
                last
            } else {
                u64_or(parse_unsigned(rest, u64::MAX as nat), last)
            };
            (start, if end < last {
                end
            } else {
                last
            })
        },
    }
}

/// The `-` in `<a>-<rest>` with `a` written in decimal is the first one.
proof fn lemma_dash_after_decimal(a: u64, rest: Seq<char>)
    ensures
        find_from(decimal(a as nat) + seq!['-'] + rest, seq!['-'], 0) == Some(
            decimal(a as nat).len() as int,
        ),
{
    let d = decimal(a as nat);
    let s = d + seq!['-'] + rest;
    let k = d.len() as int;
    lemma_decimal_digits(a as nat);
    assert(s.subrange(k, k + 1) =~= seq!['-']);
    assert forall|i: int| 0 <= i < k implies !#[trigger] occurs_at(s, seq!['-'], i) by {
        assert(s[i] == d[i]);
        assert(crate::numfmt::is_digit(d[i]));
        assert(s.subrange(i, i + 1)[0] == s[i]);
    }
    lemma_find_from_first(s, seq!['-'], 0, k);
}

/// Byte ranges name absolute offsets: for a range text `<a>-<b>` with both
/// in decimal, the range runs from byte `a` to byte `b`, with `b` capped at
/// the file's last byte; `<a>-` runs from `a` to the last byte, and `-<b>`
/// from the first byte to `b` (capped alike). Whatever the
/// text, the end never passes the last byte.
pub proof fn lemma_range_offsets(a: u64, b: u64, file_size: u64)
    requires
        file_size > 0,
    ensures
        range_spec(decimal(a as nat) + "-"@ + decimal(b as nat), file_size) == (a, if b
            < file_size - 1 {
            b
        } else {
            (file_size - 1) as u64
        }),
        range_spec(decimal(a as nat) + "-"@, file_size) == (a, (file_size - 1) as u64),
        range_spec("-"@ + decimal(b as nat), file_size) == (0u64, if b < file_size - 1 {
            b
        } else {
            (file_size - 1) as u64
        }),
        forall|r: Seq<char>| #[trigger] range_spec(r, file_size).1 <= file_size - 1,
{
    reveal_strlit("-");
    let da = decimal(a as nat);
    let db = decimal(b as nat);
    let k = da.len() as int;
    assert("-"@ =~= seq!['-']);
    lemma_dash_after_decimal(a, db);
    lemma_dash_after_decimal(a, Seq::empty());
    assert(da + seq!['-'] + Seq::<char>::empty() =~= da + "-"@);
    let s1 = da + "-"@ + db;
    let s2 = da + "-"@;
    assert(s1.take(k) =~= da);
    assert(s1.skip(k + 1) =~= db);
    assert(s2.take(k) =~= da);
    assert(s2.skip(k + 1) =~= Seq::<char>::empty());
    lemma_parse_decimal(a as nat, u64::MAX as nat);
    lemma_parse_decimal(b as nat, u64::MAX as nat);
    lemma_decimal_digits(b as nat);
    let s3 = "-"@ + db;
    assert(s3.subrange(0, 1) =~= seq!['-']);
    lemma_find_from_first(s3, seq!['-'], 0, 0);
    assert(s3.take(0) =~= Seq::<char>::empty());
    assert(s3.skip(1) =~= db);
}

/// Parses an HTTP range (the part after "bytes=") for a file of `file_size`
/// bytes.
pub fn parse_range(range_str: &str, file_size: u64) -> (r: (u64, u64))
    requires
        file_size > 0,
    ensures
        r == range_spec(range_str@, file_size),
{
    let cs = str_chars(range_str);
    let last = file_size - 1;
    let mut i: usize = 0;
    while i < cs.len() && cs[i] != '-'
        invariant
            i <= cs@.len(),
            find_from(cs@, seq!['-'], 0) == find_from(cs@, seq!['-'], i as int),
        decreases cs@.len() - i,
    {
        assert(cs@.subrange(i as int, i + 1) =~= seq![cs@[i as int]]);
        assert(seq![cs@[i as int]][0] != seq!['-'][0]);
        assert(!crate::text::occurs_at(cs@, seq!['-'], i as int));
        i = i + 1;
    }
    if i == cs.len() {
        let start = match parse_unsigned_chars(cs.as_slice(), u64::MAX) {
            Some(v) => v,
            None => 0,
        };
        return (start, last);
    }
    assert(cs@.subrange(i as int, i + 1) =~= seq!['-']);
    let ghost cut = i as int;
    let mut head: Vec<char> = Vec::new();
    let mut k: usize = 0;
    while k < i
        invariant
            i < cs@.len(),
            k <= i,
            head@ == cs@.take(k as int),
        decreases i - k,
    {
        head.push(cs[k]);
        k = k + 1;
        assert(head@ =~= cs@.take(k as int));
    }
    let tail = crate::numfmt::slice_skip(cs.as_slice(), i + 1);
    let start = match parse_unsigned_chars(head.as_slice(), u64::MAX) {
        Some(v) => v,
        None => 0,
    };
    let end = if tail.len() == 0 {
        last
    } else {
        match parse_unsigned_chars(tail.as_slice(), u64::MAX) {
            Some(v) => v,
            None => last,
        }
    };
    (start, if end < last {
        end
    } else {
        last
    })
}

/// The Content-Range value of a partial answer: `bytes <start>-<end>/<size>`.
pub fn content_range(start: u64, end: u64, file_size: u64) -> (s: String)
    ensures
        s@ == "bytes "@ + decimal(start as nat) + "-"@ + decimal(end as nat) + "/"@ + decimal(
            file_size as nat,
        ),
{
    let mut s = String::from_str("bytes ");
    let a = u64_to_decimal(start);
    push_str(&mut s, a.as_str());
    push_str(&mut s, "-");
    let b = u64_to_decimal(end);
    push_str(&mut s, b.as_str());
    push_str(&mut s, "/");
    let c = u64_to_decimal(file_size);
    push_str(&mut s, c.as_str());
    s
}

} // verus!
