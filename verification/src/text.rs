// Character and byte-string helpers shared by the protocol code.

use vstd::prelude::*;

verus! {

/// What `String::from_utf8_lossy` makes of a byte sequence.
pub uninterp spec fn lossy_utf8(bytes: Seq<u8>) -> Seq<char>;

/// Decodes bytes as UTF-8, replacing invalid sequences (std's
/// `String::from_utf8_lossy`). On valid UTF-8 the result is exactly the
/// decoded text; on invalid input only the name `lossy_utf8` is claimed.
#[verifier::external_body]
pub(crate) fn utf8_lossy(bytes: &[u8]) -> (s: String)
    ensures
        s@ == lossy_utf8(bytes@),
        vstd::utf8::valid_utf8(bytes@) ==> s@ == vstd::utf8::decode_utf8(bytes@),
{
    String::from_utf8_lossy(bytes).to_string()
}

/// The text of a byte string if it is valid UTF-8 (std's `str::from_utf8`,
/// taken as an owned string): `None` exactly when the bytes are not UTF-8.
#[verifier::external_body]
pub(crate) fn utf8_text(bytes: &[u8]) -> (r: Option<String>)
    ensures
        r is Some <==> vstd::utf8::valid_utf8(bytes@),
        r matches Some(s) ==> s@ == vstd::utf8::decode_utf8(bytes@),
{
    std::str::from_utf8(bytes).ok().map(|s| s.to_string())
}

/// Appends one character to a string (std's `String::push`).
#[verifier::external_body]
pub(crate) fn push_char(s: &mut String, c: char)
    ensures
        final(s)@ == old(s)@.push(c),
{
    s.push(c);
}

/// The characters of a string slice, in order.
pub fn str_chars(s: &str) -> (v: Vec<char>)
    ensures
        v@ == s@,
{
    let n = s.unicode_len();
    let mut v: Vec<char> = Vec::new();
    let mut i: usize = 0;
    while i < n
        invariant
            n == s@.len(),
            i <= n,
            v@ == s@.take(i as int),
        decreases n - i,
    {
        let c = s.get_char(i);
        v.push(c);
        i = i + 1;
        assert(v@ =~= s@.take(i as int));
    }
    assert(v@ =~= s@);
    v
}

/// A string holding exactly the given characters.
pub fn string_from_chars(cs: &[char]) -> (s: String)
    ensures
        s@ == cs@,
{
    let mut s = String::new();
    let mut i: usize = 0;
    while i < cs.len()
        invariant
            i <= cs@.len(),
            s@ == cs@.take(i as int),
        decreases cs@.len() - i,
    {
        push_char(&mut s, cs[i]);
        i = i + 1;
        assert(s@ =~= cs@.take(i as int));
    }
    assert(s@ =~= cs@);
    s
}

/// Appends every character of `t` to `s`.
pub fn push_str(s: &mut String, t: &str)
    ensures
        final(s)@ == old(s)@ + t@,
{
    s.append(t);
}

/// ASCII lowercase of one character (non-ASCII-uppercase characters unchanged).
pub open spec fn ascii_lower_char(c: char) -> char {
    if 'A' <= c && c <= 'Z' {
        ((c as u32) + 32) as char
    } else {
        c
    }
}

/// ASCII lowercase of a character sequence, as `str::to_ascii_lowercase` does.
pub open spec fn ascii_lower(s: Seq<char>) -> Seq<char> {
    s.map_values(|c: char| ascii_lower_char(c))
}

/// ASCII uppercase of one character (non-ASCII-lowercase characters unchanged).
pub open spec fn ascii_upper_char(c: char) -> char {
    if 'a' <= c && c <= 'z' {
        ((c as u32) - 32) as char
    } else {
        c
    }
}

/// ASCII uppercase of a character sequence, as `str::to_ascii_uppercase` does.
pub open spec fn ascii_upper(s: Seq<char>) -> Seq<char> {
    s.map_values(|c: char| ascii_upper_char(c))
}

pub fn to_ascii_lower_char(c: char) -> (r: char)
    ensures
        r == ascii_lower_char(c),
{
    if 'A' <= c && c <= 'Z' {
        let code: u32 = (c as u32) + 32;
        proof {
            assert(0x61 <= code <= 0x7a);
        }
        char_from_ascii_code(code)
    } else {
        c
    }
}

/// The character with a given code in the lowercase ASCII letter range.
fn char_from_ascii_code(code: u32) -> (c: char)
    requires
        0x61 <= code <= 0x7a,
    ensures
        c == code as char,
{
    let b: u8 = code as u8;
    b as char
}

/// ASCII lowercase copy of a character sequence.
pub fn to_ascii_lower(cs: &[char]) -> (r: Vec<char>)
    ensures
        r@ == ascii_lower(cs@),
{
    let mut r: Vec<char> = Vec::new();
    let mut i: usize = 0;
    while i < cs.len()
        invariant
            i <= cs@.len(),
            r@ == ascii_lower(cs@.take(i as int)),
        decreases cs@.len() - i,
    {
        let c = to_ascii_lower_char(cs[i]);
        r.push(c);
        i = i + 1;
        assert(ascii_lower(cs@.take(i as int)) =~= ascii_lower(cs@.take((i - 1) as int)).push(
            ascii_lower_char(cs@[i - 1]),
        ));
    }
    assert(cs@.take(cs@.len() as int) =~= cs@);
    r
}

/// Whether two character slices hold the same characters.
pub fn chars_eq(a: &[char], b: &[char]) -> (r: bool)
    ensures
        r == (a@ == b@),
{
    if a.len() != b.len() {
        return false;
    }
    let mut i: usize = 0;
    while i < a.len()
        invariant
            a@.len() == b@.len(),
            i <= a@.len(),
            forall|j: int| 0 <= j < i ==> a@[j] == b@[j],
        decreases a@.len() - i,
    {
        if a[i] != b[i] {
            return false;
        }
        i = i + 1;
    }
    assert(a@ =~= b@);
    true
}

/// Whether a character slice holds the same characters as a string slice.
pub fn chars_eq_str(a: &[char], b: &str) -> (r: bool)
    ensures
        r == (a@ == b@),
{
    let bv = str_chars(b);
    chars_eq(a, bv.as_slice())
}

// ── Searching ───────────────────────────────────────────────────────────────

/// Whether `pat` occurs in `s` at `i`.
pub open spec fn occurs_at(s: Seq<char>, pat: Seq<char>, i: int) -> bool {
    0 <= i && i + pat.len() <= s.len() && s.subrange(i, i + pat.len()) == pat
}

/// The first position at or after `i` where `pat` occurs in `s`.
pub open spec fn find_from(s: Seq<char>, pat: Seq<char>, i: int) -> Option<int>
    decreases s.len() + 1 - i,
{
    if i < 0 || i + pat.len() > s.len() {
        None
    } else if occurs_at(s, pat, i) {
        Some(i)
    } else {
        find_from(s, pat, i + 1)
    }
}

fn occurs_at_exec(s: &[char], pat: &[char], i: usize) -> (r: bool)
    requires
        i + pat@.len() <= s@.len(),
    ensures
        r == occurs_at(s@, pat@, i as int),
{
    let mut k: usize = 0;
    while k < pat.len()
        invariant
            i + pat@.len() <= s@.len(),
            s@.len() == s.len(),
            pat@.len() == pat.len(),
            k <= pat@.len(),
            s@.subrange(i as int, i + k) == pat@.take(k as int),
        decreases pat@.len() - k,
    {
        if s[i + k] != pat[k] {
            assert(s@.subrange(i as int, i + pat@.len())[k as int] != pat@[k as int]);
            return false;
        }
        k = k + 1;
        assert(s@.subrange(i as int, i + k) =~= pat@.take(k as int));
    }
    assert(pat@.take(pat@.len() as int) =~= pat@);
    true
}

/// The first position where `pat` occurs in `s`.
pub fn find_chars(sc: &[char], pc: &[char]) -> (r: Option<usize>)
    ensures
        match r {
            Some(k) => find_from(sc@, pc@, 0) == Some(k as int),
            None => find_from(sc@, pc@, 0) is None,
        },
{
    if pc.len() > sc.len() {
        assert(find_from(sc@, pc@, 0) is None);
        return None;
    }
    let last = sc.len() - pc.len();
    let mut i: usize = 0;
    while i <= last
        invariant
            last == sc@.len() - pc@.len(),
            i <= last + 1,
            find_from(sc@, pc@, 0) == find_from(sc@, pc@, i as int),
        decreases last + 1 - i,
    {
        if occurs_at_exec(sc, pc, i) {
            return Some(i);
        }
        if i == last {
            return None;
        }
        i = i + 1;
    }
    None
}

pub proof fn lemma_find_from_occurs(s: Seq<char>, pat: Seq<char>, i: int)
    ensures
        find_from(s, pat, i) matches Some(k) ==> i <= k && occurs_at(s, pat, k),
    decreases s.len() + 1 - i,
{
    if !(i < 0 || i + pat.len() > s.len()) && !occurs_at(s, pat, i) {
        lemma_find_from_occurs(s, pat, i + 1);
    }
}

/// The first occurrence from `j` on is found.
pub proof fn lemma_find_from_first(s: Seq<char>, pat: Seq<char>, j: int, k: int)
    requires
        0 <= j <= k,
        occurs_at(s, pat, k),
        forall|i: int| j <= i < k ==> !#[trigger] occurs_at(s, pat, i),
    ensures
        find_from(s, pat, j) == Some(k),
    decreases k - j,
{
    if j < k {
        lemma_find_from_first(s, pat, j + 1, k);
    }
}

/// Whether `pat` occurs in `s` (`str::contains`).
pub open spec fn contains_text(s: Seq<char>, pat: Seq<char>) -> bool {
    find_from(s, pat, 0) is Some
}

pub fn contains_str(s: &str, pat: &str) -> (r: bool)
    ensures
        r == contains_text(s@, pat@),
{
    let sc = str_chars(s);
    let pc = str_chars(pat);
    find_chars(sc.as_slice(), pc.as_slice()).is_some()
}

} // verus!
