// Decimal and hexadecimal text for integers, in the grammar of std's
// `FromStr` / `Display` for the integer types.

use vstd::prelude::*;
use crate::text::push_char;

verus! {

pub open spec fn is_digit(c: char) -> bool {
    '0' <= c && c <= '9'
}

pub open spec fn all_digits(s: Seq<char>) -> bool {
    forall|i: int| 0 <= i < s.len() ==> #[trigger] is_digit(s[i])
}

pub open spec fn digit_value(c: char) -> nat {
    ((c as u32) - ('0' as u32)) as nat
}

pub open spec fn digit_char(d: nat) -> char
    recommends
        d < 10,
{
    ((d + ('0' as u32)) as u32) as char
}

/// Value of a string of decimal digits (most significant first).
pub open spec fn digits_value(s: Seq<char>) -> nat
    decreases s.len(),
{
    if s.len() == 0 {
        0
    } else {
        digits_value(s.drop_last()) * 10 + digit_value(s.last())
    }
}

/// Unsigned integer text as std's `FromStr` accepts it: an optional `+`, then
/// one or more ASCII digits, with a value not above `max`.
pub open spec fn parse_unsigned(s: Seq<char>, max: nat) -> Option<nat> {
    let d = if s.len() > 0 && s[0] == '+' {
        s.skip(1)
    } else {
        s
    };
    if d.len() == 0 || !all_digits(d) || digits_value(d) > max {
        None
    } else {
        Some(digits_value(d))
    }
}

/// Signed integer text as std's `FromStr` accepts it: an optional `+` or `-`,
/// then one or more ASCII digits, with a value in `min ..= max`.
pub open spec fn parse_signed(s: Seq<char>, min: int, max: int) -> Option<int> {
    let neg = s.len() > 0 && s[0] == '-';
    let d = if s.len() > 0 && (s[0] == '+' || s[0] == '-') {
        s.skip(1)
    } else {
        s
    };
    if d.len() == 0 || !all_digits(d) {
        None
    } else {
        let v: int = if neg {
            -(digits_value(d) as int)
        } else {
            digits_value(d) as int
        };
        if v < min || v > max {
            None
        } else {
            Some(v)
        }
    }
}

/// Decimal text of a natural number, without leading zeros.
pub open spec fn decimal(n: nat) -> Seq<char>
    decreases n,
{
    if n < 10 {
        seq![digit_char(n)]
    } else {
        decimal(n / 10).push(digit_char(n % 10))
    }
}

/// Decimal text of an integer, with a leading `-` when negative.
pub open spec fn decimal_signed(n: int) -> Seq<char> {
    if n < 0 {
        seq!['-'] + decimal((-n) as nat)
    } else {
        decimal(n as nat)
    }
}

pub open spec fn hex_char(d: nat) -> char
    recommends
        d < 16,
{
    if d < 10 {
        digit_char(d)
    } else {
        ((d - 10 + ('a' as u32)) as u32) as char
    }
}

/// Two lowercase hex digits of a byte (`{:02x}`).
pub open spec fn hex2(b: u8) -> Seq<char> {
    seq![hex_char((b / 16) as nat), hex_char((b % 16) as nat)]
}

pub open spec fn hex_digit_value(c: char) -> Option<nat> {
    if '0' <= c && c <= '9' {
        Some(((c as u32) - ('0' as u32)) as nat)
    } else if 'a' <= c && c <= 'f' {
        Some(((c as u32) - ('a' as u32) + 10) as nat)
    } else if 'A' <= c && c <= 'F' {
        Some(((c as u32) - ('A' as u32) + 10) as nat)
    } else {
        None
    }
}

pub open spec fn all_hex_digits(s: Seq<char>) -> bool {
    forall|i: int| 0 <= i < s.len() ==> (#[trigger] hex_digit_value(s[i])) is Some
}

/// Value of a string of hex digits (most significant first).
pub open spec fn hex_value(s: Seq<char>) -> nat
    decreases s.len(),
{
    if s.len() == 0 {
        0
    } else {
        hex_value(s.drop_last()) * 16 + hex_digit_value(s.last()).unwrap_or(0)
    }
}

/// `u8::from_str_radix(s, 16)`: an optional `+`, then one or more hex digits
/// (either case), with a value below 256.
pub open spec fn parse_hex_u8(s: Seq<char>) -> Option<u8> {
    let d = if s.len() > 0 && s[0] == '+' {
        s.skip(1)
    } else {
        s
    };
    if d.len() == 0 || !all_hex_digits(d) || hex_value(d) > 255 {
        None
    } else {
        Some(hex_value(d) as u8)
    }
}

/// Lowercase hex digits of a natural number, at least `width` of them
/// (zero padded on the left), as `{:0width$x}` writes it.
pub open spec fn hex_padded(n: nat, width: nat) -> Seq<char>
    decreases width, n,
{
    if width <= 1 && n < 16 {
        seq![hex_char(n)]
    } else if width <= 1 {
        hex_padded(n / 16, 0).push(hex_char(n % 16))
    } else {
        hex_padded(n / 16, (width - 1) as nat).push(hex_char(n % 16))
    }
}

/// Reading back a digit written by `hex_char`.
pub proof fn lemma_hex_char_value(d: nat)
    requires
        d < 16,
    ensures
        hex_digit_value(hex_char(d)) == Some(d),
        hex_char(d) != '+',
        hex_char(d) != ':',
{
}

/// `{:02x}` read back with `u8::from_str_radix(.., 16)` gives the byte.
pub proof fn lemma_parse_hex2(b: u8)
    ensures
        parse_hex_u8(hex2(b)) == Some(b),
{
    let s = hex2(b);
    lemma_hex_char_value((b / 16) as nat);
    lemma_hex_char_value((b % 16) as nat);
    let first = s.drop_last();
    assert(first.drop_last() =~= Seq::<char>::empty());
    assert(first.last() == s[0]);
    assert(hex_value(first.drop_last()) == 0);
    assert(hex_value(first) == (b / 16) as nat);
    assert(hex_value(s) == (b / 16) as nat * 16 + (b % 16) as nat);
    assert(all_hex_digits(s));
}

/// `10^k`.
pub open spec fn pow10(k: nat) -> nat
    decreases k,
{
    if k == 0 {
        1
    } else {
        10 * pow10((k - 1) as nat)
    }
}

/// `decimal(n)` is one or more digits whose value is `n`.
pub proof fn lemma_decimal_digits(n: nat)
    ensures
        decimal(n).len() >= 1,
        all_digits(decimal(n)),
        digits_value(decimal(n)) == n,
        decimal(n)[0] != '+',
        decimal(n)[0] != '-',
    decreases n,
{
    assert(digit_value(digit_char(n % 10)) == n % 10);
    if n < 10 {
        assert(decimal(n).drop_last() =~= Seq::<char>::empty());
        assert(digit_value(digit_char(n)) == n);
        assert(digits_value(Seq::<char>::empty()) == 0);
        assert(digits_value(decimal(n)) == digits_value(decimal(n).drop_last()) * 10 + digit_value(
            decimal(n).last(),
        ));
    } else {
        lemma_decimal_digits(n / 10);
        lemma_digits_value_push(decimal(n / 10), digit_char(n % 10));
        assert(n == (n / 10) * 10 + n % 10);
        assert(digits_value(decimal(n)) == digits_value(decimal(n / 10)) * 10 + n % 10);
        assert(decimal(n)[0] == decimal(n / 10)[0]);
        assert forall|i: int| 0 <= i < decimal(n).len() implies #[trigger] is_digit(decimal(n)[i]) by {
            if i < decimal(n / 10).len() {
                assert(decimal(n)[i] == decimal(n / 10)[i]);
            }
        }
    }
}

/// A number below `10^k` (k >= 1) has at most `k` decimal digits.
pub proof fn lemma_decimal_len(n: nat, k: nat)
    requires
        k >= 1,
        n < pow10(k),
    ensures
        decimal(n).len() <= k,
    decreases k,
{
    if n >= 10 {
        let k1 = (k - 1) as nat;
        if k1 == 0 {
            reveal_with_fuel(pow10, 2);
            assert(pow10(k) == 10);
        } else {
            assert(n / 10 < pow10(k1)) by (nonlinear_arith)
                requires
                    n < 10 * pow10(k1),
            ;
            lemma_decimal_len(n / 10, k1);
        }
    }
}

/// Reading back a decimal written by `u64_to_decimal`.
pub proof fn lemma_parse_decimal(n: nat, max: nat)
    requires
        n <= max,
    ensures
        parse_unsigned(decimal(n), max) == Some(n),
{
    lemma_decimal_digits(n);
}

pub proof fn lemma_digits_value_push(s: Seq<char>, c: char)
    ensures
        digits_value(s.push(c)) == digits_value(s) * 10 + digit_value(c),
{
    assert(s.push(c).drop_last() =~= s);
}

pub proof fn lemma_hex_value_push(s: Seq<char>, c: char)
    ensures
        hex_value(s.push(c)) == hex_value(s) * 16 + hex_digit_value(c).unwrap_or(0),
{
    assert(s.push(c).drop_last() =~= s);
}

fn digit_to_char(d: u64) -> (c: char)
    requires
        d < 10,
    ensures
        c == digit_char(d as nat),
{
    let b: u8 = (d as u8) + 48;
    b as char
}

fn hex_to_char(d: u64) -> (c: char)
    requires
        d < 16,
    ensures
        c == hex_char(d as nat),
{
    if d < 10 {
        digit_to_char(d)
    } else {
        let b: u8 = (d as u8) - 10 + 97;
        b as char
    }
}

/// Decimal text of an unsigned integer (`u64::to_string`).
pub fn u64_to_decimal(n: u64) -> (s: String)
    ensures
        s@ == decimal(n as nat),
    decreases n,
{
    if n < 10 {
        let mut s = String::new();
        push_char(&mut s, digit_to_char(n));
        assert(s@ =~= decimal(n as nat));
        s
    } else {
        let mut s = u64_to_decimal(n / 10);
        push_char(&mut s, digit_to_char(n % 10));
        s
    }
}

/// Decimal text of a signed integer (`i64::to_string`).
pub fn i64_to_decimal(n: i64) -> (s: String)
    ensures
        s@ == decimal_signed(n as int),
{
    if n < 0 {
        let m: u64 = if n == i64::MIN {
            9223372036854775808u64
        } else {
            (-n) as u64
        };
        let mut s = String::new();
        push_char(&mut s, '-');
        let t = u64_to_decimal(m);
        crate::text::push_str(&mut s, t.as_str());
        assert(s@ =~= decimal_signed(n as int));
        s
    } else {
        u64_to_decimal(n as u64)
    }
}

/// Lowercase hex of `n`, zero padded to at least `width` digits.
pub fn u64_to_hex_padded(n: u64, width: u64) -> (s: String)
    ensures
        s@ == hex_padded(n as nat, width as nat),
    decreases width, n,
{
    if width <= 1 && n < 16 {
        let mut s = String::new();
        push_char(&mut s, hex_to_char(n));
        assert(s@ =~= hex_padded(n as nat, width as nat));
        s
    } else if width <= 1 {
        let mut s = u64_to_hex_padded(n / 16, 0);
        push_char(&mut s, hex_to_char(n % 16));
        s
    } else {
        let mut s = u64_to_hex_padded(n / 16, width - 1);
        push_char(&mut s, hex_to_char(n % 16));
        s
    }
}

/// Appends the two lowercase hex digits of `b` to `s`.
pub fn push_hex2(s: &mut String, b: u8)
    ensures
        final(s)@ == old(s)@ + hex2(b),
{
    push_char(s, hex_to_char((b / 16) as u64));
    push_char(s, hex_to_char((b % 16) as u64));
    assert(final(s)@ =~= old(s)@ + hex2(b));
}

/// Reads an unsigned decimal (after an optional `+`) with a value not above
/// `max`, as std's `FromStr` for the unsigned integer types does.
pub fn parse_unsigned_chars(s: &[char], max: u64) -> (r: Option<u64>)
    ensures
        match parse_unsigned(s@, max as nat) {
            Some(v) => r == Some(v as u64),
            None => r is None,
        },
{
    let start: usize = if s.len() > 0 && s[0] == '+' {
        1
    } else {
        0
    };
    let ghost d = if s@.len() > 0 && s@[0] == '+' {
        s@.skip(1)
    } else {
        s@
    };
    assert(d =~= s@.skip(start as int));
    assert(parse_unsigned(s@, max as nat) == (if d.len() == 0 || !all_digits(d) || digits_value(d)
        > max {
        None::<nat>
    } else {
        Some(digits_value(d))
    }));
    if start == s.len() {
        return None;
    }
    let mut acc: u64 = 0;
    let mut i: usize = start;
    while i < s.len()
        invariant
            start <= i <= s@.len(),
            d =~= s@.skip(start as int),
            parse_unsigned(s@, max as nat) == (if d.len() == 0 || !all_digits(d) || digits_value(d)
                > max {
                None::<nat>
            } else {
                Some(digits_value(d))
            }),
            all_digits(s@.subrange(start as int, i as int)),
            acc as nat == digits_value(s@.subrange(start as int, i as int)),
            acc <= max,
        decreases s@.len() - i,
    {
        let c = s[i];
        if !('0' <= c && c <= '9') {
            assert(d[i - start] == c);
            assert(!is_digit(d[i - start]));
            assert(!all_digits(d));
            return None;
        }
        let dv: u64 = ((c as u32) - 48) as u64;
        assert(d.take(i - start + 1) =~= s@.subrange(start as int, i + 1));
        proof {
            assert(s@.subrange(start as int, i + 1) =~= s@.subrange(start as int, i as int).push(c));
            lemma_digits_value_push(s@.subrange(start as int, i as int), c);
            assert(all_digits(s@.subrange(start as int, i + 1))) by {
                assert forall|j: int| 0 <= j < i + 1 - start implies #[trigger] is_digit(
                    s@.subrange(start as int, i + 1)[j],
                ) by {
                    if j < i - start {
                        assert(s@.subrange(start as int, i + 1)[j] == s@.subrange(
                            start as int,
                            i as int,
                        )[j]);
                    }
                }
            }
            assert(digits_value(d.take(i - start + 1)) == acc * 10 + dv);
        }
        if dv > max {
            proof {
                lemma_digits_value_prefix_mono(d, (i - start + 1) as int);
            }
            return None;
        }
        if acc > (max - dv) / 10 {
            proof {
                assert(acc * 10 + dv > max) by (nonlinear_arith)
                    requires
                        acc > (max - dv) / 10,
                        dv <= max,
                ;
                lemma_digits_value_prefix_mono(d, (i - start + 1) as int);
            }
            return None;
        }
        proof {
            assert(acc * 10 + dv <= max) by (nonlinear_arith)
                requires
                    acc <= (max - dv) / 10,
                    dv <= max,
            ;
        }
        acc = acc * 10 + dv;
        i = i + 1;
    }
    assert(s@.subrange(start as int, s@.len() as int) =~= d);
    Some(acc)
}

/// The digit-string value of a prefix never exceeds that of a longer all-digit prefix.
pub proof fn lemma_digits_value_prefix_mono(d: Seq<char>, k: int)
    requires
        0 <= k <= d.len(),
        all_digits(d.take(k)),
    ensures
        all_digits(d) ==> digits_value(d.take(k)) <= digits_value(d),
    decreases d.len() - k,
{
    if k < d.len() && all_digits(d) {
        lemma_digits_value_prefix_mono(d, k + 1);
        assert(d.take(k + 1).drop_last() =~= d.take(k));
        assert(is_digit(d[k]));
    }
    if k == d.len() {
        assert(d.take(k) =~= d);
    }
}

/// Reads a signed decimal (optional `+` or `-`) with a value in
/// `-max_neg ..= max_pos`, as std's `FromStr` for the signed integer types does.
pub fn parse_signed_chars(s: &[char], max_neg: u64, max_pos: u64) -> (r: Option<(bool, u64)>)
    ensures
        match parse_signed(s@, -(max_neg as int), max_pos as int) {
            Some(v) => r matches Some((neg, m)) && (if neg {
                v == -(m as int) && m > 0
            } else {
                v == m as int
            }),
            None => r is None,
        },
{
    let neg = s.len() > 0 && s[0] == '-';
    let start: usize = if s.len() > 0 && (s[0] == '+' || s[0] == '-') {
        1
    } else {
        0
    };
    let rest = slice_skip(s, start);
    let limit = if neg {
        max_neg
    } else {
        max_pos
    };
    let ghost d = if s@.len() > 0 && (s@[0] == '+' || s@[0] == '-') {
        s@.skip(1)
    } else {
        s@
    };
    assert(rest@ =~= d);
    if rest.len() > 0 && rest[0] == '+' {
        assert(!is_digit(d[0]));
        return None;
    }
    assert(parse_unsigned(rest@, limit as nat) == (if d.len() == 0 || !all_digits(d)
        || digits_value(d) > limit {
        None::<nat>
    } else {
        Some(digits_value(d))
    }));
    match parse_unsigned_chars(rest.as_slice(), limit) {
        Some(m) => {
            if neg && m == 0 {
                Some((false, 0))
            } else {
                Some((neg, m))
            }
        },
        None => None,
    }
}

/// `str::parse::<i64>`.
pub fn parse_i64_text(s: &str) -> (r: Option<i64>)
    ensures
        match parse_signed(s@, i64::MIN as int, i64::MAX as int) {
            Some(v) => r == Some(v as i64),
            None => r is None,
        },
{
    let cs = crate::text::str_chars(s);
    match parse_signed_chars(cs.as_slice(), 0x8000_0000_0000_0000, 0x7fff_ffff_ffff_ffff) {
        Some((neg, m)) => {
            if neg {
                if m == 0x8000_0000_0000_0000 {
                    Some(i64::MIN)
                } else {
                    Some(-(m as i64))
                }
            } else {
                Some(m as i64)
            }
        },
        None => None,
    }
}

/// The tail of a slice from `k` on.
pub fn slice_skip(s: &[char], k: usize) -> (r: Vec<char>)
    requires
        k <= s@.len(),
    ensures
        r@ == s@.skip(k as int),
{
    let mut r: Vec<char> = Vec::new();
    let mut i: usize = k;
    while i < s.len()
        invariant
            k <= i <= s@.len(),
            r@ == s@.subrange(k as int, i as int),
        decreases s@.len() - i,
    {
        r.push(s[i]);
        i = i + 1;
        assert(r@ =~= s@.subrange(k as int, i as int));
    }
    assert(r@ =~= s@.skip(k as int));
    r
}

/// `u8::from_str_radix(s, 16)`.
pub fn parse_hex_u8_chars(s: &[char]) -> (r: Option<u8>)
    ensures
        r == parse_hex_u8(s@),
{
    let start: usize = if s.len() > 0 && s[0] == '+' {
        1
    } else {
        0
    };
    let ghost d = if s@.len() > 0 && s@[0] == '+' {
        s@.skip(1)
    } else {
        s@
    };
    assert(d =~= s@.skip(start as int));
    assert(parse_hex_u8(s@) == (if d.len() == 0 || !all_hex_digits(d) || hex_value(d) > 255 {
        None::<u8>
    } else {
        Some(hex_value(d) as u8)
    }));
    if start == s.len() {
        return None;
    }
    let mut acc: u64 = 0;
    let mut i: usize = start;
    while i < s.len()
        invariant
            start <= i <= s@.len(),
            d =~= s@.skip(start as int),
            parse_hex_u8(s@) == (if d.len() == 0 || !all_hex_digits(d) || hex_value(d) > 255 {
                None::<u8>
            } else {
                Some(hex_value(d) as u8)
            }),
            all_hex_digits(s@.subrange(start as int, i as int)),
            acc as nat == hex_value(s@.subrange(start as int, i as int)),
            acc <= 255,
        decreases s@.len() - i,
    {
        let c = s[i];
        let dv: u64 = if '0' <= c && c <= '9' {
            ((c as u32) - 48) as u64
        } else if 'a' <= c && c <= 'f' {
            ((c as u32) - 97 + 10) as u64
        } else if 'A' <= c && c <= 'F' {
            ((c as u32) - 65 + 10) as u64
        } else {
            assert(d[i - start] == c);
            assert(hex_digit_value(d[i - start]) is None);
            assert(!all_hex_digits(d));
            return None;
        };
        assert(d.take(i - start + 1) =~= s@.subrange(start as int, i + 1));
        proof {
            assert(s@.subrange(start as int, i + 1) =~= s@.subrange(start as int, i as int).push(c));
            lemma_hex_value_push(s@.subrange(start as int, i as int), c);
            assert(all_hex_digits(s@.subrange(start as int, i + 1))) by {
                assert forall|j: int| 0 <= j < i + 1 - start implies (#[trigger] hex_digit_value(
                    s@.subrange(start as int, i + 1)[j],
                )) is Some by {
                    if j < i - start {
                        assert(s@.subrange(start as int, i + 1)[j] == s@.subrange(
                            start as int,
                            i as int,
                        )[j]);
                    }
                }
            }
            assert(hex_value(d.take(i - start + 1)) == acc * 16 + dv);
        }
        if acc * 16 + dv > 255 {
            proof {
                lemma_hex_value_prefix_mono(d, (i - start + 1) as int);
            }
            return None;
        }
        acc = acc * 16 + dv;
        i = i + 1;
    }
    assert(s@.subrange(start as int, s@.len() as int) =~= d);
    Some(acc as u8)
}

/// The hex value of a prefix never exceeds that of a longer all-hex prefix.
pub proof fn lemma_hex_value_prefix_mono(d: Seq<char>, k: int)
    requires
        0 <= k <= d.len(),
        all_hex_digits(d.take(k)),
    ensures
        all_hex_digits(d) ==> hex_value(d.take(k)) <= hex_value(d),
    decreases d.len() - k,
{
    if k < d.len() && all_hex_digits(d) {
        lemma_hex_value_prefix_mono(d, k + 1);
        assert(d.take(k + 1).drop_last() =~= d.take(k));
        assert(hex_digit_value(d[k]) is Some);
    }
    if k == d.len() {
        assert(d.take(k) =~= d);
    }
}

} // verus!
