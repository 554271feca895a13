//! Text primitives: string comparison and base-10 integer parsing.

use vstd::prelude::*;
use vstd::utf8::*;
use vstd::string::*;

verus! {

/// `true` exactly when the two strings hold the same characters.
pub fn str_eq(a: &str, b: &str) -> (same: bool)
    ensures
        same == (a@ == b@),
{
    let x = a.as_bytes();
    let y = b.as_bytes();
    proof {
        encode_utf8_decode_utf8(a@);
        encode_utf8_decode_utf8(b@);
    }
    if x.len() != y.len() {
        return false;
    }
    let mut i: usize = 0;
    while i < x.len()
        invariant
            x@.len() == y@.len(),
            x@ == encode_utf8(a@),
            y@ == encode_utf8(b@),
            i <= x@.len(),
            forall|j: int| 0 <= j < i ==> x@[j] == y@[j],
        decreases x@.len() - i,
    {
        if x[i] != y[i] {
            return false;
        }
        i += 1;
    }
    assert(x@ =~= y@);
    true
}

/// A decimal digit.
pub open spec fn is_digit(c: char) -> bool {
    '0' <= c && c <= '9'
}

/// The number a decimal digit stands for.
pub open spec fn digit_value(c: char) -> nat {
    (c as u32 - '0' as u32) as nat
}

/// Every character is a decimal digit.
pub open spec fn all_digits(s: Seq<char>) -> bool {
    forall|i: int| 0 <= i < s.len() ==> is_digit(#[trigger] s[i])
}

/// The number written by a string of decimal digits, most significant first.
pub open spec fn digits_value(s: Seq<char>) -> nat
    decreases s.len(),
{
    if s.len() == 0 {
        0
    } else {
        digits_value(s.drop_last()) * 10 + digit_value(s.last())
    }
}

/// The digits of an unsigned numeral: the text without one leading `+`.
pub open spec fn unsigned_digits(s: Seq<char>) -> Seq<char> {
    if s.len() > 0 && s[0] == '+' {
        s.skip(1)
    } else {
        s
    }
}

/// The number written by `d`, where `d` is one or more digits and the number
/// is at most `max`. Anything else has no value.
pub open spec fn magnitude_spec(d: Seq<char>, max: nat) -> Option<u32> {
    if d.len() > 0 && all_digits(d) && digits_value(d) <= max {
        Some(digits_value(d) as u32)
    } else {
        None
    }
}

/// The value of a base-10 numeral that fits in 32 unsigned bits: an optional
/// `+`, then one or more digits. Anything else has no value.
pub open spec fn parse_u32_spec(s: Seq<char>) -> Option<u32> {
    magnitude_spec(unsigned_digits(s), 0xffff_ffff)
}

/// The value of a base-10 numeral that fits in 32 signed bits: an optional
/// `+` or `-`, then one or more digits. Anything else has no value.
pub open spec fn parse_i32_spec(s: Seq<char>) -> Option<i32> {
    if s.len() > 0 && s[0] == '-' {
        match magnitude_spec(s.skip(1), 0x8000_0000) {
            Some(m) => Some((0 - m) as i32),
            None => None,
        }
    } else {
        match magnitude_spec(unsigned_digits(s), 0x7fff_ffff) {
            Some(m) => Some(m as i32),
            None => None,
        }
    }
}

/// A longer digit string never writes a smaller number than its prefix.
pub proof fn lemma_digits_prefix(s: Seq<char>, k: int)
    requires
        0 <= k <= s.len(),
    ensures
        digits_value(s.take(k)) <= digits_value(s),
    decreases s.len() - k,
{
    if k < s.len() {
        lemma_digits_prefix(s, k + 1);
        assert(s.take(k + 1).drop_last() =~= s.take(k));
    } else {
        assert(s.take(k) =~= s);
    }
}

/// A text with a character beyond ASCII is no numeral.
pub proof fn lemma_numerals_are_ascii(s: Seq<char>)
    requires
        !is_ascii_chars(s),
    ensures
        parse_u32_spec(s) is None,
        parse_i32_spec(s) is None,
{
    let i = choose|i: int| 0 <= i < s.len() && !('\0' <= #[trigger] s[i] <= '\u{7f}');
    if i == 0 {
        assert(!is_digit(s[0]));
        assert(s[0] != '+' && s[0] != '-');
    } else {
        assert(s.skip(1)[i - 1] == s[i]);
        assert(!is_digit(s.skip(1)[i - 1]));
        assert(!is_digit(s[i]));
    }
}

/// Reads the digits of an ASCII text from `start` on, up to `max`.
fn magnitude(s: &str, start: usize, max: u32) -> (r: Option<u32>)
    requires
        is_ascii(s),
        start <= s@.len(),
    ensures
        r == magnitude_spec(s@.skip(start as int), max as nat),
{
    let b = s.as_bytes();
    proof {
        is_ascii_spec_bytes(s);
    }
    let n = b.len();
    let ghost d = s@.skip(start as int);
    if start == n {
        return None;
    }
    let mut i: usize = start;
    let mut value: u32 = 0;
    while i < n
        invariant
            start <= i <= n,
            n == s@.len(),
            b@.len() == n,
            forall|j: int| 0 <= j < n ==> b@[j] == s@[j] as u8,
            is_ascii_chars(s@),
            d == s@.skip(start as int),
            all_digits(d.take(i - start)),
            value == digits_value(d.take(i - start)),
            value <= max,
        decreases n - i,
    {
        let c = b[i];
        if c < 48u8 || c > 57u8 {
            proof {
                assert(d[i - start] == s@[i as int]);
                assert(!is_digit(d[i - start]));
            }
            return None;
        }
        let digit: u64 = (c - 48u8) as u64;
        proof {
            assert(d[i - start] == s@[i as int]);
            assert(d.take(i - start + 1).drop_last() =~= d.take(i - start));
            assert(d.take(i - start + 1).last() == d[i - start]);
            assert(digit_value(d[i - start]) == digit);
            lemma_digits_prefix(d, i - start + 1);
        }
        let next: u64 = (value as u64) * 10 + digit;
        if next > max as u64 {
            return None;
        }
        value = next as u32;
        proof {
            assert forall|j: int| 0 <= j < d.take(i - start + 1).len() implies is_digit(
                #[trigger] d.take(i - start + 1)[j],
            ) by {
                if j < i - start {
                    assert(d.take(i - start)[j] == d[j]);
                }
            }
        }
        i += 1;
    }
    assert(d.take(i - start) =~= d);
    Some(value)
}

/// Parses a base-10 unsigned integer.
pub fn parse_u32(s: &str) -> (r: Option<u32>)
    ensures
        r == parse_u32_spec(s@),
{
    if !s.is_ascii() {
        proof {
            lemma_numerals_are_ascii(s@);
        }
        return None;
    }
    let b = s.as_bytes();
    proof {
        is_ascii_spec_bytes(s);
    }
    if b.len() > 0 && b[0] == 43u8 {
        magnitude(s, 1, 0xffff_ffff)
    } else {
        assert(s@.skip(0) =~= s@);
        magnitude(s, 0, 0xffff_ffff)
    }
}

/// Parses a base-10 signed integer.
pub fn parse_i32(s: &str) -> (r: Option<i32>)
    ensures
        r == parse_i32_spec(s@),
{
    if !s.is_ascii() {
        proof {
            lemma_numerals_are_ascii(s@);
        }
        return None;
    }
    let b = s.as_bytes();
    proof {
        is_ascii_spec_bytes(s);
    }
    if b.len() > 0 && b[0] == 45u8 {
        match magnitude(s, 1, 0x8000_0000) {
            Some(m) => Some((0 - (m as i64)) as i32),
            None => None,
        }
    } else if b.len() > 0 && b[0] == 43u8 {
        match magnitude(s, 1, 0x7fff_ffff) {
            Some(m) => Some(m as i32),
            None => None,
        }
    } else {
        assert(s@.skip(0) =~= s@);
        match magnitude(s, 0, 0x7fff_ffff) {
            Some(m) => Some(m as i32),
            None => None,
        }
    }
}

/// The character for a digit.
pub open spec fn digit_char(d: nat) -> char {
    seq!['0', '1', '2', '3', '4', '5', '6', '7', '8', '9'][(d % 10) as int]
}

/// The base-10 numeral of a number, without sign or leading zeros.
pub open spec fn decimal(n: nat) -> Seq<char>
    decreases n,
{
    if n < 10 {
        seq![digit_char(n)]
    } else {
        decimal(n / 10).push(digit_char(n % 10))
    }
}

/// A numeral is made of digits and writes its number.
pub proof fn lemma_decimal_digits(n: nat)
    ensures
        decimal(n).len() > 0,
        all_digits(decimal(n)),
        digits_value(decimal(n)) == n,
    decreases n,
{
    let d = n % 10;
    assert(is_digit(digit_char(d)) && digit_value(digit_char(d)) == d) by {
        assert(d < 10);
        if d == 0 {
        } else if d == 1 {
        } else if d == 2 {
        } else if d == 3 {
        } else if d == 4 {
        } else if d == 5 {
        } else if d == 6 {
        } else if d == 7 {
        } else if d == 8 {
        } else {
        }
    }
    if n < 10 {
        assert(decimal(n).drop_last() =~= Seq::<char>::empty());
        assert(digits_value(decimal(n).drop_last()) == 0);
    } else {
        lemma_decimal_digits(n / 10);
        assert(decimal(n).drop_last() =~= decimal(n / 10));
        assert(decimal(n).last() == digit_char(d));
    }
}

/// Reading the numeral of a 32-bit number gives the number back.
pub proof fn lemma_decimal_parses(n: nat)
    requires
        n <= 0xffff_ffff,
    ensures
        parse_u32_spec(decimal(n)) == Some(n as u32),
{
    lemma_decimal_digits(n);
    assert(is_digit(decimal(n)[0]));
}

/// The value of `true` or `false`, written so.
pub open spec fn parse_bool_spec(s: Seq<char>) -> Option<bool> {
    if s == "true"@ {
        Some(true)
    } else if s == "false"@ {
        Some(false)
    } else {
        None
    }
}

/// Parses `true` or `false`.
pub fn parse_bool(s: &str) -> (r: Option<bool>)
    ensures
        r == parse_bool_spec(s@),
{
    if str_eq(s, "true") {
        Some(true)
    } else if str_eq(s, "false") {
        Some(false)
    } else {
        None
    }
}

} // verus!
