//! Real numbers in a document. Their values are not computed here: a field
//! that holds one keeps the text, once the text is known to write a number.
//! The same goes for the corners of a path, which are pairs of real numbers.

use vstd::prelude::*;
use vstd::string::*;
use vstd::utf8::is_ascii_chars;
use crate::attrs::{attr_value, find_attr};
use crate::events::{views, Attribute, AttributeView};
use crate::text::is_digit;

verus! {

/// How many digits a text begins with.
pub open spec fn digit_run(s: Seq<char>) -> nat
    decreases s.len(),
{
    if s.len() > 0 && is_digit(s[0]) {
        1 + digit_run(s.skip(1))
    } else {
        0
    }
}

/// The text without one leading sign.
pub open spec fn unsigned(s: Seq<char>) -> Seq<char> {
    if s.len() > 0 && (s[0] == '+' || s[0] == '-') {
        s.skip(1)
    } else {
        s
    }
}

/// Nothing, or an exponent: `e` or `E`, an optional sign, and digits.
pub open spec fn is_exponent(s: Seq<char>) -> bool {
    s.len() == 0 || ((s[0] == 'e' || s[0] == 'E') && unsigned(s.skip(1)).len() > 0 && digit_run(
        unsigned(s.skip(1)),
    ) == unsigned(s.skip(1)).len())
}

/// Digits with an optional point among them, at least one digit in all, and
/// an optional exponent.
pub open spec fn is_decimal(s: Seq<char>) -> bool {
    let whole = digit_run(s);
    let rest = s.skip(whole as int);
    if rest.len() > 0 && rest[0] == '.' {
        let fraction = digit_run(rest.skip(1));
        whole + fraction > 0 && is_exponent(rest.skip(1 + fraction as int))
    } else {
        whole > 0 && is_exponent(rest)
    }
}

/// The letter `lower`, in either case.
pub open spec fn is_letter(c: char, lower: char, upper: char) -> bool {
    c == lower || c == upper
}

/// One of the words `inf`, `infinity` and `nan`, in any mix of cases.
pub open spec fn is_special(s: Seq<char>) -> bool {
    ||| s.len() == 3 && is_letter(s[0], 'i', 'I') && is_letter(s[1], 'n', 'N') && is_letter(
        s[2],
        'f',
        'F',
    )
    ||| s.len() == 3 && is_letter(s[0], 'n', 'N') && is_letter(s[1], 'a', 'A') && is_letter(
        s[2],
        'n',
        'N',
    )
    ||| s.len() == 8 && is_letter(s[0], 'i', 'I') && is_letter(s[1], 'n', 'N') && is_letter(
        s[2],
        'f',
        'F',
    ) && is_letter(s[3], 'i', 'I') && is_letter(s[4], 'n', 'N') && is_letter(s[5], 'i', 'I')
        && is_letter(s[6], 't', 'T') && is_letter(s[7], 'y', 'Y')
}

/// Whether a text writes a real number: ASCII only, an optional sign, then a
/// decimal number or one of the words for infinity and for no number.
pub open spec fn is_real(s: Seq<char>) -> bool {
    is_ascii_chars(s) && (is_special(unsigned(s)) || is_decimal(unsigned(s)))
}

/// The bytes are those of a text that is all ASCII.
pub open spec fn spells(b: Seq<u8>, s: Seq<char>) -> bool {
    &&& b.len() == s.len()
    &&& is_ascii_chars(s)
    &&& forall|j: int| 0 <= j < s.len() ==> b[j] == s[j] as u8
}

/// Counts the digits from `start` on.
fn count_digits(b: &[u8], start: usize, Ghost(s): Ghost<Seq<char>>) -> (end: usize)
    requires
        start <= b@.len(),
        spells(b@, s),
    ensures
        start <= end <= b@.len(),
        end - start == digit_run(s.skip(start as int)),
{
    let mut end: usize = start;
    while end < b.len() && 48u8 <= b[end] && b[end] <= 57u8
        invariant
            start <= end <= b@.len(),
            spells(b@, s),
            digit_run(s.skip(start as int)) == (end - start) + digit_run(s.skip(end as int)),
        decreases b@.len() - end,
    {
        assert(s.skip(end as int)[0] == s[end as int]);
        assert(s.skip(end as int).skip(1) =~= s.skip(end + 1));
        end += 1;
    }
    proof {
        if end < b@.len() {
            assert(s.skip(end as int)[0] == s[end as int]);
        }
    }
    end
}

/// Whether the byte at `at` is one of two ASCII characters.
fn either(b: &[u8], at: usize, lower: u8, upper: u8, Ghost(s): Ghost<Seq<char>>, Ghost(
    l,
): Ghost<char>, Ghost(u): Ghost<char>) -> (r: bool)
    requires
        at < b@.len(),
        spells(b@, s),
        l <= '\u{7f}',
        u <= '\u{7f}',
        lower == l as u8,
        upper == u as u8,
    ensures
        r == is_letter(s[at as int], l, u),
{
    b[at] == lower || b[at] == upper
}

/// Whether the text from `start` on is one of the words for infinity and
/// for no number.
fn special_at(b: &[u8], start: usize, Ghost(s): Ghost<Seq<char>>) -> (r: bool)
    requires
        start <= b@.len(),
        spells(b@, s),
    ensures
        r == is_special(s.skip(start as int)),
{
    let ghost u = s.skip(start as int);
    assert(forall|j: int| 0 <= j < u.len() ==> u[j] == s[j + start]);
    let m = b.len() - start;
    if m == 3 {
        let inf = either(b, start, 105, 73, Ghost(s), Ghost('i'), Ghost('I')) && either(
            b,
            start + 1,
            110,
            78,
            Ghost(s),
            Ghost('n'),
            Ghost('N'),
        ) && either(b, start + 2, 102, 70, Ghost(s), Ghost('f'), Ghost('F'));
        let nan = either(b, start, 110, 78, Ghost(s), Ghost('n'), Ghost('N')) && either(
            b,
            start + 1,
            97,
            65,
            Ghost(s),
            Ghost('a'),
            Ghost('A'),
        ) && either(b, start + 2, 110, 78, Ghost(s), Ghost('n'), Ghost('N'));
        inf || nan
    } else if m == 8 {
        let inf = either(b, start, 105, 73, Ghost(s), Ghost('i'), Ghost('I')) && either(
            b,
            start + 1,
            110,
            78,
            Ghost(s),
            Ghost('n'),
            Ghost('N'),
        ) && either(b, start + 2, 102, 70, Ghost(s), Ghost('f'), Ghost('F'));
        let ini = either(b, start + 3, 105, 73, Ghost(s), Ghost('i'), Ghost('I')) && either(
            b,
            start + 4,
            110,
            78,
            Ghost(s),
            Ghost('n'),
            Ghost('N'),
        ) && either(b, start + 5, 105, 73, Ghost(s), Ghost('i'), Ghost('I'));
        let ty = either(b, start + 6, 116, 84, Ghost(s), Ghost('t'), Ghost('T')) && either(
            b,
            start + 7,
            121,
            89,
            Ghost(s),
            Ghost('y'),
            Ghost('Y'),
        );
        inf && ini && ty
    } else {
        false
    }
}

/// Whether the text from `at` on is empty or an exponent.
fn exponent_at(b: &[u8], at: usize, Ghost(s): Ghost<Seq<char>>) -> (r: bool)
    requires
        at <= b@.len(),
        spells(b@, s),
    ensures
        r == is_exponent(s.skip(at as int)),
{
    let n = b.len();
    let ghost tail = s.skip(at as int);
    if at == n {
        return true;
    }
    assert(tail[0] == s[at as int]);
    if b[at] != 101u8 && b[at] != 69u8 {
        return false;
    }
    let mut from: usize = at + 1;
    assert(tail.skip(1) =~= s.skip(from as int));
    if from < n && (b[from] == 43u8 || b[from] == 45u8) {
        assert(tail.skip(1)[0] == s[from as int]);
        assert(tail.skip(1).skip(1) =~= s.skip(from + 1));
        from += 1;
    } else {
        proof {
            if from < n {
                assert(tail.skip(1)[0] == s[from as int]);
            }
        }
    }
    assert(unsigned(tail.skip(1)) =~= s.skip(from as int));
    let end = count_digits(b, from, Ghost(s));
    from < n && end == n
}

/// Whether the text from `start` on is a decimal number.
fn decimal_at(b: &[u8], start: usize, Ghost(s): Ghost<Seq<char>>) -> (r: bool)
    requires
        start <= b@.len(),
        spells(b@, s),
    ensures
        r == is_decimal(s.skip(start as int)),
{
    let n = b.len();
    let ghost u = s.skip(start as int);
    let whole_end = count_digits(b, start, Ghost(s));
    let ghost rest = u.skip(digit_run(u) as int);
    assert(rest =~= s.skip(whole_end as int));
    if whole_end < n && b[whole_end] == 46u8 {
        assert(rest[0] == s[whole_end as int]);
        let fraction_end = count_digits(b, whole_end + 1, Ghost(s));
        assert(rest.skip(1) =~= s.skip(whole_end + 1));
        assert(rest.skip(1 + digit_run(rest.skip(1)) as int) =~= s.skip(fraction_end as int));
        if (whole_end - start) + (fraction_end - (whole_end + 1)) == 0 {
            return false;
        }
        exponent_at(b, fraction_end, Ghost(s))
    } else {
        proof {
            if whole_end < n {
                assert(rest[0] == s[whole_end as int]);
            }
        }
        if whole_end == start {
            return false;
        }
        exponent_at(b, whole_end, Ghost(s))
    }
}

/// Whether the text writes a real number.
pub fn is_real_text(text: &str) -> (r: bool)
    ensures
        r == is_real(text@),
{
    if !text.is_ascii() {
        return false;
    }
    let b = text.as_bytes();
    proof {
        is_ascii_spec_bytes(text);
    }
    let start: usize = if b.len() > 0 && (b[0] == 43u8 || b[0] == 45u8) {
        1
    } else {
        0
    };
    assert(unsigned(text@) =~= text@.skip(start as int));
    special_at(b, start, Ghost(text@)) || decimal_at(b, start, Ghost(text@))
}

/// How many characters a text begins with that are not `stop`.
pub open spec fn run_before(s: Seq<char>, stop: char) -> nat
    decreases s.len(),
{
    if s.len() > 0 && s[0] != stop {
        1 + run_before(s.skip(1), stop)
    } else {
        0
    }
}

/// Two real numbers with a comma between them.
pub open spec fn is_point(p: Seq<char>) -> bool {
    let comma = run_before(p, ',') as int;
    comma < p.len() && is_real(p.take(comma)) && is_real(p.skip(comma + 1))
}

/// One or more points with one blank between each two.
pub open spec fn is_points(s: Seq<char>) -> bool
    decreases s.len(),
{
    let blank = run_before(s, ' ') as int;
    is_point(s.take(blank)) && (blank >= s.len() || is_points(s.skip(blank + 1)))
}

/// Whether a text writes the corners of a path: ASCII only, and points.
pub open spec fn is_path(s: Seq<char>) -> bool {
    is_ascii_chars(s) && is_points(s)
}

/// Counts the bytes from `start` up to `limit` that come before one that is `stop`.
fn count_before(b: &[u8], start: usize, limit: usize, stop: u8, Ghost(s): Ghost<Seq<char>>, Ghost(
    c,
): Ghost<char>) -> (end: usize)
    requires
        start <= limit <= b@.len(),
        spells(b@, s),
        c <= '\u{7f}',
        stop == c as u8,
    ensures
        start <= end <= limit,
        end - start == run_before(s.subrange(start as int, limit as int), c),
{
    let mut end: usize = start;
    while end < limit && b[end] != stop
        invariant
            start <= end <= limit <= b@.len(),
            spells(b@, s),
            c <= '\u{7f}',
            stop == c as u8,
            run_before(s.subrange(start as int, limit as int), c) == (end - start) + run_before(
                s.subrange(end as int, limit as int),
                c,
            ),
        decreases limit - end,
    {
        assert(s.subrange(end as int, limit as int)[0] == s[end as int]);
        assert(s.subrange(end as int, limit as int).skip(1) =~= s.subrange(end + 1, limit as int));
        end += 1;
    }
    proof {
        if end < limit {
            assert(s.subrange(end as int, limit as int)[0] == s[end as int]);
        }
    }
    end
}

/// Whether the text writes the corners of a path.
pub fn is_path_text(text: &str) -> (r: bool)
    ensures
        r == is_path(text@),
{
    if !text.is_ascii() {
        return false;
    }
    let b = text.as_bytes();
    proof {
        is_ascii_spec_bytes(text);
    }
    let ghost s = text@;
    let n = b.len();
    let mut start: usize = 0;
    assert(s.skip(0) =~= s);
    loop
        invariant
            start <= n,
            n == b@.len(),
            s == text@,
            is_ascii(text),
            spells(b@, s),
            is_points(s) == is_points(s.skip(start as int)),
        decreases n - start,
    {
        let ghost rest = s.skip(start as int);
        assert(rest =~= s.subrange(start as int, n as int));
        let blank = count_before(b, start, n, 32u8, Ghost(s), Ghost(' '));
        let ghost pair = rest.take(blank - start);
        assert(pair =~= s.subrange(start as int, blank as int));
        let comma = count_before(b, start, blank, 44u8, Ghost(s), Ghost(','));
        if comma >= blank {
            return false;
        }
        assert(pair.take(comma - start) =~= s.subrange(start as int, comma as int));
        assert(pair.skip(comma - start + 1) =~= s.subrange(comma + 1, blank as int));
        let x = text.substring_ascii(start, comma);
        let y = text.substring_ascii(comma + 1, blank);
        if !is_real_text(x) || !is_real_text(y) {
            return false;
        }
        if blank >= n {
            return true;
        }
        assert(rest.skip(blank - start + 1) =~= s.skip(blank + 1));
        start = blank + 1;
    }
}

/// The attribute `name` where it is there and writes a real number.
pub open spec fn attr_real(attrs: Seq<AttributeView>, name: Seq<char>) -> Option<Seq<char>> {
    match attr_value(attrs, name) {
        Some(text) => if is_real(text) {
            Some(text)
        } else {
            None
        },
        None => None,
    }
}

/// The attribute `name` where it writes a real number, or else `default`.
pub open spec fn attr_real_or(attrs: Seq<AttributeView>, name: Seq<char>, default: Seq<char>) -> Seq<
    char,
> {
    match attr_real(attrs, name) {
        Some(text) => text,
        None => default,
    }
}

/// Reads an attribute that writes a real number.
pub fn get_real(attrs: &Vec<Attribute>, name: &str) -> (r: Option<String>)
    ensures
        crate::attrs::text_of(r) == attr_real(views(attrs@), name@),
{
    match find_attr(attrs, name) {
        Some(text) => {
            if is_real_text(text.as_str()) {
                Some(text.clone())
            } else {
                None
            }
        },
        None => None,
    }
}

/// Reads an attribute that writes a real number, with a default.
pub fn get_real_or(attrs: &Vec<Attribute>, name: &str, default: &str) -> (r: String)
    ensures
        r@ == attr_real_or(views(attrs@), name@, default@),
{
    match get_real(attrs, name) {
        Some(text) => text,
        None => default.to_owned(),
    }
}

/// The attribute `name` where it is there and writes the corners of a path.
pub open spec fn attr_path(attrs: Seq<AttributeView>, name: Seq<char>) -> Option<Seq<char>> {
    match attr_value(attrs, name) {
        Some(text) => if is_path(text) {
            Some(text)
        } else {
            None
        },
        None => None,
    }
}

/// Reads an attribute that writes the corners of a path.
pub fn get_path(attrs: &Vec<Attribute>, name: &str) -> (r: Option<String>)
    ensures
        crate::attrs::text_of(r) == attr_path(views(attrs@), name@),
{
    match find_attr(attrs, name) {
        Some(text) => {
            if is_path_text(text.as_str()) {
                Some(text.clone())
            } else {
                None
            }
        },
        None => None,
    }
}

} // verus!
