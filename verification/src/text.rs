//! Text helpers: UTF-8 validation of byte buffers and decimal digits.

use vstd::prelude::*;
use vstd::string::StrSliceExecFns;
use vstd::utf8::{
    encode_utf8, encode_utf8_decode_utf8, encode_utf8_valid_utf8, is_ascii_chars,
    is_ascii_chars_encode_utf8, valid_utf8,
};

verus! {

/// `core::str::from_utf8`: the bytes as a string slice when they are valid
/// UTF-8, `None` otherwise. Claimed: it succeeds exactly on valid UTF-8, and
/// the slice it returns encodes to the same bytes.
#[verifier::external_body]
pub(crate) fn str_from_utf8<'a>(bytes: &'a [u8]) -> (r: Option<&'a str>)
    ensures
        r is Some <==> valid_utf8(bytes@),
        r matches Some(s) ==> encode_utf8(s@) == bytes@,
{
    core::str::from_utf8(bytes).ok()
}

/// The ASCII digit character of `d` (0..=9).
pub open spec fn digit_char(d: int) -> char {
    ((48 + d) as u32) as char
}

/// Decimal digits of `n`, most significant first, without leading zeros.
pub open spec fn decimal_digits(n: nat) -> Seq<char>
    decreases n,
{
    if n < 10 {
        seq![digit_char(n as int)]
    } else {
        decimal_digits(n / 10).push(digit_char((n % 10) as int))
    }
}

/// Decimal text of an integer: an optional `-` followed by its digits.
pub open spec fn decimal_text(v: int) -> Seq<char> {
    if v < 0 {
        seq!['-'] + decimal_digits((-v) as nat)
    } else {
        decimal_digits(v as nat)
    }
}

/// The ASCII bytes of an ASCII character sequence.
pub open spec fn ascii_bytes(chars: Seq<char>) -> Seq<u8> {
    Seq::new(chars.len(), |i: int| chars[i] as u8)
}

/// Decimal text is ASCII.
pub proof fn lemma_decimal_digits_ascii(n: nat)
    ensures
        is_ascii_chars(decimal_digits(n)),
    decreases n,
{
    if n >= 10 {
        lemma_decimal_digits_ascii(n / 10);
        let p = decimal_digits(n / 10);
        let d = digit_char((n % 10) as int);
        assert(forall|i: int| 0 <= i < p.push(d).len() ==> p.push(d)[i] == (if i < p.len() {
            p[i]
        } else {
            d
        }));
    }
}

/// `10^k`.
pub open spec fn pow10(k: nat) -> nat
    decreases k,
{
    if k == 0 {
        1
    } else {
        10 * pow10((k - 1) as nat)
    }
}

/// Decimal digits of a number below `10^k` (`k >= 1`) are at most `k` long.
pub proof fn lemma_decimal_digits_len(n: nat, k: nat)
    requires
        n < pow10(k),
        k >= 1,
    ensures
        decimal_digits(n).len() <= k,
    decreases k,
{
    if n >= 10 {
        if k == 1 {
            assert(pow10(1) == 10) by {
                reveal_with_fuel(pow10, 2);
            }
        } else {
            assert(n / 10 < pow10((k - 1) as nat));
            lemma_decimal_digits_len(n / 10, (k - 1) as nat);
        }
    }
}

/// Valid ASCII bytes decode to the characters they spell.
pub proof fn lemma_ascii_bytes_utf8(chars: Seq<char>)
    requires
        is_ascii_chars(chars),
    ensures
        encode_utf8(chars) == ascii_bytes(chars),
        valid_utf8(ascii_bytes(chars)),
{
    is_ascii_chars_encode_utf8(chars);
    encode_utf8_valid_utf8(chars);
    assert(encode_utf8(chars) =~= ascii_bytes(chars));
}

/// Encoding a concatenation encodes each part in turn.
pub proof fn lemma_encode_utf8_append(a: Seq<char>, b: Seq<char>)
    ensures
        encode_utf8(a + b) == encode_utf8(a) + encode_utf8(b),
    decreases a.len(),
{
    if a.len() > 0 {
        assert((a + b).drop_first() =~= a.drop_first() + b);
        assert((a + b)[0] == a[0]);
        lemma_encode_utf8_append(a.drop_first(), b);
        assert(encode_utf8(a + b) =~= encode_utf8(a) + encode_utf8(b));
    } else {
        assert(a + b =~= b);
        assert(encode_utf8(a) =~= Seq::<u8>::empty());
        assert(encode_utf8(a) + encode_utf8(b) =~= encode_utf8(b));
    }
}

/// Length of the longest prefix of `chars`, from `k` on, that still encodes in
/// at most `cap` bytes (adding characters one by one and stopping at the first
/// that does not fit).
pub open spec fn fitting_len(chars: Seq<char>, cap: nat, k: nat) -> nat
    decreases chars.len() - k,
{
    if k < chars.len() && encode_utf8(chars.take(k + 1 as int)).len() <= cap {
        fitting_len(chars, cap, k + 1)
    } else {
        k
    }
}

/// The characters of `chars` that fit in `cap` bytes of UTF-8, added one by
/// one until the first that does not fit.
pub open spec fn truncate_to_capacity(chars: Seq<char>, cap: nat) -> Seq<char> {
    chars.take(fitting_len(chars, cap, 0) as int)
}

/// A string slice whose encoding is that of some characters holds those characters.
pub proof fn lemma_same_encoding(s: Seq<char>, chars: Seq<char>)
    requires
        encode_utf8(s) == encode_utf8(chars),
    ensures
        s == chars,
{
    encode_utf8_decode_utf8(s);
    encode_utf8_decode_utf8(chars);
}


/// Appends the ASCII decimal digits of `v` to `out`.
fn push_decimal_digits(out: &mut Vec<u8>, v: u64)
    ensures
        final(out)@ == old(out)@ + ascii_bytes(decimal_digits(v as nat)),
    decreases v,
{
    if v >= 10 {
        push_decimal_digits(out, v / 10);
    }
    let ghost before = out@;
    out.push(48u8 + (v % 10) as u8);
    proof {
        let d = (v % 10) as int;
        assert(digit_char(d) as u8 == 48 + d);
        if v >= 10 {
            let p = decimal_digits((v / 10) as nat);
            assert(decimal_digits(v as nat) == p.push(digit_char(d)));
            assert(ascii_bytes(p.push(digit_char(d))) =~= ascii_bytes(p).push((48 + d) as u8));
            assert(old(out)@ + ascii_bytes(decimal_digits(v as nat)) =~= (old(out)@
                + ascii_bytes(p)).push((48 + d) as u8));
        } else {
            assert(ascii_bytes(decimal_digits(v as nat)) =~= seq![(48 + d) as u8]);
        }
    }
}

/// The decimal digits of `v` as a `String`.
pub fn decimal_string(v: u64) -> (r: String)
    ensures
        r@ == decimal_digits(v as nat),
{
    let mut bytes: Vec<u8> = Vec::new();
    push_decimal_digits(&mut bytes, v);
    proof {
        assert(bytes@ =~= ascii_bytes(decimal_digits(v as nat)));
        lemma_decimal_digits_ascii(v as nat);
        lemma_ascii_bytes_utf8(decimal_digits(v as nat));
    }
    match str_from_utf8(bytes.as_slice()) {
        Some(s) => {
            proof {
                lemma_same_encoding(s@, decimal_digits(v as nat));
            }
            s.to_string()
        },
        None => String::new(),
    }
}


/// A character with the Unicode `White_Space` property.
pub open spec fn is_unicode_whitespace(c: char) -> bool {
    ||| '\t' <= c <= '\r'
    ||| c == ' '
    ||| c == '\u{85}'
    ||| c == '\u{a0}'
    ||| c == '\u{1680}'
    ||| '\u{2000}' <= c <= '\u{200a}'
    ||| c == '\u{2028}'
    ||| c == '\u{2029}'
    ||| c == '\u{202f}'
    ||| c == '\u{205f}'
    ||| c == '\u{3000}'
}

/// `t` is `s` with its leading and trailing whitespace removed.
pub open spec fn is_trim_of(s: Seq<char>, t: Seq<char>) -> bool {
    exists|a: int, b: int|
        #![trigger s.subrange(a, b)]
        0 <= a <= b <= s.len() && t == s.subrange(a, b) && (forall|i: int|
            0 <= i < a ==> is_unicode_whitespace(#[trigger] s[i])) && (forall|i: int|
            b <= i < s.len() ==> is_unicode_whitespace(#[trigger] s[i])) && (a < b ==> (
        !is_unicode_whitespace(s[a]) && !is_unicode_whitespace(s[b - 1])))
}

/// `str::trim`: the slice without leading and trailing whitespace (Unicode
/// `White_Space`). Claimed: the result is the slice between the first and the
/// last non-whitespace character.
#[verifier::external_body]
pub(crate) fn trim_whitespace(s: &str) -> (r: &str)
    ensures
        is_trim_of(s@, r@),
{
    s.trim()
}

/// An ASCII decimal digit.
pub open spec fn is_digit_char(c: char) -> bool {
    '0' <= c <= '9'
}

/// The value of a string of decimal digits.
pub open spec fn digits_value(s: Seq<char>) -> nat
    decreases s.len(),
{
    if s.len() == 0 {
        0
    } else {
        digits_value(s.drop_last()) * 10 + ((s.last() as u32) - 48) as nat
    }
}

/// `s` without a leading `+`.
pub open spec fn strip_plus(s: Seq<char>) -> Seq<char> {
    if s.len() > 0 && s[0] == '+' {
        s.drop_first()
    } else {
        s
    }
}

/// Every character of `d` is a decimal digit.
pub open spec fn all_digits(d: Seq<char>) -> bool {
    forall|i: int| 0 <= i < d.len() ==> is_digit_char(#[trigger] d[i])
}

/// What parsing `s` as a `u8` gives: an optional `+`, then one or more decimal
/// digits whose value is at most 255.
pub open spec fn spec_parse_u8(s: Seq<char>) -> Option<u8> {
    let d = strip_plus(s);
    if d.len() > 0 && all_digits(d) && digits_value(d) <= 255 {
        Some(digits_value(d) as u8)
    } else {
        None
    }
}

/// A digit string is worth at least as much as each of its prefixes.
pub proof fn lemma_digits_value_prefix(s: Seq<char>, k: int)
    requires
        0 <= k <= s.len(),
        all_digits(s),
    ensures
        digits_value(s.take(k)) <= digits_value(s),
    decreases s.len(),
{
    if k < s.len() {
        assert(s.drop_last().take(k) =~= s.take(k));
        lemma_digits_value_prefix(s.drop_last(), k);
    } else {
        assert(s.take(k) =~= s);
    }
}

/// Parse a decimal `u8` (`str::parse::<u8>`).
pub fn parse_u8(s: &str) -> (r: Option<u8>)
    ensures
        r == spec_parse_u8(s@),
{
    let n = s.unicode_len();
    let ghost chars = s@;
    let start: usize = if n > 0 && s.get_char(0) == '+' {
        1
    } else {
        0
    };
    let ghost d = strip_plus(chars);
    assert(d =~= chars.subrange(start as int, n as int));
    if start == n {
        return None;
    }
    let mut value: u32 = 0;
    let mut i: usize = start;
    while i < n
        invariant
            chars == s@,
            n == chars.len(),
            start <= i <= n,
            d == chars.subrange(start as int, n as int),
            d == strip_plus(chars),
            forall|j: int| 0 <= j < i - start ==> is_digit_char(#[trigger] d[j]),
            value == digits_value(d.take(i - start)),
            value <= 255,
        decreases n - i,
    {
        let c = s.get_char(i);
        assert(d[i - start] == c);
        if !('0' <= c && c <= '9') {
            assert(!is_digit_char(d[i - start]));
            return None;
        }
        let digit = (c as u32) - 48;
        assert(d.take(i + 1 - start).drop_last() =~= d.take(i - start));
        assert(d.take(i + 1 - start).last() == c);
        value = value * 10 + digit;
        i = i + 1;
        if value > 255 {
            proof {
                if all_digits(d) {
                    lemma_digits_value_prefix(d, i - start);
                }
            }
            return None;
        }
    }
    assert(d.take(n - start) =~= d);
    Some(value as u8)
}

} // verus!
