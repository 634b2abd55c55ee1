//! Number formatting into fixed buffers, for the display.

use crate::text::{
    ascii_bytes, decimal_digits, decimal_text, digit_char, lemma_ascii_bytes_utf8,
    lemma_decimal_digits_ascii, lemma_decimal_digits_len, pow10, lemma_same_encoding, str_from_utf8,
};
use vstd::prelude::*;
use vstd::utf8::is_ascii_chars;

verus! {

/// The ASCII byte of digit `d`.
proof fn lemma_digit_byte(d: int)
    requires
        0 <= d < 10,
    ensures
        digit_char(d) as u8 == 48 + d,
        '\0' <= digit_char(d) <= '\u{7f}',
{
}

/// Format `value` in decimal into `buf`; returns the text.
pub fn format_i32(value: i32, buf: &mut [u8; 16]) -> (r: &str)
    ensures
        r@ == decimal_text(value as int),
{
    let mut pos: usize = 16;
    let negative = value < 0;
    let mut v: u64 = if negative {
        (0i64 - value as i64) as u64
    } else {
        value as u64
    };
    let ghost n: nat = v as nat;
    let ghost mut suffix: Seq<char> = Seq::empty();
    proof {
        assert(pow10(10) == 10000000000) by {
            reveal_with_fuel(pow10, 11);
        }
        lemma_decimal_digits_len(n, 10);
        lemma_decimal_digits_ascii(n);
    }
    if v == 0 {
        pos = pos - 1;
        buf[pos] = 48u8;
        proof {
            lemma_digit_byte(0);
            suffix = seq![digit_char(0)];
        }
    } else {
        while v > 0
            invariant
                n > 0,
                v <= n,
                pos == 16 - suffix.len(),
                buf@.subrange(pos as int, 16) == ascii_bytes(suffix),
                v > 0 ==> decimal_digits(n) == decimal_digits(v as nat) + suffix,
                v == 0 ==> decimal_digits(n) == suffix,
                decimal_digits(n).len() <= 10,
            decreases v,
        {
            let d = v % 10;
            proof {
                lemma_digit_byte(d as int);
                if v >= 10 {
                    assert(decimal_digits(v as nat) == decimal_digits((v / 10) as nat).push(
                        digit_char(d as int),
                    ));
                    assert(decimal_digits((v / 10) as nat) + (seq![digit_char(d as int)] + suffix)
                        =~= decimal_digits((v / 10) as nat).push(digit_char(d as int)) + suffix);
                } else {
                    assert(decimal_digits(v as nat) == seq![digit_char(d as int)]);
                }
            }
            let ghost prev = buf@;
            let ghost old_suffix = suffix;
            pos = pos - 1;
            buf[pos] = 48u8 + d as u8;
            v = v / 10;
            proof {
                suffix = seq![digit_char(d as int)] + suffix;
                assert(buf@.subrange(pos + 1, 16) =~= prev.subrange(pos + 1, 16));
                assert forall|i: int| 0 <= i < suffix.len() implies buf@.subrange(pos as int, 16)[i]
                    == ascii_bytes(suffix)[i] by {
                    if i > 0 {
                        assert(buf@.subrange(pos as int, 16)[i] == buf@.subrange(pos + 1, 16)[i
                            - 1]);
                        assert(ascii_bytes(old_suffix)[i - 1] == old_suffix[i - 1] as u8);
                    }
                }
                assert(buf@.subrange(pos as int, 16) =~= ascii_bytes(suffix));
            }
        }
    }
    assert(suffix == decimal_digits(n));
    if negative {
        let ghost prev = buf@;
        let ghost old_suffix = suffix;
        pos = pos - 1;
        buf[pos] = 45u8;
        proof {
            suffix = seq!['-'] + suffix;
            assert('-' as u8 == 45u8);
            assert(buf@.subrange(pos + 1, 16) =~= prev.subrange(pos + 1, 16));
            assert forall|i: int| 0 <= i < suffix.len() implies buf@.subrange(pos as int, 16)[i]
                == ascii_bytes(suffix)[i] by {
                if i > 0 {
                    assert(buf@.subrange(pos as int, 16)[i] == buf@.subrange(pos + 1, 16)[i - 1]);
                    assert(ascii_bytes(old_suffix)[i - 1] == old_suffix[i - 1] as u8);
                }
            }
            assert(buf@.subrange(pos as int, 16) =~= ascii_bytes(suffix));
        }
    }
    assert(suffix == decimal_text(value as int));
    proof {
        lemma_decimal_digits_ascii(n);
        assert(is_ascii_chars(suffix));
        lemma_ascii_bytes_utf8(suffix);
    }
    let slice = buf.as_slice();
    let bytes = &slice[pos..16];
    assert(bytes@ == ascii_bytes(suffix));
    match str_from_utf8(bytes) {
        Some(s) => {
            proof {
                lemma_same_encoding(s@, suffix);
            }
            s
        },
        None => "?",
    }
}

/// Text of a percentage: its decimal digits (100 for anything at least 100)
/// followed by `%`.
pub open spec fn percent_text(pct: u8) -> Seq<char> {
    if pct >= 100 {
        seq!['1', '0', '0', '%']
    } else {
        decimal_digits(pct as nat).push('%')
    }
}

/// Format a progress percentage into `buf`; returns the text.
pub fn format_progress(pct: u8, buf: &mut [u8; 8]) -> (r: &str)
    ensures
        r@ == percent_text(pct),
{
    let mut pos: usize = 0;
    let ghost mut text: Seq<char> = Seq::empty();
    if pct >= 100 {
        buf[pos] = 49u8;
        pos = pos + 1;
        buf[pos] = 48u8;
        pos = pos + 1;
        buf[pos] = 48u8;
        pos = pos + 1;
        proof {
            text = seq!['1', '0', '0'];
        }
    } else if pct >= 10 {
        buf[pos] = 48u8 + pct / 10;
        pos = pos + 1;
        buf[pos] = 48u8 + pct % 10;
        pos = pos + 1;
        proof {
            lemma_digit_byte((pct / 10) as int);
            lemma_digit_byte((pct % 10) as int);
            text = seq![digit_char((pct / 10) as int), digit_char((pct % 10) as int)];
            assert(decimal_digits(pct as nat) =~= text) by {
                assert(decimal_digits((pct / 10) as nat) == seq![digit_char((pct / 10) as int)]);
            }
        }
    } else {
        buf[pos] = 48u8 + pct;
        pos = pos + 1;
        proof {
            lemma_digit_byte(pct as int);
            text = seq![digit_char(pct as int)];
        }
    }
    buf[pos] = 37u8;
    pos = pos + 1;
    proof {
        text = text.push('%');
        assert(text =~= percent_text(pct));
        assert(is_ascii_chars(text));
        lemma_ascii_bytes_utf8(text);
    }
    let slice = buf.as_slice();
    let bytes = &slice[0..pos];
    assert(bytes@ =~= ascii_bytes(text));
    match str_from_utf8(bytes) {
        Some(s) => {
            proof {
                lemma_same_encoding(s@, text);
            }
            s
        },
        None => "?%",
    }
}

} // verus!
