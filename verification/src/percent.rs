//! Percent-encoding of a unix-domain socket path into a single opaque
//! host token: every byte that is not an ASCII letter or digit becomes
//! `%` followed by two upper-case hexadecimal digits, so the token has no
//! separators left in it and the original path can be recovered from it.

use vstd::prelude::*;

use crate::net::hex_digit_upper;

verus! {

/// True when `b` is an ASCII letter or digit.
pub open spec fn is_alnum_byte(b: u8) -> bool {
    (48 <= b && b <= 57) || (65 <= b && b <= 90) || (97 <= b && b <= 122)
}

/// The encoding of one byte: itself when it is a letter or digit, its
/// `%XX` escape otherwise.
pub open spec fn pct_byte_seq(b: u8) -> Seq<char> {
    if is_alnum_byte(b) {
        seq![b as char]
    } else {
        seq!['%', hex_digit_upper(b as int / 16), hex_digit_upper(b as int % 16)]
    }
}

/// The percent-encoding of a byte sequence under the "non-alphanumeric"
/// escaping rule.
pub open spec fn pct_encode_seq(bytes: Seq<u8>) -> Seq<char>
    decreases bytes.len(),
{
    if bytes.len() == 0 {
        Seq::empty()
    } else {
        pct_byte_seq(bytes[0]) + pct_encode_seq(bytes.drop_first())
    }
}

/// Relies on `percent_encoding::percent_encode` with the
/// `NON_ALPHANUMERIC` set: every byte outside the ASCII letters and
/// digits is written as `%` and two upper-case hexadecimal digits, and
/// letters and digits pass through unchanged.
#[verifier::external_body]
pub fn pct_encode_non_alphanumeric(bytes: &Vec<u8>) -> (r: String)
    ensures
        r@ == pct_encode_seq(bytes@),
{
    percent_encoding::percent_encode(bytes.as_slice(), percent_encoding::NON_ALPHANUMERIC)
        .to_string()
}

/// True when `c` is a decimal digit or one of `A` to `F`.
pub open spec fn is_upper_hex_char(c: char) -> bool {
    (48 <= c as u32 && c as u32 <= 57) || (65 <= c as u32 && c as u32 <= 70)
}

/// The numeric value of an upper-case hexadecimal digit character.
pub open spec fn upper_hex_val(c: char) -> int {
    if c as u32 <= 57 {
        c as u32 - 48
    } else {
        c as u32 - 55
    }
}

/// True when `c` is an ASCII letter or digit.
pub open spec fn is_alnum_char(c: char) -> bool {
    (48 <= c as u32 && c as u32 <= 57) || (65 <= c as u32 && c as u32 <= 90) || (97 <= c as u32
        && c as u32 <= 122)
}

/// The inverse reading of a percent-encoded token: `%XX` escapes become
/// their byte, letters and digits become theirs, and anything else means
/// the token is not a well-formed encoding.
pub open spec fn pct_decode_seq(chars: Seq<char>) -> Option<Seq<u8>>
    decreases chars.len(),
{
    if chars.len() == 0 {
        Some(Seq::empty())
    } else if chars[0] == '%' {
        if chars.len() >= 3 && is_upper_hex_char(chars[1]) && is_upper_hex_char(chars[2]) {
            match pct_decode_seq(chars.skip(3)) {
                Some(rest) => Some(
                    seq![(upper_hex_val(chars[1]) * 16 + upper_hex_val(chars[2])) as u8] + rest,
                ),
                None => None,
            }
        } else {
            None
        }
    } else if is_alnum_char(chars[0]) {
        match pct_decode_seq(chars.drop_first()) {
            Some(rest) => Some(seq![(chars[0] as u32) as u8] + rest),
            None => None,
        }
    } else {
        None
    }
}

proof fn lemma_upper_hex_roundtrip(d: int)
    requires
        0 <= d < 16,
    ensures
        is_upper_hex_char(hex_digit_upper(d)),
        upper_hex_val(hex_digit_upper(d)) == d,
        hex_digit_upper(d) != '%',
{
}

/// Law: every character of an encoded token is an ASCII letter, a
/// digit, or `%` — no separator of any syntax survives the encoding, so
/// the token reads as a single opaque host.
pub proof fn lemma_pct_encode_opaque(bytes: Seq<u8>)
    ensures
        forall|i: int|
            0 <= i < pct_encode_seq(bytes).len() ==> is_alnum_char(#[trigger] pct_encode_seq(
                bytes,
            )[i]) || pct_encode_seq(bytes)[i] == '%',
    decreases bytes.len(),
{
    if bytes.len() > 0 {
        let b = bytes[0];
        lemma_pct_encode_opaque(bytes.drop_first());
        if is_alnum_byte(b) {
            assert(b as char as u32 == b);
            assert(is_alnum_char(b as char));
        } else {
            lemma_upper_hex_roundtrip(b as int / 16);
            lemma_upper_hex_roundtrip(b as int % 16);
            assert(is_alnum_char(hex_digit_upper(b as int / 16)));
            assert(is_alnum_char(hex_digit_upper(b as int % 16)));
        }
        let enc = pct_encode_seq(bytes);
        let head = pct_byte_seq(b);
        let tail = pct_encode_seq(bytes.drop_first());
        assert forall|i: int|
            0 <= i < enc.len() implies is_alnum_char(#[trigger] enc[i]) || enc[i] == '%' by {
            if i < head.len() {
                assert(enc[i] == head[i]);
            } else {
                assert(enc[i] == tail[i - head.len()]);
            }
        }
    }
}

/// Law: the percent-encoded form of any byte sequence decodes back to
/// exactly that sequence, so the opaque host token built from a socket
/// path loses nothing.
pub proof fn lemma_pct_encode_decodable(bytes: Seq<u8>)
    ensures
        pct_decode_seq(pct_encode_seq(bytes)) == Some(bytes),
    decreases bytes.len(),
{
    if bytes.len() == 0 {
        assert(bytes =~= Seq::<u8>::empty());
    } else {
        let b = bytes[0];
        let rest = bytes.drop_first();
        lemma_pct_encode_decodable(rest);
        let enc = pct_encode_seq(bytes);
        if is_alnum_byte(b) {
            let c = b as char;
            assert(c as u32 == b);
            assert(enc[0] == c);
            assert(c != '%');
            assert(is_alnum_char(c));
            assert(enc.drop_first() =~= pct_encode_seq(rest));
            assert((c as u32) as u8 == b);
            assert(seq![b] + rest =~= bytes);
        } else {
            assert(enc[0] == '%');
            assert(enc[1] == hex_digit_upper(b as int / 16));
            assert(enc[2] == hex_digit_upper(b as int % 16));
            lemma_upper_hex_roundtrip(b as int / 16);
            lemma_upper_hex_roundtrip(b as int % 16);
            assert(enc.skip(3) =~= pct_encode_seq(rest));
            assert((b as int / 16) * 16 + b as int % 16 == b as int) by {
                vstd::arithmetic::div_mod::lemma_fundamental_div_mod(b as int, 16);
            };
            assert(upper_hex_val(enc[1]) * 16 + upper_hex_val(enc[2]) == b as int);
            assert(seq![b] + rest =~= bytes);
        }
    }
}

} // verus!
