//! Random UUIDs and their text, through the `uuid` crate.

use vstd::prelude::*;

use vstd::arithmetic::power::{lemma_pow_positive, pow};

use crate::text::ascii_lower;

verus! {

/// The lowercase hexadecimal digit of a value below 16.
pub open spec fn hex_digit(d: nat) -> char {
    if d < 10 {
        (48 + d) as char
    } else {
        (87 + d) as char
    }
}

/// The last `n` hexadecimal digits of `v`, most significant first.
pub open spec fn hex_digits(v: nat, n: nat) -> Seq<char>
    decreases n,
{
    if n == 0 {
        Seq::empty()
    } else {
        hex_digits(v / 16, (n - 1) as nat).push(hex_digit(v % 16))
    }
}

/// The hyphenated lowercase text of a UUID given by its 128 bits:
/// 32 hexadecimal digits in groups of 8, 4, 4, 4 and 12.
pub open spec fn uuid_hyphenated(v: u128) -> Seq<char> {
    let d = hex_digits(v as nat, 32);
    d.subrange(0, 8) + seq!['-'] + d.subrange(8, 12) + seq!['-'] + d.subrange(12, 16) + seq![
        '-',
    ] + d.subrange(16, 20) + seq!['-'] + d.subrange(20, 32)
}

/// The value of a hexadecimal digit in either case; `None` for any other
/// character.
pub open spec fn hex_value(c: char) -> Option<nat> {
    if '0' <= c <= '9' {
        Some((c as nat - 48) as nat)
    } else if 'a' <= c <= 'f' {
        Some((c as nat - 87) as nat)
    } else if 'A' <= c <= 'F' {
        Some((c as nat - 55) as nat)
    } else {
        None
    }
}

/// The number written by a text of hexadecimal digits, most significant
/// first; `None` if any character is no such digit.
pub open spec fn hex_text_value(s: Seq<char>) -> Option<nat>
    decreases s.len(),
{
    if s.len() == 0 {
        Some(0)
    } else {
        match (hex_text_value(s.drop_last()), hex_value(s.last())) {
            (Some(high), Some(d)) => Some(high * 16 + d),
            _ => None,
        }
    }
}

/// The 128 bits written by 32 hexadecimal digits.
pub open spec fn hex32_bits(s: Seq<char>) -> Option<u128> {
    if s.len() == 32 {
        match hex_text_value(s) {
            Some(v) => Some(v as u128),
            None => None,
        }
    } else {
        None
    }
}

/// The bits of a hyphenated UUID text: 36 characters, hyphens at positions
/// 8, 13, 18 and 23, hexadecimal digits in either case everywhere else.
pub open spec fn parse_hyphenated_text(s: Seq<char>) -> Option<u128> {
    if s.len() == 36 && s[8] == '-' && s[13] == '-' && s[18] == '-' && s[23] == '-' {
        hex32_bits(
            s.subrange(0, 8) + s.subrange(9, 13) + s.subrange(14, 18) + s.subrange(19, 23)
                + s.subrange(24, 36),
        )
    } else {
        None
    }
}

/// Whether nine characters read "urn:uuid:" with ASCII letters in either case.
pub open spec fn is_urn_prefix(p: Seq<char>) -> bool {
    let urn = seq!['u', 'r', 'n', ':', 'u', 'u', 'i', 'd', ':'];
    p.len() == 9 && forall|i: int| 0 <= i < 9 ==> ascii_lower(#[trigger] p[i]) == urn[i]
}

/// The UUID texts that `uuid::Uuid::parse_str` accepts, and the bits it reads
/// from them: 32 hexadecimal digits; the hyphenated form; the hyphenated form
/// in braces; or "urn:uuid:" (ASCII case ignored) and the hyphenated form.
/// Hexadecimal digits may be of either case. Every other text is refused.
pub open spec fn uuid_parse_text(s: Seq<char>) -> Option<u128> {
    if s.len() == 32 {
        hex32_bits(s)
    } else if s.len() == 36 {
        parse_hyphenated_text(s)
    } else if s.len() == 38 {
        if s[0] == '{' && s[37] == '}' {
            parse_hyphenated_text(s.subrange(1, 37))
        } else {
            None
        }
    } else if s.len() == 45 {
        if is_urn_prefix(s.subrange(0, 9)) {
            parse_hyphenated_text(s.subrange(9, 45))
        } else {
            None
        }
    } else {
        None
    }
}

proof fn lemma_hex_digit_value(d: nat)
    requires
        d < 16,
    ensures
        hex_value(hex_digit(d)) == Some(d),
{
}

proof fn lemma_hex_digits_len(v: nat, n: nat)
    ensures
        hex_digits(v, n).len() == n,
    decreases n,
{
    if n > 0 {
        lemma_hex_digits_len(v / 16, (n - 1) as nat);
    }
}

proof fn lemma_hex_digits_value(v: nat, n: nat)
    requires
        v < pow(16, n),
    ensures
        hex_text_value(hex_digits(v, n)) == Some(v),
    decreases n,
{
    reveal(pow);
    if n > 0 {
        let p = pow(16, (n - 1) as nat);
        lemma_pow_positive(16, (n - 1) as nat);
        assert(v / 16 < p) by (nonlinear_arith)
            requires
                v < 16 * p,
                p > 0,
        ;
        lemma_hex_digits_value(v / 16, (n - 1) as nat);
        lemma_hex_digit_value(v % 16);
        let d = hex_digits(v, n);
        assert(d.drop_last() =~= hex_digits(v / 16, (n - 1) as nat));
    }
}

/// `parse_str` reads back the hyphenated text that the crate writes of any
/// 128 bits.
pub proof fn lemma_parse_hyphenated_roundtrip(v: u128)
    ensures
        uuid_parse_text(uuid_hyphenated(v)) == Some(v),
{
    let d = hex_digits(v as nat, 32);
    lemma_hex_digits_len(v as nat, 32);
    assert(pow(16, 32) == 0x1_0000_0000_0000_0000_0000_0000_0000_0000int) by {
        reveal_with_fuel(pow, 33);
    }
    lemma_hex_digits_value(v as nat, 32);
    let h = uuid_hyphenated(v);
    assert(h.len() == 36);
    assert(h.subrange(0, 8) + h.subrange(9, 13) + h.subrange(14, 18) + h.subrange(19, 23)
        + h.subrange(24, 36) =~= d);
}

/// `uuid::Uuid::new_v4`, as the UUID's 128 bits (`Uuid::as_u128`). The bits
/// are random; the crate sets the version nibble to 4 and the variant bits to
/// the RFC 4122 variant, which is all that is stated of them.
#[verifier::external_body]
pub fn new_random_uuid() -> (v: u128)
    ensures
        (v >> 76u128) & 0xfu128 == 4u128,
        (v >> 62u128) & 0x3u128 == 2u128,
{
    uuid::Uuid::new_v4().as_u128()
}

/// `uuid::Uuid::from_u128(v).hyphenated().to_string()`: the claim is that
/// the crate writes the 32 lowercase hexadecimal digits of `v`, most
/// significant first, with hyphens after the 8th, 12th, 16th and 20th digit.
#[verifier::external_body]
pub fn uuid_to_hyphenated(v: u128) -> (s: String)
    ensures
        s@ == uuid_hyphenated(v),
{
    uuid::Uuid::from_u128(v).hyphenated().to_string()
}

/// `uuid::Uuid::parse_str`, the bits of the UUID on success (`Uuid::as_u128`,
/// the 16 bytes big-endian). The claim is that the crate accepts exactly the
/// texts described by `uuid_parse_text` and reads those bits from them. The
/// crate checks lengths in bytes, but every byte it accepts is an ASCII
/// character, so a text it accepts has as many characters as bytes.
#[verifier::external_body]
pub fn parse_uuid(s: &str) -> (r: Option<u128>)
    ensures
        r == uuid_parse_text(s@),
{
    match uuid::Uuid::parse_str(s) {
        Ok(u) => Some(u.as_u128()),
        Err(_) => None,
    }
}

} // verus!
