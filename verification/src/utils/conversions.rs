//! Field elements and their text forms.

use vstd::prelude::*;
use vstd::slice::slice_subrange;
use vstd::utf8::*;
use crate::utils::text::{
    is_whitespace,
    push_char,
    string_from_utf8,
    trim_char,
    trim_whitespace,
    trimmed,
};

verus! {

/// A 256-bit field element as the stream provider sends it: four 64-bit
/// words.
#[derive(Debug, Clone, Copy, PartialEq, Eq, Structural)]
pub struct FieldElement {
    pub lo_lo: u64,
    pub lo_hi: u64,
    pub hi_lo: u64,
    pub hi_hi: u64,
}

/// An element of the chain's prime field, held as its thirty-two bytes, most
/// significant first.
#[derive(Debug, Clone, Copy, PartialEq, Eq)]
pub struct Felt {
    pub bytes: [u8; 32],
}

#[verifier::external_type_specification]
#[verifier::external_body]
pub struct ExFromStrError(::starknet::core::types::FromStrError);

/// The bytes of the field element that a hexadecimal text writes, most
/// significant first, or nothing for a text that writes none.
pub uninterp spec fn felt_hex_bytes(text: Seq<char>) -> Option<Seq<u8>>;

/// Reads a hexadecimal text as a field element. This is `Felt::from_hex` of
/// the starknet crate, followed by `to_bytes_be` on what it accepted. The
/// outcome depends on the text alone; which texts are accepted, and as what,
/// is left to that crate.
#[verifier::external_body]
pub(crate) fn felt_from_hex(text: &str) -> (r: Result<
    [u8; 32],
    ::starknet::core::types::FromStrError,
>)
    ensures
        match r {
            Ok(bytes) => felt_hex_bytes(text@) == Some(bytes@),
            Err(_) => felt_hex_bytes(text@) is None,
        },
{
    ::starknet::core::types::Felt::from_hex(text).map(|felt| felt.to_bytes_be())
}

impl Felt {
    /// Reads a hexadecimal text as a field element.
    pub fn from_hex(text: &str) -> (r: Option<Felt>)
        ensures
            match r {
                Some(felt) => felt_hex_bytes(text@) == Some(felt.bytes@),
                None => felt_hex_bytes(text@) is None,
            },
    {
        match felt_from_hex(text) {
            Ok(bytes) => Some(Felt { bytes }),
            Err(_) => None,
        }
    }
}

/// The lower-case hexadecimal digit for a value below 16.
pub open spec fn hex_digit(n: u64) -> char {
    if n < 10 {
        (48 + n) as char
    } else {
        (87 + n) as char
    }
}

/// The `i`-th of the sixteen four-bit groups of `x`, counted from the most
/// significant.
pub open spec fn nibble(x: u64, i: int) -> u64 {
    (x >> (((15 - i) * 4) as u64)) & 0xf
}

/// The sixteen hexadecimal digits of `x`, most significant first, zeros kept.
pub open spec fn hex_word(x: u64) -> Seq<char> {
    Seq::new(16, |i: int| hex_digit(nibble(x, i)))
}

/// The text form of a field element: `0x`, then the sixteen hexadecimal
/// digits of each of its words, in the order `hi_hi`, `hi_lo`, `lo_hi`,
/// `lo_lo`.
pub open spec fn field_hex(f: FieldElement) -> Seq<char> {
    seq!['0', 'x'] + hex_word(f.hi_hi) + hex_word(f.hi_lo) + hex_word(f.lo_hi) + hex_word(
        f.lo_lo,
    )
}

fn push_hex_word(out: &mut String, x: u64)
    ensures
        final(out)@ == old(out)@ + hex_word(x),
{
    let mut i: usize = 0;
    while i < 16
        invariant
            i <= 16,
            out@ == old(out)@ + hex_word(x).take(i as int),
        decreases 16 - i,
    {
        let shift: u64 = ((15 - i) * 4) as u64;
        let n: u64 = (x >> shift) & 0xf;
        assert(n < 16) by (bit_vector)
            requires
                n == (x >> shift) & 0xf,
        ;
        let d: u8 = if n < 10 {
            (48 + n) as u8
        } else {
            (87 + n) as u8
        };
        push_char(out, d as char);
        assert(d as char == hex_digit(nibble(x, i as int)));
        assert(hex_word(x).take(i as int + 1) == hex_word(x).take(i as int).push(
            hex_word(x)[i as int],
        ));
        i = i + 1;
    }
    assert(hex_word(x).take(16) == hex_word(x));
}

/// Writes a field element as `0x` and sixty-four lower-case hexadecimal digits.
pub fn field_to_hex_string(field: &FieldElement) -> (r: String)
    ensures
        r@ == field_hex(*field),
{
    let mut out = String::new();
    push_char(&mut out, '0');
    push_char(&mut out, 'x');
    assert(out@ == seq!['0', 'x']);
    push_hex_word(&mut out, field.hi_hi);
    push_hex_word(&mut out, field.hi_lo);
    push_hex_word(&mut out, field.lo_hi);
    push_hex_word(&mut out, field.lo_lo);
    out
}

/// The bytes without the `0x` at their start, however often it is repeated
/// there.
pub open spec fn strip_hex_prefixes(b: Seq<u8>) -> Seq<u8>
    decreases b.len(),
{
    if b.len() >= 2 && b[0] == 48 && b[1] == 120 {
        strip_hex_prefixes(b.skip(2))
    } else {
        b
    }
}

/// The value of a hexadecimal digit of either case.
pub open spec fn hex_value(b: u8) -> Option<u8> {
    if 48 <= b <= 57 {
        Some((b - 48) as u8)
    } else if 97 <= b <= 102 {
        Some((b - 87) as u8)
    } else if 65 <= b <= 70 {
        Some((b - 55) as u8)
    } else {
        None
    }
}

/// The byte that two characters write in hexadecimal: two digits, or a `+`
/// and one digit. Any other pair writes none.
pub open spec fn pair_value(a: u8, b: u8) -> Option<u8> {
    match (hex_value(a), hex_value(b)) {
        (Some(x), Some(y)) => Some((16 * x + y) as u8),
        (None, Some(y)) => if a == 43 {
            Some(y)
        } else {
            None
        },
        _ => None,
    }
}

/// The bytes that a hexadecimal text writes, read two characters at a time
/// from the start. A pair that writes no byte is passed over, and so is a
/// single character left at the end.
pub open spec fn pairs_decoded(b: Seq<u8>) -> Seq<u8>
    decreases b.len(),
{
    if b.len() < 2 {
        Seq::empty()
    } else {
        match pair_value(b[0], b[1]) {
            Some(v) => seq![v] + pairs_decoded(b.skip(2)),
            None => pairs_decoded(b.skip(2)),
        }
    }
}

/// True when every second byte, counted from the first, starts a character.
/// Reading such bytes two at a time never cuts a character in two.
pub open spec fn pairs_on_boundaries(b: Seq<u8>) -> bool {
    forall|k: int| 0 <= k < b.len() && k % 2 == 0 ==> !is_continuation_byte(#[trigger] b[k])
}

/// The text that a hexadecimal text stands for. The `0x` at the start is
/// dropped, the rest is read as bytes two characters at a time, and the bytes
/// are read as UTF-8 with the NUL characters at both ends removed. When the
/// bytes are not UTF-8 the text stands for itself.
pub open spec fn hex_text(hex: Seq<char>) -> Seq<char> {
    let bytes = pairs_decoded(strip_hex_prefixes(encode_utf8(hex)));
    if valid_utf8(bytes) {
        trimmed(decode_utf8(bytes), |c: char| c == '\0')
    } else {
        hex
    }
}

/// The text of a field element: the text that its hexadecimal form stands
/// for, or the hexadecimal form itself when that text is empty or all white
/// space.
pub open spec fn field_text(f: FieldElement) -> Seq<char> {
    let hex = field_hex(f);
    let text = hex_text(hex);
    if trimmed(text, |c: char| is_whitespace(c)).len() == 0 {
        hex
    } else {
        text
    }
}

fn hex_digit_value(b: u8) -> (r: Option<u8>)
    ensures
        r == hex_value(b),
{
    if 48 <= b && b <= 57 {
        Some(b - 48)
    } else if 97 <= b && b <= 102 {
        Some(b - 87)
    } else if 65 <= b && b <= 70 {
        Some(b - 55)
    } else {
        None
    }
}

fn hex_pair(a: u8, b: u8) -> (r: Option<u8>)
    ensures
        r == pair_value(a, b),
{
    match hex_digit_value(b) {
        None => None,
        Some(y) => match hex_digit_value(a) {
            Some(x) => Some(16 * x + y),
            None => if a == 43 {
                Some(y)
            } else {
                None
            },
        },
    }
}

/// Says where the bytes go on after every `0x` at their start.
fn digits_start(bytes: &[u8]) -> (start: usize)
    ensures
        start <= bytes@.len(),
        bytes@.skip(start as int) == strip_hex_prefixes(bytes@),
{
    let n: usize = bytes.len();
    let mut start: usize = 0;
    assert(bytes@.skip(0) == bytes@);
    while n - start >= 2 && bytes[start] == 48 && bytes[start + 1] == 120
        invariant
            start <= n,
            n == bytes@.len(),
            strip_hex_prefixes(bytes@.skip(start as int)) == strip_hex_prefixes(bytes@),
        decreases n - start,
    {
        assert(bytes@.skip(start as int).skip(2) == bytes@.skip(start + 2));
        start = start + 2;
    }
    start
}

/// Reads a hexadecimal text as the text it stands for.
pub fn hex_to_string(hex: &str) -> (r: String)
    requires
        pairs_on_boundaries(strip_hex_prefixes(encode_utf8(hex@))),
    ensures
        r@ == hex_text(hex@),
{
    let bytes = hex.as_bytes();
    let n: usize = bytes.len();
    let start = digits_start(bytes);
    let mut decoded: Vec<u8> = Vec::new();
    let mut i: usize = start;
    while n - i >= 2
        invariant
            start <= i <= n,
            n == bytes@.len(),
            decoded@ + pairs_decoded(bytes@.skip(i as int)) == pairs_decoded(
                bytes@.skip(start as int),
            ),
        decreases n - i,
    {
        let ghost rest = bytes@.skip(i as int);
        assert(rest.skip(2) == bytes@.skip(i + 2));
        assert(rest[0] == bytes@[i as int] && rest[1] == bytes@[i + 1]);
        let ghost before = decoded@;
        match hex_pair(bytes[i], bytes[i + 1]) {
            Some(v) => {
                decoded.push(v);
                assert(decoded@ + pairs_decoded(rest.skip(2)) == before + (seq![v]
                    + pairs_decoded(rest.skip(2))));
            },
            None => {},
        }
        i = i + 2;
    }
    assert(pairs_decoded(bytes@.skip(i as int)) == Seq::<u8>::empty());
    match string_from_utf8(decoded) {
        Some(text) => trim_char(text.as_str(), '\0').to_owned(),
        None => hex.to_owned(),
    }
}

proof fn lemma_nibble_small(x: u64, i: int)
    requires
        0 <= i < 16,
    ensures
        nibble(x, i) < 16,
{
    let s = (((15 - i) * 4) as u64);
    assert((x >> s) & 0xf < 16) by (bit_vector);
}

/// The hexadecimal form of a field element is ASCII.
pub proof fn lemma_field_hex_ascii(f: FieldElement)
    ensures
        is_ascii_chars(field_hex(f)),
        field_hex(f).len() == 66,
{
    let h = field_hex(f);
    assert forall|i: int| 0 <= i < h.len() implies '\0' <= #[trigger] h[i] <= '\u{7f}' by {
        if i >= 2 {
            let word = if i < 18 {
                f.hi_hi
            } else if i < 34 {
                f.hi_lo
            } else if i < 50 {
                f.lo_hi
            } else {
                f.lo_lo
            };
            let j = (i - 2) % 16;
            lemma_nibble_small(word, j);
            assert(h[i] == hex_digit(nibble(word, j)));
        }
    }
}

proof fn lemma_strip_keeps_ascii(b: Seq<u8>)
    requires
        forall|i: int| 0 <= i < b.len() ==> #[trigger] b[i] < 128,
    ensures
        forall|i: int|
            0 <= i < strip_hex_prefixes(b).len() ==> #[trigger] strip_hex_prefixes(b)[i] < 128,
    decreases b.len(),
{
    if b.len() >= 2 && b[0] == 48 && b[1] == 120 {
        assert forall|i: int| 0 <= i < b.skip(2).len() implies #[trigger] b.skip(2)[i] < 128 by {
            assert(b.skip(2)[i] == b[i + 2]);
        }
        lemma_strip_keeps_ascii(b.skip(2));
        assert(strip_hex_prefixes(b) == strip_hex_prefixes(b.skip(2)));
    } else {
        assert(strip_hex_prefixes(b) == b);
    }
}

/// An ASCII text can be read two characters at a time.
pub proof fn lemma_ascii_on_boundaries(text: Seq<char>)
    requires
        is_ascii_chars(text),
    ensures
        pairs_on_boundaries(strip_hex_prefixes(encode_utf8(text))),
{
    is_ascii_chars_encode_utf8(text);
    let b = encode_utf8(text);
    assert forall|i: int| 0 <= i < b.len() implies #[trigger] b[i] < 128 by {
        assert('\0' <= text[i] <= '\u{7f}');
        assert(text[i] as u8 == b[i]);
    }
    lemma_strip_keeps_ascii(b);
}

/// Writes a field element as the text it stands for, or in hexadecimal when
/// it stands for none.
pub fn field_to_string(field: &FieldElement) -> (r: String)
    ensures
        r@ == field_text(*field),
{
    let hex = field_to_hex_string(field);
    proof {
        lemma_field_hex_ascii(*field);
        lemma_ascii_on_boundaries(hex@);
    }
    let result = hex_to_string(hex.as_str());
    if trim_whitespace(result.as_str()).is_empty() {
        hex
    } else {
        result
    }
}

#[verifier::external_type_specification]
#[verifier::external_body]
pub struct ExBigInt(::bigdecimal::num_bigint::BigInt);

#[verifier::external_type_specification]
#[verifier::external_body]
pub struct ExBigDecimal(::bigdecimal::BigDecimal);

#[verifier::external_type_specification]
#[verifier::external_body]
pub struct ExU256(::starknet::core::types::U256);

/// The integer that hexadecimal digits write, or nothing for bytes that
/// write none.
pub uninterp spec fn hex_big_int(digits: Seq<u8>) -> Option<::bigdecimal::num_bigint::BigInt>;

/// The digits of a decimal number and the number of them after the decimal
/// point.
pub uninterp spec fn decimal_parts(number: ::bigdecimal::BigDecimal) -> (
    ::bigdecimal::num_bigint::BigInt,
    i64,
);

/// The bytes of the field element that an integer stands for, most
/// significant first.
pub uninterp spec fn felt_of_big_int(number: ::bigdecimal::num_bigint::BigInt) -> Seq<u8>;

/// The 256-bit integer that a field element, given by its bytes, stands for.
pub uninterp spec fn u256_of_felt(bytes: Seq<u8>) -> ::starknet::core::types::U256;

/// Reads hexadecimal digits as an integer. This is `BigInt::parse_bytes`
/// with radix 16. Whether the bytes are accepted, and as which integer,
/// depends on the bytes alone.
#[verifier::external_body]
fn parse_hex_big_int(digits: &[u8]) -> (r: Option<::bigdecimal::num_bigint::BigInt>)
    ensures
        r == hex_big_int(digits@),
{
    ::bigdecimal::num_bigint::BigInt::parse_bytes(digits, 16)
}

/// Makes a decimal number from its digits and its scale. This is
/// `BigDecimal::new`, which keeps the two as they are given: they are the
/// parts of the number it makes.
#[verifier::external_body]
fn new_decimal(digits: ::bigdecimal::num_bigint::BigInt, scale: i64) -> (r:
    ::bigdecimal::BigDecimal)
    ensures
        decimal_parts(r) == (digits, scale),
{
    ::bigdecimal::BigDecimal::new(digits, scale)
}

/// Takes a decimal number apart. This is `BigDecimal::as_bigint_and_exponent`.
#[verifier::external_body]
fn split_decimal(number: &::bigdecimal::BigDecimal) -> (r: (
    ::bigdecimal::num_bigint::BigInt,
    i64,
))
    ensures
        r == decimal_parts(*number),
{
    number.as_bigint_and_exponent()
}

/// Reads an integer as a field element. This is `Felt::from` for a `BigInt`,
/// followed by `to_bytes_be`.
#[verifier::external_body]
fn felt_from_big_int(number: ::bigdecimal::num_bigint::BigInt) -> (r: [u8; 32])
    ensures
        r@ == felt_of_big_int(number),
{
    ::starknet::core::types::Felt::from(number).to_bytes_be()
}

/// Reads a field element as a 256-bit integer. This is `U256::from` for the
/// `Felt` that `Felt::from_bytes_be` makes of the bytes.
#[verifier::external_body]
fn u256_from_felt(bytes: &[u8; 32]) -> (r: ::starknet::core::types::U256)
    ensures
        r == u256_of_felt(bytes@),
{
    ::starknet::core::types::U256::from(::starknet::core::types::Felt::from_bytes_be(bytes))
}

/// The digits of a hexadecimal amount: its bytes without the `0x` at their
/// start.
pub open spec fn amount_digits(hex_price: Seq<char>) -> Seq<u8> {
    strip_hex_prefixes(encode_utf8(hex_price))
}

/// Reads a hexadecimal amount with `decimals` digits after the decimal
/// point. The amount must write an integer; [`try_hex_str_to_big_decimal`]
/// takes any text.
pub fn hex_str_to_big_decimal(hex_price: &str, decimals: i64) -> (r: ::bigdecimal::BigDecimal)
    requires
        hex_big_int(amount_digits(hex_price@)) is Some,
    ensures
        decimal_parts(r) == (hex_big_int(amount_digits(hex_price@)).unwrap(), decimals),
{
    let bytes = hex_price.as_bytes();
    let start = digits_start(bytes);
    let digits = slice_subrange(bytes, start, bytes.len());
    assert(digits@ == amount_digits(hex_price@));
    match parse_hex_big_int(digits) {
        Some(price) => new_decimal(price, decimals),
        None => vstd::pervasive::unreached(),
    }
}

/// Reads a hexadecimal amount with `decimals` digits after the decimal
/// point, if the text writes an integer.
pub fn try_hex_str_to_big_decimal(hex_price: &str, decimals: i64) -> (r: Option<
    ::bigdecimal::BigDecimal,
>)
    ensures
        match hex_big_int(amount_digits(hex_price@)) {
            Some(price) => r matches Some(number) && decimal_parts(number) == (price, decimals),
            None => r is None,
        },
{
    let bytes = hex_price.as_bytes();
    let start = digits_start(bytes);
    let digits = slice_subrange(bytes, start, bytes.len());
    assert(digits@ == amount_digits(hex_price@));
    match parse_hex_big_int(digits) {
        Some(_) => Some(hex_str_to_big_decimal(hex_price, decimals)),
        None => None,
    }
}

/// Reads the digits of a decimal number, without regard to its scale, as a
/// field element.
pub fn big_decimal_to_felt(value: ::bigdecimal::BigDecimal) -> (r: Felt)
    ensures
        r.bytes@ == felt_of_big_int(decimal_parts(value).0),
{
    let (amount, _) = split_decimal(&value);
    Felt { bytes: felt_from_big_int(amount) }
}

/// Reads the digits of a decimal number, without regard to its scale, as a
/// 256-bit integer.
pub fn big_decimal_to_u256(value: ::bigdecimal::BigDecimal) -> (r: ::starknet::core::types::U256)
    ensures
        r == u256_of_felt(felt_of_big_int(decimal_parts(value).0)),
{
    let felt = big_decimal_to_felt(value);
    u256_from_felt(&felt.bytes)
}

} // verus!
