//! Building and taking apart text.

use vstd::prelude::*;
use vstd::string::StrSliceExecFns;
use vstd::utf8::*;
use crate::utils::decimal::{digits_u64, parse_digits};

verus! {

/// Appends one character to a string. This is `String::push`, which puts the
/// character after everything the string already holds.
#[verifier::external_body]
pub(crate) fn push_char(s: &mut String, c: char)
    ensures
        final(s)@ == old(s)@.push(c),
{
    s.push(c);
}

/// Reads bytes as UTF-8 text. This is `String::from_utf8`: it gives the text
/// that the bytes encode when they are valid UTF-8, and nothing otherwise.
#[verifier::external_body]
pub(crate) fn string_from_utf8(bytes: Vec<u8>) -> (r: Option<String>)
    ensures
        r is Some <==> valid_utf8(bytes@),
        r matches Some(s) ==> s@ == decode_utf8(bytes@),
{
    String::from_utf8(bytes).ok()
}

/// The lower-case form of an ASCII capital letter; any other character as it
/// is.
pub open spec fn ascii_lower(c: char) -> char {
    if 'A' <= c <= 'Z' {
        ((c as u32) + 32) as char
    } else {
        c
    }
}

/// The text with its ASCII capital letters made lower-case.
pub open spec fn lowered(text: Seq<char>) -> Seq<char> {
    Seq::new(text.len(), |i: int| ascii_lower(text[i]))
}

/// True when the text is ASCII and holds no capital letter.
pub open spec fn is_lower_ascii(text: Seq<char>) -> bool {
    is_ascii_chars(text) && forall|i: int|
        0 <= i < text.len() ==> !('A' <= #[trigger] text[i] <= 'Z')
}

/// The bytes of an ASCII text, one for each character.
pub open spec fn ascii_bytes(text: Seq<char>) -> Seq<u8> {
    Seq::new(text.len(), |i: int| text[i] as u8)
}

/// Compares `input` with the lower-case word `word`, taking the ASCII capital
/// letters of `input` for their lower-case forms.
pub fn equals_ignoring_case(input: &str, word: &str) -> (r: bool)
    requires
        is_lower_ascii(word@),
    ensures
        r == (lowered(input@) == word@),
{
    broadcast use vstd::string::is_ascii_spec_bytes;

    if !input.is_ascii() {
        proof {
            let i = choose|i: int|
                0 <= i < input@.len() && !('\0' <= #[trigger] input@[i] <= '\u{7f}');
            if lowered(input@) == word@ {
                assert(lowered(input@)[i] == input@[i]);
                assert('\0' <= word@[i] <= '\u{7f}');
            }
        }
        return false;
    }
    let a = input.as_bytes();
    let b = word.as_bytes();
    assert(vstd::string::is_ascii(word));
    assert(a@.len() == input@.len());
    assert(b@.len() == word@.len());
    if a.len() != b.len() {
        return false;
    }
    let mut i: usize = 0;
    while i < a.len()
        invariant
            i <= a@.len(),
            a@.len() == b@.len(),
            a@.len() == input@.len(),
            b@.len() == word@.len(),
            is_ascii_chars(input@),
            is_lower_ascii(word@),
            a@ == Seq::new(input@.len(), |k: int| input@[k] as u8),
            b@ == Seq::new(word@.len(), |k: int| word@[k] as u8),
            forall|k: int| 0 <= k < i ==> ascii_lower(#[trigger] input@[k]) == word@[k],
        decreases a@.len() - i,
    {
        let x: u8 = a[i];
        let y: u8 = b[i];
        let folded: u8 = if 65 <= x && x <= 90 {
            x + 32
        } else {
            x
        };
        assert(x == input@[i as int] as u8);
        assert(y == word@[i as int] as u8);
        assert('\0' <= input@[i as int] <= '\u{7f}');
        assert('\0' <= word@[i as int] <= '\u{7f}');
        assert(!('A' <= word@[i as int] <= 'Z'));
        assert(folded == ascii_lower(input@[i as int]) as u8);
        if folded != y {
            assert(lowered(input@)[i as int] != word@[i as int]);
            return false;
        }
        assert(ascii_lower(input@[i as int]) == word@[i as int]) by {
            let c = ascii_lower(input@[i as int]);
            let w = word@[i as int];
            assert(c as u8 == w as u8);
            assert((c as u32) < 128 && (w as u32) < 128);
            assert(c as u32 == w as u32);
        }
        i = i + 1;
    }
    assert(lowered(input@) =~= word@);
    true
}

/// The number that a text writes: an optional `+`, then one or more ASCII
/// digits whose value fits in 64 bits. Any other text writes none.
pub open spec fn parsed_u64(text: Seq<char>) -> Option<u64> {
    if !is_ascii_chars(text) {
        None
    } else {
        let b = ascii_bytes(text);
        if b.len() > 0 && b[0] == 43 {
            digits_u64(b.drop_first())
        } else {
            digits_u64(b)
        }
    }
}

/// Reads a text as an unsigned 64-bit number.
pub fn parse_u64(text: &str) -> (r: Option<u64>)
    ensures
        r == parsed_u64(text@),
{
    broadcast use vstd::string::is_ascii_spec_bytes;

    if !text.is_ascii() {
        return None;
    }
    let bytes = text.as_bytes();
    assert(bytes@ == ascii_bytes(text@));
    let from: usize = if bytes.len() > 0 && bytes[0] == 43 {
        1
    } else {
        0
    };
    assert(bytes@.subrange(from as int, bytes@.len() as int) == if from == 1 {
        bytes@.drop_first()
    } else {
        bytes@
    });
    parse_digits(bytes, from, bytes.len())
}

/// Compares two texts.
pub fn same_text(a: &str, b: &str) -> (r: bool)
    ensures
        r == (a@ == b@),
{
    let x = a.as_bytes();
    let y = b.as_bytes();
    proof {
        encode_utf8_decode_utf8(a@);
        encode_utf8_decode_utf8(b@);
    }
    if x.len() != y.len() {
        return false;
    }
    let mut i: usize = 0;
    while i < x.len()
        invariant
            i <= x@.len(),
            x@.len() == y@.len(),
            x@ == encode_utf8(a@),
            y@ == encode_utf8(b@),
            forall|k: int| 0 <= k < i ==> x@[k] == y@[k],
        decreases x@.len() - i,
    {
        if x[i] != y[i] {
            return false;
        }
        i = i + 1;
    }
    assert(x@ =~= y@);
    true
}

/// True when `text` begins with `prefix`.
pub open spec fn begins_with(text: Seq<char>, prefix: Seq<char>) -> bool {
    prefix.len() <= text.len() && text.take(prefix.len() as int) == prefix
}

/// Tells whether `text` begins with `prefix`.
pub fn starts_with(text: &str, prefix: &str) -> (r: bool)
    ensures
        r == begins_with(text@, prefix@),
{
    let n = prefix.unicode_len();
    if text.unicode_len() < n {
        return false;
    }
    let mut i: usize = 0;
    while i < n
        invariant
            i <= n,
            n == prefix@.len(),
            n <= text@.len(),
            forall|k: int| 0 <= k < i ==> text@[k] == prefix@[k],
        decreases n - i,
    {
        if text.get_char(i) != prefix.get_char(i) {
            assert(text@.take(n as int)[i as int] != prefix@[i as int]);
            return false;
        }
        i = i + 1;
    }
    assert(text@.take(n as int) =~= prefix@);
    true
}

/// The text without the characters at its start that `drop` holds of.
pub open spec fn without_leading(s: Seq<char>, drop: spec_fn(char) -> bool) -> Seq<char>
    decreases s.len(),
{
    if s.len() > 0 && drop(s[0]) {
        without_leading(s.drop_first(), drop)
    } else {
        s
    }
}

/// The text without the characters at its end that `drop` holds of.
pub open spec fn without_trailing(s: Seq<char>, drop: spec_fn(char) -> bool) -> Seq<char>
    decreases s.len(),
{
    if s.len() > 0 && drop(s.last()) {
        without_trailing(s.drop_last(), drop)
    } else {
        s
    }
}

/// The text without the characters at its start and at its end that `drop`
/// holds of.
pub open spec fn trimmed(s: Seq<char>, drop: spec_fn(char) -> bool) -> Seq<char> {
    without_trailing(without_leading(s, drop), drop)
}

/// True for the characters that Unicode gives the property White_Space.
pub open spec fn is_whitespace(c: char) -> bool {
    let u = c as u32;
    (0x09 <= u <= 0x0d) || u == 0x20 || u == 0x85 || u == 0xa0 || u == 0x1680 || (0x2000 <= u
        <= 0x200a) || u == 0x2028 || u == 0x2029 || u == 0x202f || u == 0x205f || u == 0x3000
}

/// Removes every occurrence of one character from the start and the end of
/// a text. This is `str::trim_matches` with a character for its pattern.
#[verifier::external_body]
pub(crate) fn trim_char(s: &str, c: char) -> (r: &str)
    ensures
        r@ == trimmed(s@, |x: char| x == c),
{
    s.trim_matches(c)
}

/// Removes the white space from the start and the end of a text. This is
/// `str::trim`, which goes by Unicode's property White_Space.
#[verifier::external_body]
pub(crate) fn trim_whitespace(s: &str) -> (r: &str)
    ensures
        r@ == trimmed(s@, |x: char| is_whitespace(x)),
{
    s.trim()
}

} // verus!
