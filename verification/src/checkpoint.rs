//! The checkpoint record: one JSON object with the member
//! `last_processed_block`, an unsigned 64-bit number.

use vstd::prelude::*;
use crate::utils::decimal::{
    all_digits,
    decimal_digits,
    digits_u64,
    is_digit,
    lemma_decimal_digits,
    parse_digits,
    push_decimal,
};
use crate::dna::effective_start;
use crate::utils::text::ascii_bytes;

verus! {

/// The last block whose events have been handed to the consumer.
#[derive(Debug, Clone, Copy, PartialEq, Eq, Structural)]
pub struct BlockState {
    pub last_processed_block: u64,
}

/// Why a checkpoint could not be loaded.
#[derive(Debug, Clone, Copy, PartialEq, Eq, Structural)]
pub enum CheckpointError {
    /// What is stored is not a checkpoint record.
    Malformed,
}

/// True for the bytes that JSON allows between tokens: space, tab, line feed
/// and carriage return.
pub open spec fn is_space(b: u8) -> bool {
    b == 32 || b == 9 || b == 10 || b == 13
}

/// The member name of the record with its quotes.
pub open spec fn key_token() -> Seq<u8> {
    ascii_bytes("\"last_processed_block\""@)
}

/// The record of a block number: `{"last_processed_block":` followed by the
/// number in decimal and `}`, with nothing between the tokens.
pub open spec fn record_bytes(block_number: u64) -> Seq<u8> {
    seq![123u8] + key_token() + seq![58u8] + decimal_digits(block_number as nat) + seq![125u8]
}

/// The first position at or after `i` that holds no space.
pub open spec fn after_spaces(b: Seq<u8>, i: int) -> int
    decreases b.len() - i,
{
    if 0 <= i < b.len() && is_space(b[i]) {
        after_spaces(b, i + 1)
    } else {
        i
    }
}

/// The first position at or after `i` that holds no digit.
pub open spec fn after_digits(b: Seq<u8>, i: int) -> int
    decreases b.len() - i,
{
    if 0 <= i < b.len() && is_digit(b[i]) {
        after_digits(b, i + 1)
    } else {
        i
    }
}

/// True when `token` stands in `b` at position `i`.
pub open spec fn has_at(b: Seq<u8>, i: int, token: Seq<u8>) -> bool {
    0 <= i && i + token.len() <= b.len() && b.subrange(i, i + token.len()) == token
}

/// True when a run of digits is a JSON number: not empty, and without a
/// leading zero unless it is the single digit zero.
pub open spec fn plain_number(d: Seq<u8>) -> bool {
    d.len() > 0 && (d[0] != 48 || d.len() == 1)
}

/// The block number that the bytes record. The bytes must be `{`, the member
/// name, `:`, a number and `}` in this order, with any amount of space before,
/// between and after them and nothing else; the number must be a plain run of
/// digits that fits in 64 bits. Anything else records nothing.
pub open spec fn record_value(b: Seq<u8>) -> Option<u64> {
    let open = after_spaces(b, 0);
    let key = after_spaces(b, open + 1);
    let colon = after_spaces(b, key + key_token().len());
    let number = after_spaces(b, colon + 1);
    let number_end = after_digits(b, number);
    let close = after_spaces(b, number_end);
    let end = after_spaces(b, close + 1);
    if has_at(b, open, seq![123u8]) && has_at(b, key, key_token()) && has_at(b, colon, seq![58u8])
        && 0 <= number <= number_end <= b.len() && plain_number(b.subrange(number, number_end))
        && has_at(b, close, seq![125u8]) && end == b.len() {
        digits_u64(b.subrange(number, number_end))
    } else {
        None
    }
}

/// What loading gives for the stored bytes, `None` standing for no stored
/// record at all: no checkpoint when nothing is stored, the recorded block
/// number when the bytes are a record, and an error otherwise.
pub open spec fn loaded(contents: Option<Seq<u8>>) -> Result<Option<u64>, CheckpointError> {
    match contents {
        None => Ok(None),
        Some(b) => match record_value(b) {
            Some(n) => Ok(Some(n)),
            None => Err(CheckpointError::Malformed),
        },
    }
}

/// A run of digits that ends at a byte that is no digit, or at the end, is
/// passed over whole.
proof fn lemma_after_digits_run(b: Seq<u8>, i: int, j: int)
    requires
        0 <= i <= j <= b.len(),
        all_digits(b.subrange(i, j)),
        j < b.len() ==> !is_digit(b[j]),
    ensures
        after_digits(b, i) == j,
    decreases j - i,
{
    if i < j {
        assert(b.subrange(i, j)[0] == b[i]);
        assert(all_digits(b.subrange(i + 1, j))) by {
            assert forall|k: int| 0 <= k < j - i - 1 implies is_digit(
                #[trigger] b.subrange(i + 1, j)[k],
            ) by {
                assert(b.subrange(i, j)[k + 1] == b.subrange(i + 1, j)[k]);
            }
        }
        lemma_after_digits_run(b, i + 1, j);
    }
}

/// True when every byte is a space.
pub open spec fn spaces_only(w: Seq<u8>) -> bool {
    forall|i: int| 0 <= i < w.len() ==> is_space(#[trigger] w[i])
}

/// True for six runs of spaces: those before the record, between its five
/// tokens and after it.
pub open spec fn is_spacing(w: Seq<Seq<u8>>) -> bool {
    w.len() == 6 && forall|i: int| 0 <= i < 6 ==> spaces_only(#[trigger] w[i])
}

/// The record with the number `d` and the spacing `w`.
pub open spec fn laid_out(w: Seq<Seq<u8>>, d: Seq<u8>) -> Seq<u8> {
    w[0] + seq![123u8] + w[1] + key_token() + w[2] + seq![58u8] + w[3] + d + w[4] + seq![125u8]
        + w[5]
}

/// A run of spaces that ends at a byte that is no space, or at the end, is
/// passed over whole.
proof fn lemma_after_spaces_run(b: Seq<u8>, i: int, j: int)
    requires
        0 <= i <= j <= b.len(),
        spaces_only(b.subrange(i, j)),
        j < b.len() ==> !is_space(b[j]),
    ensures
        after_spaces(b, i) == j,
    decreases j - i,
{
    if i < j {
        assert(b.subrange(i, j)[0] == b[i]);
        assert(spaces_only(b.subrange(i + 1, j))) by {
            assert forall|k: int| 0 <= k < j - i - 1 implies is_space(
                #[trigger] b.subrange(i + 1, j)[k],
            ) by {
                assert(b.subrange(i, j)[k + 1] == b.subrange(i + 1, j)[k]);
            }
        }
        lemma_after_spaces_run(b, i + 1, j);
    }
}

/// What lies between a position and the first one after it that holds no
/// space is spaces.
proof fn lemma_spaces_passed(b: Seq<u8>, i: int)
    requires
        0 <= i <= b.len(),
    ensures
        i <= after_spaces(b, i) <= b.len(),
        spaces_only(b.subrange(i, after_spaces(b, i))),
    decreases b.len() - i,
{
    if i < b.len() && is_space(b[i]) {
        lemma_spaces_passed(b, i + 1);
        let j = after_spaces(b, i);
        assert forall|k: int| 0 <= k < j - i implies is_space(#[trigger] b.subrange(i, j)[k]) by {
            if k > 0 {
                assert(b.subrange(i + 1, j)[k - 1] == b.subrange(i, j)[k]);
            }
        }
    }
}

/// What lies between a position and the first one after it that holds no
/// digit is digits.
proof fn lemma_digits_passed(b: Seq<u8>, i: int)
    requires
        0 <= i <= b.len(),
    ensures
        i <= after_digits(b, i) <= b.len(),
        all_digits(b.subrange(i, after_digits(b, i))),
    decreases b.len() - i,
{
    if i < b.len() && is_digit(b[i]) {
        lemma_digits_passed(b, i + 1);
        let j = after_digits(b, i);
        assert forall|k: int| 0 <= k < j - i implies is_digit(#[trigger] b.subrange(i, j)[k]) by {
            if k > 0 {
                assert(b.subrange(i + 1, j)[k - 1] == b.subrange(i, j)[k]);
            }
        }
    }
}

/// Every record in any spacing is read as its number: the five tokens in
/// order, a plain number among them, with runs of spaces around them, record
/// the number.
pub proof fn lemma_layout_is_read(w: Seq<Seq<u8>>, d: Seq<u8>)
    requires
        is_spacing(w),
        plain_number(d),
        all_digits(d),
    ensures
        record_value(laid_out(w, d)) == digits_u64(d),
{
    reveal_strlit("\"last_processed_block\"");
    let key = key_token();
    let b = laid_out(w, d);
    assert(key.len() == 22);
    assert(key[0] == 34);
    assert(spaces_only(w[0]) && spaces_only(w[1]) && spaces_only(w[2]) && spaces_only(w[3])
        && spaces_only(w[4]) && spaces_only(w[5]));
    let open: int = w[0].len() as int;
    let key_at: int = open + 1 + w[1].len();
    let colon: int = key_at + 22 + w[2].len();
    let number: int = colon + 1 + w[3].len();
    let number_end: int = number + d.len();
    let close: int = number_end + w[4].len();
    let end: int = close + 1 + w[5].len();
    assert(b.len() == end);
    assert(b.subrange(0, open) == w[0]);
    assert(b[open] == 123);
    assert(b.subrange(open, open + 1) == seq![123u8]);
    assert(b.subrange(open + 1, key_at) == w[1]);
    assert(b.subrange(key_at, key_at + 22) == key);
    assert(b[key_at] == key[0]);
    assert(b.subrange(key_at + 22, colon) == w[2]);
    assert(b[colon] == 58);
    assert(b.subrange(colon, colon + 1) == seq![58u8]);
    assert(b.subrange(colon + 1, number) == w[3]);
    assert(b.subrange(number, number_end) == d);
    assert(b[number] == d[0]);
    assert(is_digit(d[0]));
    assert(b.subrange(number_end, close) == w[4]);
    assert(b[close] == 125);
    assert(b.subrange(close, close + 1) == seq![125u8]);
    assert(b.subrange(close + 1, end) == w[5]);
    lemma_after_spaces_run(b, 0, open);
    lemma_after_spaces_run(b, open + 1, key_at);
    lemma_after_spaces_run(b, key_at + 22, colon);
    lemma_after_spaces_run(b, colon + 1, number);
    assert(!is_digit(b[number_end])) by {
        if w[4].len() > 0 {
            assert(b[number_end] == w[4][0]);
            assert(is_space(w[4][0]));
        }
    }
    lemma_after_digits_run(b, number, number_end);
    lemma_after_spaces_run(b, number_end, close);
    lemma_after_spaces_run(b, close + 1, end);
}

/// Whatever is read as a record is a record in some spacing: the five tokens
/// in order with a plain number among them and nothing but spaces around
/// them.
pub proof fn lemma_read_is_layout(b: Seq<u8>)
    requires
        record_value(b) is Some,
    ensures
        exists|w: Seq<Seq<u8>>, d: Seq<u8>|
            is_spacing(w) && plain_number(d) && all_digits(d) && digits_u64(d) == record_value(b)
                && #[trigger] laid_out(w, d) == b,
{
    let open = after_spaces(b, 0);
    let key = after_spaces(b, open + 1);
    let colon = after_spaces(b, key + key_token().len());
    let number = after_spaces(b, colon + 1);
    let number_end = after_digits(b, number);
    let close = after_spaces(b, number_end);
    let end = after_spaces(b, close + 1);
    lemma_spaces_passed(b, 0);
    lemma_spaces_passed(b, open + 1);
    lemma_spaces_passed(b, key + key_token().len());
    lemma_spaces_passed(b, colon + 1);
    lemma_digits_passed(b, number);
    lemma_spaces_passed(b, number_end);
    lemma_spaces_passed(b, close + 1);
    let w = seq![
        b.subrange(0, open),
        b.subrange(open + 1, key),
        b.subrange(key + key_token().len(), colon),
        b.subrange(colon + 1, number),
        b.subrange(number_end, close),
        b.subrange(close + 1, end),
    ];
    let d = b.subrange(number, number_end);
    assert(is_spacing(w)) by {
        assert forall|i: int| 0 <= i < 6 implies spaces_only(#[trigger] w[i]) by {}
    }
    assert(b.subrange(open, open + 1) == seq![123u8]);
    assert(b.subrange(colon, colon + 1) == seq![58u8]);
    assert(b.subrange(close, close + 1) == seq![125u8]);
    assert(laid_out(w, d) =~= b) by {
        let n = key_token().len() as int;
        assert(b.subrange(key, key + n) == key_token());
        assert(b.subrange(0, open) + b.subrange(open, open + 1) == b.subrange(0, open + 1));
        assert(b.subrange(0, open + 1) + b.subrange(open + 1, key) == b.subrange(0, key));
        assert(b.subrange(0, key) + b.subrange(key, key + n) == b.subrange(0, key + n));
        assert(b.subrange(0, key + n) + b.subrange(key + n, colon) == b.subrange(0, colon));
        assert(b.subrange(0, colon) + b.subrange(colon, colon + 1) == b.subrange(0, colon + 1));
        assert(b.subrange(0, colon + 1) + b.subrange(colon + 1, number) == b.subrange(0, number));
        assert(b.subrange(0, number) + b.subrange(number, number_end) == b.subrange(
            0,
            number_end,
        ));
        assert(b.subrange(0, number_end) + b.subrange(number_end, close) == b.subrange(0, close));
        assert(b.subrange(0, close) + b.subrange(close, close + 1) == b.subrange(0, close + 1));
        assert(b.subrange(0, close + 1) + b.subrange(close + 1, end) == b.subrange(0, end));
        assert(b.subrange(0, end) == b);
    }
}

/// The record of a block number records that block number.
pub proof fn lemma_record_round_trip(block_number: u64)
    ensures
        record_value(record_bytes(block_number)) == Some(block_number),
        loaded(Some(record_bytes(block_number))) == Ok::<Option<u64>, CheckpointError>(
            Some(block_number),
        ),
{
    let none = Seq::<u8>::empty();
    let w = seq![none, none, none, none, none, none];
    let digits = decimal_digits(block_number as nat);
    lemma_decimal_digits(block_number as nat);
    assert(plain_number(digits)) by {
        if block_number == 0 {
            assert(digits == seq![48u8]);
        }
    }
    assert(is_spacing(w)) by {
        assert forall|i: int| 0 <= i < 6 implies spaces_only(#[trigger] w[i]) by {
            assert(w[i] == none);
        }
    }
    assert(laid_out(w, digits) =~= record_bytes(block_number));
    lemma_layout_is_read(w, digits);
}

fn skip_spaces(bytes: &[u8], from: usize) -> (r: usize)
    requires
        from <= bytes@.len(),
    ensures
        r == after_spaces(bytes@, from as int),
        from <= r <= bytes@.len(),
{
    let mut i: usize = from;
    while i < bytes.len() && (bytes[i] == 32 || bytes[i] == 9 || bytes[i] == 10 || bytes[i] == 13)
        invariant
            from <= i <= bytes@.len(),
            after_spaces(bytes@, i as int) == after_spaces(bytes@, from as int),
        decreases bytes@.len() - i,
    {
        i = i + 1;
    }
    i
}

fn skip_digits(bytes: &[u8], from: usize) -> (r: usize)
    requires
        from <= bytes@.len(),
    ensures
        r == after_digits(bytes@, from as int),
        from <= r <= bytes@.len(),
{
    let mut i: usize = from;
    while i < bytes.len() && 48 <= bytes[i] && bytes[i] <= 57
        invariant
            from <= i <= bytes@.len(),
            after_digits(bytes@, i as int) == after_digits(bytes@, from as int),
        decreases bytes@.len() - i,
    {
        i = i + 1;
    }
    i
}

fn token_at(bytes: &[u8], at: usize, token: &[u8]) -> (r: bool)
    requires
        at <= bytes@.len(),
    ensures
        r == has_at(bytes@, at as int, token@),
{
    if token.len() > bytes.len() - at {
        return false;
    }
    let n: usize = bytes.len();
    let mut i: usize = 0;
    while i < token.len()
        invariant
            i <= token@.len(),
            n == bytes@.len(),
            at + token@.len() <= bytes@.len(),
            forall|k: int| 0 <= k < i ==> bytes@[at + k] == token@[k],
        decreases token@.len() - i,
    {
        if bytes[at + i] != token[i] {
            assert(bytes@.subrange(at as int, at + token@.len())[i as int] != token@[i as int]);
            return false;
        }
        i = i + 1;
    }
    assert(bytes@.subrange(at as int, at + token@.len()) =~= token@);
    true
}

/// Writes the record of a block number.
pub fn encode_block_state(state: BlockState) -> (r: Vec<u8>)
    ensures
        r@ == record_bytes(state.last_processed_block),
{
    broadcast use vstd::string::is_ascii_spec_bytes;

    proof {
        reveal_strlit("\"last_processed_block\"");
    }
    let key = "\"last_processed_block\"";
    assert(vstd::string::is_ascii(key));
    let mut out: Vec<u8> = Vec::new();
    out.push(123);
    out.extend_from_slice(key.as_bytes());
    out.push(58);
    push_decimal(&mut out, state.last_processed_block);
    out.push(125);
    assert(out@ =~= record_bytes(state.last_processed_block));
    out
}

/// Reads a record. The answer is the block number it records, or `None` when
/// the bytes are no record.
pub fn decode_block_state(bytes: &[u8]) -> (r: Option<BlockState>)
    ensures
        match r {
            Some(state) => record_value(bytes@) == Some(state.last_processed_block),
            None => record_value(bytes@) is None,
        },
{
    broadcast use vstd::string::is_ascii_spec_bytes;

    proof {
        reveal_strlit("\"last_processed_block\"");
    }
    let key_text = "\"last_processed_block\"";
    assert(vstd::string::is_ascii(key_text));
    let key = key_text.as_bytes();
    assert(key@ == key_token());
    assert(key@.len() == 22);
    let n: usize = bytes.len();
    let open = skip_spaces(bytes, 0);
    if open >= n || bytes[open] != 123 {
        assert(!has_at(bytes@, open as int, seq![123u8])) by {
            if open < n {
                assert(bytes@.subrange(open as int, open + 1)[0] == bytes@[open as int]);
            }
        }
        return None;
    }
    assert(has_at(bytes@, open as int, seq![123u8])) by {
        assert(bytes@.subrange(open as int, open + 1) =~= seq![123u8]);
    }
    let key_at = skip_spaces(bytes, open + 1);
    if !token_at(bytes, key_at, key) {
        return None;
    }
    let colon = skip_spaces(bytes, key_at + 22);
    if colon >= n || bytes[colon] != 58 {
        assert(!has_at(bytes@, colon as int, seq![58u8])) by {
            if colon < n {
                assert(bytes@.subrange(colon as int, colon + 1)[0] == bytes@[colon as int]);
            }
        }
        return None;
    }
    assert(has_at(bytes@, colon as int, seq![58u8])) by {
        assert(bytes@.subrange(colon as int, colon + 1) =~= seq![58u8]);
    }
    let number = skip_spaces(bytes, colon + 1);
    let number_end = skip_digits(bytes, number);
    let ghost digits = bytes@.subrange(number as int, number_end as int);
    if number == number_end || (bytes[number] == 48 && number_end - number != 1) {
        assert(!plain_number(digits)) by {
            if number != number_end {
                assert(digits[0] == bytes@[number as int]);
            }
        }
        return None;
    }
    assert(plain_number(digits)) by {
        assert(digits[0] == bytes@[number as int]);
    }
    let close = skip_spaces(bytes, number_end);
    if close >= n || bytes[close] != 125 {
        assert(!has_at(bytes@, close as int, seq![125u8])) by {
            if close < n {
                assert(bytes@.subrange(close as int, close + 1)[0] == bytes@[close as int]);
            }
        }
        return None;
    }
    assert(has_at(bytes@, close as int, seq![125u8])) by {
        assert(bytes@.subrange(close as int, close + 1) =~= seq![125u8]);
    }
    let end = skip_spaces(bytes, close + 1);
    if end != n {
        return None;
    }
    match parse_digits(bytes, number, number_end) {
        Some(value) => Some(BlockState { last_processed_block: value }),
        None => None,
    }
}

/// The bytes to store as the checkpoint for a block number. Storing them
/// replaces whatever was stored before.
pub fn save_block_state(block_number: u64) -> (r: Vec<u8>)
    ensures
        r@ == record_bytes(block_number),
{
    encode_block_state(BlockState { last_processed_block: block_number })
}

/// The checkpoint that the stored bytes hold. `contents` is `None` when
/// nothing is stored, which is no error: there is no checkpoint yet.
pub fn load_block_state(contents: Option<&[u8]>) -> (r: Result<Option<u64>, CheckpointError>)
    ensures
        r == loaded(
            match contents {
                Some(b) => Some(b@),
                None => None,
            },
        ),
{
    match contents {
        None => Ok(None),
        Some(bytes) => match decode_block_state(bytes) {
            Some(state) => Ok(Some(state.last_processed_block)),
            None => Err(CheckpointError::Malformed),
        },
    }
}

/// The checkpoint that a session resumes from, given what loading gave. A
/// checkpoint that cannot be read counts as none.
pub open spec fn resumed(loaded: Result<Option<u64>, CheckpointError>) -> Option<u64> {
    match loaded {
        Ok(checkpoint) => checkpoint,
        Err(_) => None,
    }
}

/// Says where to resume, given what loading the checkpoint gave. A stored
/// record that cannot be read is passed over like a missing one, so that the
/// session starts at the configured block; the record itself is left as it
/// is until the next save replaces it.
pub fn resume_point(loaded: Result<Option<u64>, CheckpointError>) -> (checkpoint: Option<u64>)
    ensures
        checkpoint == resumed(loaded),
{
    match loaded {
        Ok(checkpoint) => checkpoint,
        Err(_) => None,
    }
}

/// What is stored after a save: the record of the block number, whatever was
/// stored before.
pub open spec fn after_save(previous: Option<Seq<u8>>, block_number: u64) -> Option<Seq<u8>> {
    Some(record_bytes(block_number))
}

/// The checkpoint of one deployment: where it is kept and what is stored
/// there. The store reads and writes nothing itself; its owner loads the bytes
/// from the location before making the store and writes them back after each
/// save.
pub struct CheckpointStore {
    path: String,
    stored: Option<Vec<u8>>,
}

impl CheckpointStore {
    /// Where the checkpoint is kept.
    pub closed spec fn location(&self) -> Seq<char> {
        self.path@
    }

    /// The stored bytes, `None` when nothing is stored.
    pub closed spec fn contents(&self) -> Option<Seq<u8>> {
        match self.stored {
            Some(bytes) => Some(bytes@),
            None => None,
        }
    }

    /// The store for the given location. `stored` is what was found there,
    /// `None` when nothing was.
    pub fn new(path: String, stored: Option<Vec<u8>>) -> (store: CheckpointStore)
        ensures
            store.location() == path@,
            store.contents() == match stored {
                Some(bytes) => Some(bytes@),
                None => None,
            },
    {
        CheckpointStore { path, stored }
    }

    /// Where the checkpoint is kept.
    pub fn path(&self) -> (r: &str)
        ensures
            r@ == self.location(),
    {
        self.path.as_str()
    }

    /// The stored bytes.
    pub fn stored(&self) -> (r: &Option<Vec<u8>>)
        ensures
            self.contents() == match *r {
                Some(bytes) => Some(bytes@),
                None => None,
            },
    {
        &self.stored
    }

    /// The stored checkpoint. Nothing stored is no error but no checkpoint.
    pub fn load(&self) -> (r: Result<Option<u64>, CheckpointError>)
        ensures
            r == loaded(self.contents()),
    {
        match &self.stored {
            None => Ok(None),
            Some(bytes) => load_block_state(Some(bytes.as_slice())),
        }
    }

    /// Replaces what is stored by the record of `block_number`.
    pub fn save(&mut self, block_number: u64)
        ensures
            final(self).contents() == after_save(old(self).contents(), block_number),
            final(self).location() == old(self).location(),
    {
        self.stored = Some(save_block_state(block_number));
    }
}

/// Saving is idempotent: a second save of the same block number leaves what
/// is stored as the first save left it, and after either the stored
/// checkpoint loads as that block number.
pub proof fn lemma_save_is_idempotent(previous: Option<Seq<u8>>, block_number: u64)
    ensures
        after_save(after_save(previous, block_number), block_number) == after_save(
            previous,
            block_number,
        ),
        loaded(after_save(previous, block_number)) == Ok::<Option<u64>, CheckpointError>(
            Some(block_number),
        ),
{
    lemma_record_round_trip(block_number);
}

/// A session resumes exactly at the saved checkpoint. Whatever was stored
/// before and whatever starting block is configured, after a save of
/// `block_number` loading gives `block_number`, and a session built from what
/// was loaded starts neither before nor after it.
pub proof fn lemma_resume_at_checkpoint(
    previous: Option<Seq<u8>>,
    block_number: u64,
    configured: u64,
)
    ensures
        loaded(after_save(previous, block_number)) matches Ok(checkpoint) && effective_start(
            checkpoint,
            configured,
        ) == block_number,
        effective_start(resumed(loaded(after_save(previous, block_number))), configured)
            == block_number,
{
    lemma_record_round_trip(block_number);
}

/// Without a readable checkpoint a session starts at the configured block:
/// that is so when nothing is stored and when what is stored is no record.
pub proof fn lemma_start_without_checkpoint(contents: Option<Seq<u8>>, configured: u64)
    requires
        contents matches Some(bytes) ==> record_value(bytes) is None,
    ensures
        effective_start(resumed(loaded(contents)), configured) == configured,
{
}

} // verus!
