//! Text to tokens and back, through a byte-pair encoding.

use tiktoken_rust::{DecodeMode, Encoding};
use vstd::pervasive::unreached;
use vstd::prelude::*;
use vstd::utf8::{decode_utf8, encode_utf8, valid_utf8};

use crate::error::{ConfigError, ConfigView, ErrorView, SummaryError};

verus! {

/// The byte-pair encoding of `tiktoken_rust`. Its vocabulary is not visible here:
/// what it does to a text or to tokens is named by the functions below.
#[verifier::external_type_specification]
#[verifier::external_body]
pub struct ExEncoding(Encoding);

/// The tokens that `Encoding::encode_ordinary` gives for `text`.
pub uninterp spec fn encoded_tokens(enc: Encoding, text: Seq<char>) -> Seq<usize>;

/// The text that `Encoding::decode` gives for `tokens` in `DecodeMode::Replace`.
pub uninterp spec fn decoded_text(enc: Encoding, tokens: Seq<usize>) -> Seq<char>;

/// The bytes that `Encoding::decode_single_token_bytes` gives for `token`, or
/// `None` where it finds none.
pub uninterp spec fn token_bytes(enc: Encoding, token: usize) -> Option<Seq<u8>>;

/// The token that `Encoding::encode_single_token` gives for `piece`, or `None`
/// where it finds none.
pub uninterp spec fn single_token(enc: Encoding, piece: Seq<u8>) -> Option<usize>;

/// `token` is one that `enc` can turn back into bytes.
pub open spec fn token_known(enc: Encoding, token: usize) -> bool {
    token_bytes(enc, token) is Some
}

/// Every token of `tokens` is one that `enc` can turn back into bytes.
pub open spec fn all_known(enc: Encoding, tokens: Seq<usize>) -> bool {
    forall|i: int| 0 <= i < tokens.len() ==> token_known(enc, #[trigger] tokens[i])
}

/// `enc` has a token for the one byte `byte`.
pub open spec fn byte_known(enc: Encoding, byte: u8) -> bool {
    single_token(enc, seq![byte]) is Some
}

/// `enc` has a token for each of the 256 bytes, and so for every piece of text.
pub open spec fn covers_all_bytes(enc: Encoding) -> bool {
    forall|byte: u8| byte_known(enc, byte)
}

/// The bytes of `tokens`, one token's after the other's.
pub open spec fn bytes_of(enc: Encoding, tokens: Seq<usize>) -> Seq<u8>
    decreases tokens.len(),
{
    if tokens.len() == 0 {
        Seq::empty()
    } else {
        bytes_of(enc, tokens.drop_last()) + token_bytes(enc, tokens.last()).unwrap()
    }
}

/// `text` is a reading of `bytes` that does not fail: where the bytes are UTF-8
/// it is the text that they encode, and where they are not it holds U+FFFD in
/// place of what cannot be read.
pub open spec fn reads_bytes(bytes: Seq<u8>, text: Seq<char>) -> bool {
    &&& valid_utf8(bytes) ==> text == decode_utf8(bytes)
    &&& !valid_utf8(bytes) ==> text.contains('\u{FFFD}')
}

/// `text` is what `tokens` decode to, which is a reading of their bytes. A slice
/// of tokens that cuts a character in two has bytes that are not UTF-8.
pub open spec fn is_decoding(enc: Encoding, tokens: Seq<usize>, text: Seq<char>) -> bool {
    &&& text == decoded_text(enc, tokens)
    &&& reads_bytes(bytes_of(enc, tokens), text)
}

/// The longest stretch of text, in bytes, that is handed to the encoding in one piece.
pub const MAX_STRETCH: usize = 900_000;

/// A word ends before byte `i`: the byte before it is a visible ASCII character
/// and byte `i` is a space. No piece that the encoding splits off holds both.
pub open spec fn breaks_before(bytes: Seq<u8>, i: int) -> bool {
    &&& 0 < i < bytes.len()
    &&& 0x21 <= bytes[i - 1] <= 0x7e
    &&& bytes[i] == 0x20
}

/// The length of the stretch that the first `n` bytes end with: the number of
/// bytes from the last word break among them, or from the start where there is none.
pub open spec fn stretch_len(bytes: Seq<u8>, n: int) -> int
    decreases n,
{
    if n <= 0 {
        0
    } else if breaks_before(bytes, n - 1) {
        1
    } else {
        stretch_len(bytes, n - 1) + 1
    }
}

/// No stretch of `bytes` is longer than `limit`.
pub open spec fn stretches_within(bytes: Seq<u8>, limit: int) -> bool {
    forall|n: int| 0 <= n <= bytes.len() ==> #[trigger] stretch_len(bytes, n) <= limit
}

/// `text` is one that the encoding can split: none of its stretches is longer than
/// `MAX_STRETCH` bytes.
pub open spec fn splittable(text: Seq<char>) -> bool {
    stretches_within(encode_utf8(text), MAX_STRETCH as int)
}

/// A stretch is no longer than what it is a part of.
pub proof fn lemma_stretch_in_prefix(bytes: Seq<u8>, n: int)
    requires
        0 <= n,
    ensures
        0 <= stretch_len(bytes, n) <= n,
    decreases n,
{
    if n > 0 {
        lemma_stretch_in_prefix(bytes, n - 1);
    }
}

/// A stretch starts at a word break, or at the start of the text.
pub proof fn lemma_stretch_starts_at_break(bytes: Seq<u8>, n: int)
    requires
        0 <= n,
    ensures
        0 <= n - stretch_len(bytes, n) <= n,
        n > 0 ==> n - stretch_len(bytes, n) < n,
        n - stretch_len(bytes, n) > 0 ==> breaks_before(bytes, n - stretch_len(bytes, n)),
    decreases n,
{
    if n > 0 {
        lemma_stretch_starts_at_break(bytes, n - 1);
    }
}

/// Where no stretch is longer than `limit`, every run of more than `limit` bytes
/// has a word break inside it.
pub proof fn lemma_long_run_has_break(bytes: Seq<u8>, limit: int, from: int, to: int)
    requires
        stretches_within(bytes, limit),
        0 <= from <= to <= bytes.len(),
        to - from > limit,
    ensures
        exists|k: int| from < k < to && breaks_before(bytes, k),
{
    lemma_stretch_starts_at_break(bytes, to);
    let k = to - stretch_len(bytes, to);
    assert(stretch_len(bytes, to) <= limit);
    assert(from < k < to && breaks_before(bytes, k));
}

/// A text of at most `limit` bytes has no stretch longer than `limit`.
pub proof fn lemma_short_text_has_short_stretches(bytes: Seq<u8>, limit: int)
    requires
        bytes.len() <= limit,
    ensures
        stretches_within(bytes, limit),
{
    assert forall|n: int| 0 <= n <= bytes.len() implies #[trigger] stretch_len(bytes, n)
        <= limit by {
        lemma_stretch_in_prefix(bytes, n);
    }
}

/// Calls `Encoding::encode_ordinary`.
///
/// Trusted: the result is what that function returns for `text`, and each token
/// in it is one of the encoding's own, which `decode_single_token_bytes` finds.
///
/// The outside function panics on two kinds of input, which `requires` leaves out.
/// It looks up, for each piece of the text, the piece itself or the parts left
/// after merging its bytes; a part that was never merged is one byte, and the
/// table is indexed with it: so every byte must have a token. And it splits the
/// text with a backtracking matcher that gives up, which is then unwrapped, when
/// more than 1,000,000 of its steps are pending or retried in the search for one
/// piece. Each pattern of the built-in encodings takes a pending step for each
/// character that it reads and a fixed few more, and retries no more often. It
/// never reads past a visible ASCII character into a space that follows it: of
/// its alternatives, those that read a space read it first or read white space
/// only. So no search reads more than one stretch, and the stretches are kept
/// below the matcher's bound by a wide margin.
#[verifier::external_body]
fn encode_ordinary(enc: &Encoding, text: &str) -> (tokens: Vec<usize>)
    requires
        covers_all_bytes(*enc),
        splittable(text@),
    ensures
        tokens@ == encoded_tokens(*enc, text@),
        all_known(*enc, tokens@),
{
    enc.encode_ordinary(text)
}

/// Calls `Encoding::decode` in `DecodeMode::Replace`.
///
/// Trusted: in that mode the outside function always succeeds. It lays the
/// tokens' bytes end to end, the bytes that `decode_single_token_bytes` gives for
/// each, and reads them with `String::from_utf8_lossy`: bytes that are UTF-8 come
/// out as the text they encode, and any other bytes leave U+FFFD in the text. It
/// indexes its tables with each token, so it is called only on tokens that it knows.
#[verifier::external_body]
fn decode_replace(enc: &Encoding, tokens: &[usize]) -> (text: Option<String>)
    requires
        all_known(*enc, tokens@),
    ensures
        text is Some,
        text.unwrap()@ == decoded_text(*enc, tokens@),
        reads_bytes(bytes_of(*enc, tokens@), text.unwrap()@),
{
    enc.decode(tokens, DecodeMode::Replace).ok()
}

/// Calls `Encoding::decode_single_token_bytes` and says whether it found the token.
#[verifier::external_body]
fn knows_token(enc: &Encoding, token: usize) -> (known: bool)
    ensures
        known == token_bytes(*enc, token).is_some(),
{
    enc.decode_single_token_bytes(token).is_ok()
}

/// Calls `Encoding::encode_single_token` on the one byte `byte` and says whether it
/// found a token.
#[verifier::external_body]
fn knows_byte(enc: &Encoding, byte: u8) -> (known: bool)
    ensures
        known == single_token(*enc, seq![byte]).is_some(),
{
    enc.encode_single_token(&[byte]).is_ok()
}

/// Whether `enc` has a token for every byte.
pub fn has_all_bytes(enc: &Encoding) -> (complete: bool)
    ensures
        complete == covers_all_bytes(*enc),
{
    let mut byte: u8 = 0;
    loop
        invariant
            forall|b: u8| b < byte ==> byte_known(*enc, b),
        decreases 255 - byte,
    {
        let known = knows_byte(enc, byte);
        assert(known == byte_known(*enc, byte));
        if !known {
            return false;
        }
        if byte == 255 {
            assert forall|b: u8| byte_known(*enc, b) by {
                if b < byte {
                } else {
                    assert(b == byte);
                }
            }
            return true;
        }
        byte = byte + 1;
    }
}

/// Whether `enc` knows every token of `tokens`.
pub fn knows_all(enc: &Encoding, tokens: &[usize]) -> (known: bool)
    ensures
        known == all_known(*enc, tokens@),
{
    let mut i: usize = 0;
    while i < tokens.len()
        invariant
            i <= tokens.len(),
            all_known(*enc, tokens@.take(i as int)),
        decreases tokens.len() - i,
    {
        if !knows_token(enc, tokens[i]) {
            return false;
        }
        assert forall|j: int| 0 <= j < i + 1 implies token_known(
            *enc,
            #[trigger] tokens@.take(i + 1)[j],
        ) by {
            if j < i {
                assert(tokens@.take(i as int)[j] == tokens@[j]);
            }
        }
        i = i + 1;
    }
    assert(tokens@.take(i as int) == tokens@);
    true
}

/// Whether no stretch of `text` is longer than `MAX_STRETCH` bytes.
pub fn is_splittable(text: &str) -> (short: bool)
    ensures
        short == splittable(text@),
{
    let bytes = text.as_bytes();
    let mut stretch: usize = 0;
    let mut i: usize = 0;
    while i < bytes.len()
        invariant
            i <= bytes.len(),
            bytes@ == encode_utf8(text@),
            stretch == stretch_len(bytes@, i as int),
            stretch <= i,
            forall|n: int| 0 <= n <= i ==> #[trigger] stretch_len(bytes@, n) <= MAX_STRETCH,
        decreases bytes.len() - i,
    {
        let breaks = i > 0 && 0x21 <= bytes[i - 1] && bytes[i - 1] <= 0x7e && bytes[i] == 0x20;
        assert(breaks == breaks_before(bytes@, i as int));
        stretch = if breaks {
            1
        } else {
            stretch + 1
        };
        i = i + 1;
        assert(stretch == stretch_len(bytes@, i as int));
        if stretch > MAX_STRETCH {
            return false;
        }
    }
    true
}

/// The tokens of a document's text.
///
/// An empty text is refused. So is an encoding that lacks a token for some byte,
/// since it cannot encode every text, and a text with a stretch too long for the
/// encoding to split.
pub fn tokenize(enc: &Encoding, text: &str) -> (result: Result<Vec<usize>, SummaryError>)
    ensures
        match result {
            Ok(tokens) => {
                &&& text@.len() > 0
                &&& covers_all_bytes(*enc)
                &&& splittable(text@)
                &&& tokens@ == encoded_tokens(*enc, text@)
                &&& all_known(*enc, tokens@)
            },
            Err(error) => {
                if text@.len() == 0 {
                    error@ == ErrorView::EmptyInput
                } else if !covers_all_bytes(*enc) {
                    error@ == ErrorView::Configuration(ConfigView::IncompleteEncoding)
                } else {
                    &&& !splittable(text@)
                    &&& error@ == ErrorView::UnbrokenText
                }
            },
        },
{
    if text.is_empty() {
        return Err(SummaryError::EmptyInput);
    }
    if !has_all_bytes(enc) {
        return Err(SummaryError::Configuration(ConfigError::IncompleteEncoding));
    }
    if !is_splittable(text) {
        return Err(SummaryError::UnbrokenText);
    }
    Ok(encode_ordinary(enc, text))
}

/// The text of `tokens`. Decoding does not fail on bytes that are not UTF-8, as
/// at the edge of a slice that cuts a character in two: they come out as U+FFFD.
pub fn decode(enc: &Encoding, tokens: &[usize]) -> (text: String)
    requires
        all_known(*enc, tokens@),
    ensures
        is_decoding(*enc, tokens@, text@),
{
    match decode_replace(enc, tokens) {
        Some(text) => text,
        None => unreached(),
    }
}

/// The text of `tokens`, or `None` where `enc` does not know one of them.
pub fn try_decode(enc: &Encoding, tokens: &[usize]) -> (text: Option<String>)
    ensures
        match text {
            Some(text) => all_known(*enc, tokens@) && is_decoding(*enc, tokens@, text@),
            None => !all_known(*enc, tokens@),
        },
{
    if knows_all(enc, tokens) {
        Some(decode(enc, tokens))
    } else {
        None
    }
}

} // verus!
