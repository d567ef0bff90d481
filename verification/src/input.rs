//! Whole inputs: a text of several numbers, or one number as raw bytes.

use vstd::prelude::*;
use vstd::utf8::*;
use crate::error::{ErrorKind, Failure, ParseError};
use crate::format::Format;
use crate::parser::{numf_parser, numf_parser_str, parse_spec};
use crate::width::Unsigned;
use vstd::slice::slice_to_vec;

verus! {

/// The words of a text: what `str::split_whitespace` yields, in order.
pub uninterp spec fn words_of(text: Seq<char>) -> Seq<Seq<char>>;

/// What parsing each word gives: the numbers in order, or the failure of the
/// first word that does not parse.
pub open spec fn parse_words_spec(words: Seq<Seq<char>>, max: nat) -> Result<Seq<nat>, Failure>
    decreases words.len(),
{
    if words.len() == 0 {
        Ok(Seq::empty())
    } else {
        match parse_words_spec(words.drop_last(), max) {
            Err(e) => Err(e),
            Ok(values) => match parse_spec(encode_utf8(words.last()), max) {
                Ok(v) => Ok(values.push(v)),
                Err(e) => Err(e),
            },
        }
    }
}

/// What a whole input gives: valid UTF-8 is a text of words, each of them a
/// number; anything else is one number as raw bytes.
pub open spec fn parse_input_spec(data: Seq<u8>, max: nat) -> Result<Seq<nat>, Failure> {
    if valid_utf8(data) {
        parse_words_spec(words_of(decode_utf8(data)), max)
    } else {
        match parse_spec(data, max) {
            Ok(v) => Ok(seq![v]),
            Err(e) => Err(e),
        }
    }
}

/// The numbers that values of a width stand for.
pub open spec fn values_of<T: Unsigned>(v: Seq<T>) -> Seq<nat> {
    Seq::new(v.len(), |i: int| v[i].value())
}

/// A list of parsed numbers is the expected one.
pub open spec fn all_agree<T: Unsigned>(
    r: Result<Vec<T>, ParseError>,
    expected: Result<Seq<nat>, Failure>,
) -> bool {
    match r {
        Ok(v) => expected == Ok::<Seq<nat>, Failure>(values_of(v@)),
        Err(e) => expected == Err::<Seq<nat>, Failure>(e@),
    }
}

// The error that `core::str::from_utf8` reports.
#[verifier::external_type_specification]
#[verifier::external_body]
pub struct ExUtf8Error(core::str::Utf8Error);

/// Calls `core::str::from_utf8`, which gives the text that the bytes encode
/// where they are valid UTF-8, and an error where they are not.
#[verifier::external_body]
pub(crate) fn utf8_strict<'a>(data: &'a [u8]) -> (r: Result<&'a str, core::str::Utf8Error>)
    ensures
        r is Ok <==> valid_utf8(data@),
        r is Ok ==> r->Ok_0@ == decode_utf8(data@),
{
    core::str::from_utf8(data)
}

/// Calls `str::split_whitespace` and copies each word that it yields.
#[verifier::external_body]
pub(crate) fn split_words(text: &str) -> (r: Vec<String>)
    ensures
        r@.len() == words_of(text@).len(),
        forall|i: int| 0 <= i < r@.len() ==> (#[trigger] r@[i])@ == words_of(text@)[i],
{
    text.split_whitespace().map(String::from).collect()
}

/// The text that bytes encode, for a caller that takes nothing but valid UTF-8.
pub fn strict_text<'a>(data: &'a [u8]) -> (r: Result<&'a str, ParseError>)
    ensures
        match r {
            Ok(s) => valid_utf8(data@) && s@ == decode_utf8(data@),
            Err(e) => !valid_utf8(data@) && e@ == (Failure {
                kind: ErrorKind::Utf8Decode,
                format: Format::Raw,
                text: data@,
            }),
        },
{
    match utf8_strict(data) {
        Ok(s) => Ok(s),
        Err(_) => Err(ParseError::new(ErrorKind::Utf8Decode, Format::Raw, slice_to_vec(data))),
    }
}

/// Parses each word into a number, and stops at the first that does not parse.
pub fn parse_words<T: Unsigned>(words: &Vec<String>) -> (r: Result<Vec<T>, ParseError>)
    ensures
        all_agree(
            r,
            parse_words_spec(Seq::new(words@.len(), |i: int| words@[i]@), T::max_value()),
        ),
{
    let ghost all = Seq::new(words@.len(), |i: int| words@[i]@);
    let mut out: Vec<T> = Vec::new();
    let mut i: usize = 0;
    assert(values_of(out@) =~= Seq::<nat>::empty());
    while i < words.len()
        invariant
            i <= words.len(),
            all == Seq::new(words@.len(), |i: int| words@[i]@),
            parse_words_spec(all.take(i as int), T::max_value()) == Ok::<Seq<nat>, Failure>(
                values_of(out@),
            ),
        decreases words.len() - i,
    {
        let ghost before = values_of(out@);
        assert(all.take(i + 1).drop_last() =~= all.take(i as int));
        assert(all.take(i + 1).last() == words@[i as int]@);
        match numf_parser_str::<T>(words[i].as_str()) {
            Ok(v) => {
                out.push(v);
                assert(values_of(out@) =~= before.push(v.value()));
            },
            Err(e) => {
                proof {
                    lemma_failure_stays(all, i + 1, T::max_value());
                }
                return Err(e);
            },
        }
        i += 1;
    }
    assert(all.take(i as int) =~= all);
    Ok(out)
}

/// Once the first `k` words have failed, the failure is that of every longer
/// list of words.
proof fn lemma_failure_stays(words: Seq<Seq<char>>, k: int, max: nat)
    requires
        0 <= k <= words.len(),
        parse_words_spec(words.take(k), max) is Err,
    ensures
        parse_words_spec(words, max) == parse_words_spec(words.take(k), max),
    decreases words.len() - k,
{
    if k < words.len() {
        assert(words.take(k + 1).drop_last() =~= words.take(k));
        lemma_failure_stays(words, k + 1, max);
    } else {
        assert(words.take(k) =~= words);
    }
}

/// Parses a whole input: the words of a valid text, each as a number, or else
/// the bytes as one number.
pub fn parse_input<T: Unsigned>(data: &[u8]) -> (r: Result<Vec<T>, ParseError>)
    ensures
        all_agree(r, parse_input_spec(data@, T::max_value())),
{
    match strict_text(data) {
        Ok(text) => {
            let words = split_words(text);
            assert(Seq::new(words@.len(), |i: int| words@[i]@) =~= words_of(text@));
            parse_words(&words)
        },
        Err(_) => match numf_parser::<T>(data) {
            Ok(v) => {
                let out = vec![v];
                assert(values_of(out@) =~= seq![v.value()]);
                Ok(out)
            },
            Err(e) => Err(e),
        },
    }
}

} // verus!
