//! The decoder: it finds the format of an input by its prefix and parses the
//! rest into an unsigned integer.

use vstd::prelude::*;
use vstd::slice::{slice_subrange, slice_to_vec};
use vstd::utf8::*;
use crate::base::{base32_bytes, base32_decode, base64_bytes, base64_decode};
use crate::bytes::{join, join_spec};
use crate::error::{ErrorKind, Failure, ParseError};
use crate::format::Format;
use crate::radix::{parse_radix, parse_radix_spec};
use crate::text::{has_prefix, starts_with, strip_underscores, text_bytes, to_text, without_underscores};
use crate::width::Unsigned;

verus! {

/// The format that a text without underscores is taken for, in this order:
/// decimal where it has the decimal prefix or is a plain decimal numeral of at
/// most `max`; then hexadecimal, octal, binary, Base64 and Base32 by their
/// prefixes; raw data where nothing matched.
pub open spec fn detect(t: Seq<u8>, max: nat) -> Format {
    if has_prefix(t, Format::Dec.prefix_spec()) || parse_radix_spec(t, 10, max) is Ok {
        Format::Dec
    } else if has_prefix(t, Format::Hex.prefix_spec()) {
        Format::Hex
    } else if has_prefix(t, Format::Octal.prefix_spec()) {
        Format::Octal
    } else if has_prefix(t, Format::Bin.prefix_spec()) {
        Format::Bin
    } else if has_prefix(t, Format::Base64.prefix_spec()) {
        Format::Base64
    } else if has_prefix(t, Format::Base32.prefix_spec()) {
        Format::Base32
    } else {
        Format::Raw
    }
}

/// The text after the prefix of the format, and the whole text where it does
/// not begin with that prefix.
pub open spec fn body_of(t: Seq<u8>, f: Format) -> Seq<u8> {
    if has_prefix(t, f.prefix_spec()) {
        t.skip(f.prefix_spec().len() as int)
    } else {
        t
    }
}

/// What the digits `b` of a positional format parse to.
pub open spec fn radix_result(f: Format, b: Seq<u8>, max: nat) -> Result<nat, Failure> {
    match parse_radix_spec(b, f.radix_spec(), max) {
        Ok(v) => Ok(v),
        Err(kind) => Err(Failure { kind, format: f, text: b }),
    }
}

/// What the decoder of a format makes of the text `b`.
pub open spec fn decoding(f: Format, b: Seq<u8>) -> Option<Seq<u8>> {
    if f == Format::Base32 {
        base32_bytes(b)
    } else {
        base64_bytes(b)
    }
}

/// What decoded bytes give: text that did not decode is a radix error, and
/// bytes that do not join into a number of at most `max` are an overflow.
pub open spec fn decoded_result(f: Format, decoded: Option<Seq<u8>>, b: Seq<u8>, max: nat) -> Result<
    nat,
    Failure,
> {
    match decoded {
        None => Err(Failure { kind: ErrorKind::RadixParse, format: f, text: b }),
        Some(bytes) => match join_spec(bytes, max) {
            Some(v) => Ok(v),
            None => Err(Failure { kind: ErrorKind::Overflow, format: f, text: b }),
        },
    }
}

/// Raw data without its sentinel: one leading zero byte is dropped from data
/// of more than two bytes.
pub open spec fn raw_payload(data: Seq<u8>) -> Seq<u8> {
    if data.len() > 2 && data[0] == 0 {
        data.skip(1)
    } else {
        data
    }
}

/// What raw data parses to: nothing can be made of empty data, and data that
/// does not join into a number of at most `max` is an overflow.
pub open spec fn raw_result(data: Seq<u8>, max: nat) -> Result<nat, Failure> {
    if data.len() == 0 {
        Err(Failure { kind: ErrorKind::UnrecognizedFormat, format: Format::Raw, text: data })
    } else {
        match join_spec(raw_payload(data), max) {
            Some(v) => Ok(v),
            None => Err(Failure { kind: ErrorKind::Overflow, format: Format::Raw, text: data }),
        }
    }
}

/// What a text without underscores parses to; `data` is the input as it came,
/// which is what the raw fallback reads.
pub open spec fn parse_text_spec(t: Seq<u8>, data: Seq<u8>, max: nat) -> Result<nat, Failure> {
    let f = detect(t, max);
    let b = body_of(t, f);
    match f {
        Format::Raw => raw_result(data, max),
        Format::Base64 | Format::Base32 => decoded_result(f, decoding(f, b), b, max),
        _ => radix_result(f, b, max),
    }
}

/// What an input parses to, for numbers up to `max`.
pub open spec fn parse_spec(data: Seq<u8>, max: nat) -> Result<nat, Failure> {
    parse_text_spec(strip_underscores(text_bytes(data)), data, max)
}

/// A result of the parser is the expected one.
pub open spec fn agrees<T: Unsigned>(r: Result<T, ParseError>, expected: Result<nat, Failure>) -> bool {
    match r {
        Ok(v) => expected == Ok::<nat, Failure>(v.value()),
        Err(e) => expected == Err::<nat, Failure>(e@),
    }
}

/// Whatever parses, parses to a number of at most `max`.
pub proof fn lemma_parsed_fits(data: Seq<u8>, max: nat)
    ensures
        parse_spec(data, max) is Ok ==> parse_spec(data, max)->Ok_0 <= max,
{
}

/// Underscores are ignored: two valid texts that differ only in underscores
/// parse alike, unless they are taken for raw data, which is read as it came.
pub proof fn lemma_underscores_ignored(a: Seq<u8>, b: Seq<u8>, max: nat)
    requires
        valid_utf8(a),
        valid_utf8(b),
        strip_underscores(a) == strip_underscores(b),
        detect(strip_underscores(a), max) != Format::Raw,
    ensures
        parse_spec(a, max) == parse_spec(b, max),
{
}

/// Finds the format of a text without underscores.
pub fn detect_format(t: &[u8], max: u128) -> (f: Format)
    ensures
        f == detect(t@, max as nat),
{
    let plain = match parse_radix(t, 10, max) {
        Ok(_) => true,
        Err(_) => false,
    };
    if plain || starts_with(t, Format::Dec.prefix().as_slice()) {
        Format::Dec
    } else if starts_with(t, Format::Hex.prefix().as_slice()) {
        Format::Hex
    } else if starts_with(t, Format::Octal.prefix().as_slice()) {
        Format::Octal
    } else if starts_with(t, Format::Bin.prefix().as_slice()) {
        Format::Bin
    } else if starts_with(t, Format::Base64.prefix().as_slice()) {
        Format::Base64
    } else if starts_with(t, Format::Base32.prefix().as_slice()) {
        Format::Base32
    } else {
        Format::Raw
    }
}

/// The text after the prefix of the format.
pub fn strip_prefix<'a>(t: &'a [u8], f: Format) -> (b: &'a [u8])
    ensures
        b@ == body_of(t@, f),
{
    let p = f.prefix();
    if starts_with(t, p.as_slice()) {
        slice_subrange(t, p.len(), t.len())
    } else {
        t
    }
}

/// Parses the digits of a positional format.
pub fn parse_digits<T: Unsigned>(f: Format, b: &[u8]) -> (r: Result<T, ParseError>)
    requires
        f.is_positional(),
    ensures
        agrees(r, radix_result(f, b@, T::max_value())),
{
    match parse_radix(b, f.radix(), T::max()) {
        Ok(v) => Ok(T::narrow(v)),
        Err(kind) => Err(ParseError::new(kind, f, slice_to_vec(b))),
    }
}

/// Joins what a decoder made of the text `b` into a number.
pub fn parse_decoded<T: Unsigned>(f: Format, decoded: Option<Vec<u8>>, b: &[u8]) -> (r: Result<
    T,
    ParseError,
>)
    ensures
        agrees(
            r,
            decoded_result(
                f,
                match decoded {
                    Some(bytes) => Some(bytes@),
                    None => None,
                },
                b@,
                T::max_value(),
            ),
        ),
{
    match decoded {
        None => Err(ParseError::new(ErrorKind::RadixParse, f, slice_to_vec(b))),
        Some(bytes) => match join(bytes.as_slice(), T::max()) {
            Some(v) => Ok(T::narrow(v)),
            None => Err(ParseError::new(ErrorKind::Overflow, f, slice_to_vec(b))),
        },
    }
}

/// Parses raw data: big-endian bytes, after one leading zero byte where there
/// are more than two bytes.
pub fn parse_raw<T: Unsigned>(data: &[u8]) -> (r: Result<T, ParseError>)
    ensures
        agrees(r, raw_result(data@, T::max_value())),
{
    if data.len() == 0 {
        return Err(ParseError::new(ErrorKind::UnrecognizedFormat, Format::Raw, slice_to_vec(data)));
    }
    let payload = if data.len() > 2 && data[0] == 0 {
        slice_subrange(data, 1, data.len())
    } else {
        data
    };
    match join(payload, T::max()) {
        Some(v) => Ok(T::narrow(v)),
        None => Err(ParseError::new(ErrorKind::Overflow, Format::Raw, slice_to_vec(data))),
    }
}

/// Parses the textual view `text` of the input `data`: underscores are
/// dropped from the text, its format is found, and the rest is parsed; where
/// no text format matches, `data` is read as raw bytes.
pub fn parse_text<T: Unsigned>(text: &[u8], data: &[u8]) -> (r: Result<T, ParseError>)
    ensures
        agrees(r, parse_text_spec(strip_underscores(text@), data@, T::max_value())),
{
    let t = without_underscores(text);
    let f = detect_format(t.as_slice(), T::max());
    let b = strip_prefix(t.as_slice(), f);
    match f {
        Format::Raw => parse_raw(data),
        Format::Base64 => {
            let decoded = match base64_decode(b) {
                Ok(bytes) => Some(bytes),
                Err(_) => None,
            };
            parse_decoded(f, decoded, b)
        },
        Format::Base32 => {
            let decoded = match base32_decode(b) {
                Ok(bytes) => Some(bytes),
                Err(_) => None,
            };
            parse_decoded(f, decoded, b)
        },
        _ => parse_digits(f, b),
    }
}

/// Parses bytes into an unsigned integer.
///
/// The bytes are first read as text, and underscores are ignored. A text with
/// the prefix of a format is parsed as that format, and a plain decimal
/// numeral as decimal. Anything else is taken for raw big-endian bytes.
pub fn numf_parser<T: Unsigned>(data: &[u8]) -> (r: Result<T, ParseError>)
    ensures
        agrees(r, parse_spec(data@, T::max_value())),
{
    let text = to_text(data);
    parse_text(text.as_str().as_bytes(), data)
}

/// Parses text into an unsigned integer, as [`numf_parser`] parses its bytes.
pub fn numf_parser_str<T: Unsigned>(s: &str) -> (r: Result<T, ParseError>)
    ensures
        agrees(r, parse_spec(encode_utf8(s@), T::max_value())),
{
    numf_parser(s.as_bytes())
}

} // verus!
