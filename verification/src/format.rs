//! The formats, their prefixes and the encoder.

use vstd::prelude::*;
use crate::base::{base32_encode, base32_text, base64_encode, base64_text, is_code_text};
use crate::bytes::{be_bytes, lemma_be_bytes_fit, to_bytes};
use crate::error::{ErrorKind, Failure};
pub use crate::options::{FormatFlags, FormatOptions, OptionsView};
pub use crate::parser::{numf_parser, numf_parser_str};
use crate::parser::{body_of, decoding, detect, parse_spec};
use crate::radix::{
    all_digits, digit_value, digits, lemma_digits_wellformed, lemma_leading_zeros,
    lemma_padded_len, lemma_parse_digits, padded, parse_radix_spec, to_digits, to_padded_digits,
    unsigned_body,
};
use crate::text::{
    ascii_chars, has_prefix, is_ascii_bytes, lemma_ascii_text, lemma_strip_nothing,
    strip_underscores, text_bytes, text_of, to_text, UNDERSCORE,
};

verus! {

/// The number type of the encoder.
pub type NumberType = u128;

/// A representation of an unsigned integer.
#[derive(Copy, Clone, Debug, Hash, PartialEq, Eq, Structural)]
pub enum Format {
    Dec,
    Hex,
    Bin,
    Octal,
    Base64,
    Base32,
    /// Raw big-endian bytes, no text.
    Raw,
}

impl Default for Format {
    /// Hexadecimal is the format chosen when none is asked for.
    fn default() -> (r: Self)
        ensures
            r == Format::Hex,
    {
        Format::Hex
    }
}

impl Format {
    /// The literal marker of each format: `0d`, `0x`, `0b`, `0o`, `0s`, `032s`,
    /// and a single zero byte for raw data.
    pub open spec fn prefix_spec(self) -> Seq<u8> {
        match self {
            Format::Dec => seq![0x30u8, 0x64u8],
            Format::Hex => seq![0x30u8, 0x78u8],
            Format::Bin => seq![0x30u8, 0x62u8],
            Format::Octal => seq![0x30u8, 0x6fu8],
            Format::Base64 => seq![0x30u8, 0x73u8],
            Format::Base32 => seq![0x30u8, 0x33u8, 0x32u8, 0x73u8],
            Format::Raw => seq![0u8],
        }
    }

    /// The radix of a positional format, and zero for the others.
    pub open spec fn radix_spec(self) -> nat {
        match self {
            Format::Dec => 10,
            Format::Hex => 16,
            Format::Octal => 8,
            Format::Bin => 2,
            _ => 0,
        }
    }

    /// The format writes a number as digits of a radix.
    pub open spec fn is_positional(self) -> bool {
        self.radix_spec() != 0
    }

    /// The radix of a positional format, and zero for the others.
    pub fn radix(&self) -> (r: u32)
        ensures
            r == self.radix_spec(),
    {
        match self {
            Format::Dec => 10,
            Format::Hex => 16,
            Format::Octal => 8,
            Format::Bin => 2,
            _ => 0,
        }
    }

    /// The prefix that marks this format, as bytes.
    pub fn prefix(&self) -> (r: Vec<u8>)
        ensures
            r@ == self.prefix_spec(),
    {
        let r = match self {
            Format::Dec => vec![0x30u8, 0x64u8],
            Format::Hex => vec![0x30u8, 0x78u8],
            Format::Bin => vec![0x30u8, 0x62u8],
            Format::Octal => vec![0x30u8, 0x6fu8],
            Format::Base64 => vec![0x30u8, 0x73u8],
            Format::Base32 => vec![0x30u8, 0x33u8, 0x32u8, 0x73u8],
            Format::Raw => vec![0u8],
        };
        assert(r@ =~= self.prefix_spec());
        r
    }

    /// The format encodes the bytes of a number as Base64 or Base32 text.
    pub open spec fn is_coded(self) -> bool {
        self == Format::Base64 || self == Format::Base32
    }

    /// What stands for a number after the prefix: its digits, padded with
    /// zeros to whole bytes where hexadecimal or binary padding is asked for;
    /// the encoded text of its shortest big-endian bytes; or those bytes.
    pub open spec fn body_spec(self, num: nat, padding: bool) -> Seq<u8> {
        match self {
            Format::Dec => digits(num, 10),
            Format::Hex => if padding {
                padded(digits(num, 16), 2)
            } else {
                digits(num, 16)
            },
            Format::Bin => if padding {
                padded(digits(num, 2), 8)
            } else {
                digits(num, 2)
            },
            Format::Octal => digits(num, 8),
            Format::Base64 => base64_text(be_bytes(num)),
            Format::Base32 => base32_text(be_bytes(num)),
            Format::Raw => be_bytes(num),
        }
    }

    /// The encoding of a number: the prefix where it is asked for, then the body.
    pub open spec fn format_spec(self, num: nat, prefix: bool, padding: bool) -> Seq<u8> {
        if prefix {
            self.prefix_spec() + self.body_spec(num, padding)
        } else {
            self.body_spec(num, padding)
        }
    }

    /// The prefix that marks this format, as text: one character for each byte.
    pub fn prefix_str(&self) -> (r: String)
        ensures
            r@ == ascii_chars(self.prefix_spec()),
    {
        proof {
            lemma_ascii_text(self.prefix_spec());
        }
        to_text(self.prefix().as_slice())
    }

    /// The name of the format.
    pub open spec fn name_spec(self) -> Seq<char> {
        match self {
            Format::Dec => "Dec"@,
            Format::Hex => "Hex"@,
            Format::Bin => "Bin"@,
            Format::Octal => "Octal"@,
            Format::Base64 => "Base64"@,
            Format::Base32 => "Base32"@,
            Format::Raw => "Raw"@,
        }
    }

    /// The name of the format, as it is shown to a reader.
    pub fn name(&self) -> (r: &'static str)
        ensures
            r@ == self.name_spec(),
    {
        match self {
            Format::Dec => "Dec",
            Format::Hex => "Hex",
            Format::Bin => "Bin",
            Format::Octal => "Octal",
            Format::Base64 => "Base64",
            Format::Base32 => "Base32",
            Format::Raw => "Raw",
        }
    }

    /// Encodes a number without the prefix of the format.
    pub fn format_body(&self, num: NumberType, padding: bool) -> (r: Vec<u8>)
        ensures
            r@ == self.body_spec(num as nat, padding),
            self.is_coded() ==> is_code_text(r@) && decoding(*self, r@) == Some(
                be_bytes(num as nat),
            ),
    {
        match self {
            Format::Dec => to_digits(num, 10),
            Format::Hex => if padding {
                to_padded_digits(num, 16, 2)
            } else {
                to_digits(num, 16)
            },
            Format::Bin => if padding {
                to_padded_digits(num, 2, 8)
            } else {
                to_digits(num, 2)
            },
            Format::Octal => to_digits(num, 8),
            Format::Base64 => base64_encode(to_bytes(num).as_slice()),
            Format::Base32 => base32_encode(to_bytes(num).as_slice()),
            Format::Raw => to_bytes(num),
        }
    }

    /// Encodes a number as bytes: the prefix of the format where the options
    /// ask for it, then the number in the format.
    ///
    /// The output of every format but the raw one is ASCII text, and with its
    /// prefix it parses back to the number.
    pub fn format(&self, num: NumberType, options: &FormatOptions) -> (r: Vec<u8>)
        ensures
            r@ == self.format_spec(num as nat, options@.prefix, options@.padding),
            *self != Format::Raw ==> is_ascii_bytes(r@),
            *self != Format::Raw && options@.prefix ==> parses_back(r@, num as nat),
    {
        let mut buf: Vec<u8> = Vec::new();
        if options.prefix() {
            let mut p = self.prefix();
            buf.append(&mut p);
        }
        let mut body = self.format_body(num, options.padding());
        proof {
            if self.is_positional() {
                lemma_positional_body(*self, num as nat, options@.padding);
            }
            if *self != Format::Raw && options@.prefix {
                assert forall|max: nat| num as nat <= max implies #[trigger] parse_spec(
                    self.prefix_spec() + body@,
                    max,
                ) == Ok::<nat, Failure>(num as nat) by {
                    if self.is_positional() {
                        lemma_round_trip_positional(*self, num as nat, options@.padding, max);
                    } else {
                        lemma_round_trip_coded(*self, num as nat, body@, max);
                    }
                }
            }
        }
        buf.append(&mut body);
        assert(buf@ =~= self.format_spec(num as nat, options@.prefix, options@.padding));
        buf
    }

    /// Encodes a number as text. What the raw format gives need not be valid
    /// UTF-8; what is invalid in it is replaced, as by `String::from_utf8_lossy`.
    pub fn format_str(&self, num: NumberType, options: &FormatOptions) -> (r: String)
        ensures
            r@ == text_of(self.format_spec(num as nat, options@.prefix, options@.padding)),
            *self != Format::Raw ==> r@ == ascii_chars(
                self.format_spec(num as nat, options@.prefix, options@.padding),
            ),
    {
        let bytes = self.format(num, options);
        proof {
            if *self != Format::Raw {
                lemma_ascii_text(bytes@);
            }
        }
        to_text(bytes.as_slice())
    }
}

/// Parsing `out` gives `num`, in every width that holds `num`.
pub open spec fn parses_back(out: Seq<u8>, num: nat) -> bool {
    forall|max: nat| num <= max ==> #[trigger] parse_spec(out, max) == Ok::<nat, Failure>(num)
}

/// Text that the parser reads as it stands: ASCII without underscores.
pub open spec fn is_plain_text(s: Seq<u8>) -> bool {
    forall|i: int| 0 <= i < s.len() ==> #[trigger] s[i] < 0x80 && s[i] != UNDERSCORE
}

/// The body of a positional format is made of digits of its radix, which are
/// plain text.
pub proof fn lemma_positional_body(f: Format, num: nat, padding: bool)
    requires
        f.is_positional(),
    ensures
        f.body_spec(num, padding).len() > 0,
        all_digits(f.body_spec(num, padding), f.radix_spec()),
        is_plain_text(f.body_spec(num, padding)),
{
    let radix = f.radix_spec();
    let d = digits(num, radix);
    let b = f.body_spec(num, padding);
    lemma_digits_wellformed(num, radix);
    if b != d {
        let unit: nat = if f == Format::Hex {
            2
        } else {
            8
        };
        lemma_leading_zeros(((unit - d.len() % unit) % (unit as int)) as nat, d, radix);
        lemma_padded_len(d, unit);
    }
    assert forall|i: int| 0 <= i < b.len() implies #[trigger] b[i] < 0x80 && b[i]
        != UNDERSCORE by {
        let c = b[i];
        assert(digit_value(c) < 36);
    }
}

/// The body of a positional format parses to the number it was made from.
pub proof fn lemma_positional_parse(f: Format, num: nat, padding: bool, max: nat)
    requires
        f.is_positional(),
        num <= max,
    ensures
        parse_radix_spec(f.body_spec(num, padding), f.radix_spec(), max) == Ok::<nat, ErrorKind>(
            num,
        ),
{
    let unit: nat = if f == Format::Hex {
        2
    } else {
        8
    };
    lemma_parse_digits(num, f.radix_spec(), unit, max);
}

/// Plain text behind the prefix of a text format is read as it stands, taken
/// for that format, and split into that prefix and the text.
pub proof fn lemma_prefixed(f: Format, body: Seq<u8>, max: nat)
    requires
        f != Format::Raw,
        is_plain_text(body),
    ensures
        is_ascii_bytes(f.prefix_spec() + body),
        text_bytes(f.prefix_spec() + body) == f.prefix_spec() + body,
        strip_underscores(f.prefix_spec() + body) == f.prefix_spec() + body,
        detect(f.prefix_spec() + body, max) == f,
        body_of(f.prefix_spec() + body, f) == body,
{
    let p = f.prefix_spec();
    let out = p + body;
    assert forall|i: int| 0 <= i < out.len() implies #[trigger] out[i] < 0x80 && out[i]
        != UNDERSCORE by {
        if i >= p.len() {
            assert(out[i] == body[i - p.len()]);
        }
    }
    lemma_ascii_text(out);
    lemma_strip_nothing(out);
    assert(out.take(p.len() as int) =~= p);
    assert(out.skip(p.len() as int) =~= body);
    assert(has_prefix(out, p));
    if f != Format::Dec {
        let mark: int = if f == Format::Base32 {
            3
        } else {
            1
        };
        assert(out[mark] == p[mark]);
        assert(out[0] == p[0]);
        assert(out[1] == p[1]);
        assert(digit_value(out[mark]) >= 10);
        assert(unsigned_body(out) == out);
        assert(!all_digits(out, 10));
        lemma_other_prefixes(f, out);
    }
}

/// A text that begins like the prefix of one text format does not begin with
/// the prefix of another.
proof fn lemma_other_prefixes(f: Format, out: Seq<u8>)
    requires
        f != Format::Raw,
        out.len() >= f.prefix_spec().len(),
        out[0] == f.prefix_spec()[0],
        out[1] == f.prefix_spec()[1],
    ensures
        forall|g: Format|
            g != f && g != Format::Raw ==> !has_prefix(out, #[trigger] g.prefix_spec()),
{
    assert forall|g: Format| g != f && g != Format::Raw implies !has_prefix(
        out,
        #[trigger] g.prefix_spec(),
    ) by {
        let q = g.prefix_spec();
        if q.len() <= out.len() {
            assert(out.take(q.len() as int)[1] == out[1]);
            assert(q[1] != f.prefix_spec()[1]);
        }
    }
}

/// Round trip for encoded text: where the decoder of a format gives the bytes
/// of a number back from a text, the text behind the prefix of the format
/// parses to the number.
proof fn lemma_round_trip_coded(f: Format, num: nat, text: Seq<u8>, max: nat)
    requires
        f.is_coded(),
        num <= max,
        num <= u128::MAX,
        is_code_text(text),
        decoding(f, text) == Some(be_bytes(num)),
    ensures
        parse_spec(f.prefix_spec() + text, max) == Ok::<nat, Failure>(num),
{
    assert(is_plain_text(text));
    lemma_prefixed(f, text, max);
    lemma_be_bytes_fit(num);
}

/// Round trip: a number encoded in a positional format with its prefix, padded
/// or not, parses back to the number in every width that holds it.
pub proof fn lemma_round_trip_positional(f: Format, num: nat, padding: bool, max: nat)
    requires
        f.is_positional(),
        num <= max,
    ensures
        parse_spec(f.format_spec(num, true, padding), max) == Ok::<nat, Failure>(num),
{
    lemma_positional_body(f, num, padding);
    lemma_positional_parse(f, num, padding, max);
    lemma_prefixed(f, f.body_spec(num, padding), max);
}

/// Padding: padded hexadecimal digits come in pairs and padded binary digits
/// in groups of eight, both still writing the number; in every other format
/// padding changes nothing.
pub proof fn lemma_padding(f: Format, num: nat, prefix: bool)
    ensures
        Format::Hex.body_spec(num, true).len() % 2 == 0,
        Format::Bin.body_spec(num, true).len() % 8 == 0,
        f != Format::Hex && f != Format::Bin ==> f.format_spec(num, prefix, true) == f.format_spec(
            num,
            prefix,
            false,
        ),
{
    lemma_padded_len(digits(num, 16), 2);
    lemma_padded_len(digits(num, 2), 8);
}

/// No prefix of a format is the beginning of the prefix of another format.
pub proof fn lemma_prefixes_distinct(f: Format, g: Format)
    requires
        f != g,
    ensures
        !has_prefix(g.prefix_spec(), f.prefix_spec()),
{
    let p = f.prefix_spec();
    let q = g.prefix_spec();
    if p.len() <= q.len() {
        if f == Format::Raw {
            assert(q.take(p.len() as int)[0] == q[0]);
        } else {
            assert(q.take(p.len() as int)[1] == q[1]);
        }
    }
}

} // verus!
