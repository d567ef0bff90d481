//! A bidirectional numeric codec.
//!
//! An unsigned integer is rendered as decimal, hexadecimal, binary or octal
//! digits, as Base64 or Base32 text, or as raw big-endian bytes, and text or
//! bytes are parsed back into an unsigned integer of a chosen width. The
//! representation of an input is recognised by its literal prefix.
//!
//! * [`format::Format::format`] and [`format::Format::format_str`] encode;
//! * [`format::numf_parser`] and [`format::numf_parser_str`] decode.
//!
//! The modules, from the ground up:
//!
//! * [`radix`]: the digits of a number in a radix, and the numerals they form;
//! * [`bytes`]: numbers as big-endian byte strings;
//! * [`base`]: Base64 and Base32 text;
//! * [`text`]: the textual view of bytes;
//! * [`width`]: the integer widths that can be parsed into;
//! * [`error`]: parse failures;
//! * [`format`] and [`options`]: the encoder and what it is asked to do;
//! * [`parser`] and [`input`]: the decoder, for one number and for many.

pub mod base;
pub mod bytes;
pub mod error;
pub mod format;
pub mod input;
pub mod options;
pub mod parser;
pub mod radix;
mod random;
pub mod text;
pub mod width;
