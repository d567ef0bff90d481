//! What the encoder is asked to do, and the encoding of a whole list of numbers.

use vstd::prelude::*;
use crate::format::{Format, NumberType};
use crate::random::random_below;

verus! {

/// Which formats were asked for, one flag for each.
#[derive(Copy, Clone, Debug, Hash, PartialEq, Eq, Structural)]
pub struct FormatFlags {
    pub hex: bool,
    pub bin: bool,
    pub dec: bool,
    pub oct: bool,
    pub base64: bool,
    pub base32: bool,
    pub raw: bool,
}

impl FormatFlags {
    /// The format that the flags select: the first that is set, in the order
    /// octal, binary, decimal, Base64, Base32, hexadecimal, raw; hexadecimal
    /// where none is set.
    pub open spec fn selected(self) -> Format {
        if self.oct {
            Format::Octal
        } else if self.bin {
            Format::Bin
        } else if self.dec {
            Format::Dec
        } else if self.base64 {
            Format::Base64
        } else if self.base32 {
            Format::Base32
        } else if self.hex {
            Format::Hex
        } else if self.raw {
            Format::Raw
        } else {
            Format::Hex
        }
    }

    /// No flag set.
    pub open spec fn none_spec() -> FormatFlags {
        FormatFlags {
            hex: false,
            bin: false,
            dec: false,
            oct: false,
            base64: false,
            base32: false,
            raw: false,
        }
    }

    /// The flags with only that of `format` set.
    pub open spec fn only_spec(format: Format) -> FormatFlags {
        FormatFlags {
            hex: format == Format::Hex,
            bin: format == Format::Bin,
            dec: format == Format::Dec,
            oct: format == Format::Octal,
            base64: format == Format::Base64,
            base32: format == Format::Base32,
            raw: format == Format::Raw,
        }
    }

    /// No flag set, which selects hexadecimal.
    pub fn none() -> (r: Self)
        ensures
            r == Self::none_spec(),
            r.selected() == Format::Hex,
    {
        FormatFlags {
            hex: false,
            bin: false,
            dec: false,
            oct: false,
            base64: false,
            base32: false,
            raw: false,
        }
    }

    /// The flags with only that of `format` set, which select `format`.
    pub fn only(format: Format) -> (r: Self)
        ensures
            r == Self::only_spec(format),
            r.selected() == format,
    {
        let mut r = Self::none();
        match format {
            Format::Bin => r.bin = true,
            Format::Raw => r.raw = true,
            Format::Hex => r.hex = true,
            Format::Octal => r.oct = true,
            Format::Base64 => r.base64 = true,
            Format::Base32 => r.base32 = true,
            Format::Dec => r.dec = true,
        }
        r
    }

    /// The format that the flags select.
    pub fn format(&self) -> (f: Format)
        ensures
            f == self.selected(),
    {
        if self.oct {
            Format::Octal
        } else if self.bin {
            Format::Bin
        } else if self.dec {
            Format::Dec
        } else if self.base64 {
            Format::Base64
        } else if self.base32 {
            Format::Base32
        } else if self.hex {
            Format::Hex
        } else if self.raw {
            Format::Raw
        } else {
            Format::default()
        }
    }
}

/// What ends the encoding of one number in a list: a line feed, and nothing
/// behind raw bytes.
pub open spec fn terminator(f: Format) -> Seq<u8> {
    if f == Format::Raw {
        Seq::empty()
    } else {
        seq![0x0au8]
    }
}

/// The encodings of the numbers in order, each with its terminator.
pub open spec fn output_spec(f: Format, numbers: Seq<NumberType>, prefix: bool, padding: bool) -> Seq<
    u8,
>
    decreases numbers.len(),
{
    if numbers.len() == 0 {
        Seq::empty()
    } else {
        output_spec(f, numbers.drop_last(), prefix, padding) + f.format_spec(
            numbers.last() as nat,
            prefix,
            padding,
        ) + terminator(f)
    }
}

/// The mathematical content of [`FormatOptions`].
pub ghost struct OptionsView {
    pub prefix: bool,
    pub padding: bool,
    pub flags: FormatFlags,
    pub rand: NumberType,
    pub rand_max: NumberType,
    pub numbers: Seq<NumberType>,
}

/// What the encoder is asked to do: with or without prefix and padding, in
/// which format, for which numbers, and how many random numbers to add to them.
#[derive(Debug, Clone, PartialEq, Eq, Hash)]
pub struct FormatOptions {
    prefix: bool,
    padding: bool,
    flags: FormatFlags,
    rand: NumberType,
    rand_max: NumberType,
    numbers: Vec<NumberType>,
}

impl View for FormatOptions {
    type V = OptionsView;

    closed spec fn view(&self) -> OptionsView {
        OptionsView {
            prefix: self.prefix,
            padding: self.padding,
            flags: self.flags,
            rand: self.rand,
            rand_max: self.rand_max,
            numbers: self.numbers@,
        }
    }
}

impl Default for FormatOptions {
    /// No prefix, no padding, no format chosen, no numbers, no random numbers,
    /// and the largest number as their bound.
    fn default() -> (r: Self)
        ensures
            r@ == (OptionsView {
                prefix: false,
                padding: false,
                flags: FormatFlags::none_spec(),
                rand: 0,
                rand_max: NumberType::MAX,
                numbers: Seq::empty(),
            }),
    {
        FormatOptions {
            prefix: false,
            padding: false,
            flags: FormatFlags::none(),
            rand: 0,
            rand_max: NumberType::MAX,
            numbers: Vec::new(),
        }
    }
}

impl FormatOptions {
    /// Options made of their parts.
    pub fn new(
        prefix: bool,
        padding: bool,
        flags: FormatFlags,
        rand: NumberType,
        rand_max: NumberType,
        numbers: Vec<NumberType>,
    ) -> (r: Self)
        ensures
            r@ == (OptionsView { prefix, padding, flags, rand, rand_max, numbers: numbers@ }),
    {
        FormatOptions { prefix, padding, flags, rand, rand_max, numbers }
    }

    /// The format that was chosen, and hexadecimal where none was.
    pub fn format(&self) -> (f: Format)
        ensures
            f == self@.flags.selected(),
    {
        self.flags.format()
    }

    /// Chooses `format` and no other.
    pub fn set_format(&mut self, format: Format)
        ensures
            final(self)@ == (OptionsView { flags: FormatFlags::only_spec(format), ..old(self)@ }),
            final(self)@.flags.selected() == format,
    {
        self.flags = FormatFlags::only(format);
    }

    /// The numbers to encode.
    pub fn numbers(&self) -> (r: &[NumberType])
        ensures
            r@ == self@.numbers,
    {
        self.numbers.as_slice()
    }

    /// Replaces the numbers to encode.
    pub fn set_numbers(&mut self, numbers: Vec<NumberType>)
        ensures
            final(self)@ == (OptionsView { numbers: numbers@, ..old(self)@ }),
    {
        self.numbers = numbers;
    }

    /// Asks for padding, or not.
    pub fn set_padding(&mut self, value: bool)
        ensures
            final(self)@ == (OptionsView { padding: value, ..old(self)@ }),
    {
        self.padding = value
    }

    /// Whether hexadecimal and binary digits are padded to whole bytes.
    pub fn padding(&self) -> (r: bool)
        ensures
            r == self@.padding,
    {
        self.padding
    }

    /// Whether the prefix of the format stands before the number.
    pub fn prefix(&self) -> (r: bool)
        ensures
            r == self@.prefix,
    {
        self.prefix
    }

    /// Asks for the prefix, or not.
    pub fn set_prefix(&mut self, value: bool)
        ensures
            final(self)@ == (OptionsView { prefix: value, ..old(self)@ }),
    {
        self.prefix = value;
    }

    /// Adds a number after those to encode.
    pub fn push_number(&mut self, value: NumberType)
        ensures
            final(self)@ == (OptionsView {
                numbers: old(self)@.numbers.push(value),
                ..old(self)@
            }),
    {
        self.numbers.push(value)
    }

    /// How many random numbers are to be added.
    pub fn rand(&self) -> (r: NumberType)
        ensures
            r == self@.rand,
    {
        self.rand
    }

    /// Sets how many random numbers are to be added.
    pub fn set_rand(&mut self, rand: NumberType)
        ensures
            final(self)@ == (OptionsView { rand, ..old(self)@ }),
    {
        self.rand = rand;
    }

    /// The bound below which the random numbers are drawn.
    pub fn rand_max(&self) -> (r: NumberType)
        ensures
            r == self@.rand_max,
    {
        self.rand_max
    }

    /// Sets the bound below which the random numbers are drawn.
    pub fn set_rand_max(&mut self, rand_max: NumberType)
        ensures
            final(self)@ == (OptionsView { rand_max, ..old(self)@ }),
    {
        self.rand_max = rand_max;
    }

    /// Adds as many random numbers as were asked for, each below the bound,
    /// after the numbers to encode.
    pub fn add_random_numbers(&mut self)
        requires
            old(self)@.rand > 0 ==> old(self)@.rand_max > 0,
        ensures
            final(self)@ == (OptionsView { numbers: final(self)@.numbers, ..old(self)@ }),
            final(self)@.numbers.len() == old(self)@.numbers.len() + old(self)@.rand,
            final(self)@.numbers.take(old(self)@.numbers.len() as int) == old(self)@.numbers,
            forall|i: int|
                old(self)@.numbers.len() <= i < final(self)@.numbers.len() ==> (
                #[trigger] final(self)@.numbers[i]) < old(self)@.rand_max,
    {
        let mut i: NumberType = 0;
        assert(self@.numbers.take(old(self)@.numbers.len() as int) =~= old(self)@.numbers);
        while i < self.rand
            invariant
                i <= self.rand,
                self.rand > 0 ==> self.rand_max > 0,
                self@ == (OptionsView { numbers: self@.numbers, ..old(self)@ }),
                self@.numbers.len() == old(self)@.numbers.len() + i,
                self@.numbers.take(old(self)@.numbers.len() as int) == old(self)@.numbers,
                forall|j: int|
                    old(self)@.numbers.len() <= j < self@.numbers.len() ==> (
                    #[trigger] self@.numbers[j]) < self.rand_max,
            decreases self.rand - i,
        {
            let ghost before = self@.numbers;
            let value = random_below(self.rand_max);
            self.numbers.push(value);
            assert(self@.numbers.take(old(self)@.numbers.len() as int) =~= before.take(
                old(self)@.numbers.len() as int,
            ));
            i += 1;
        }
    }

    /// Encodes every number in the chosen format, one after the other, each
    /// followed by a line feed unless the format is the raw one.
    pub fn output(&self) -> (r: Vec<u8>)
        ensures
            r@ == output_spec(
                self@.flags.selected(),
                self@.numbers,
                self@.prefix,
                self@.padding,
            ),
    {
        let format = self.format();
        let mut out: Vec<u8> = Vec::new();
        let mut i: usize = 0;
        assert(self@.numbers.take(0) =~= Seq::<NumberType>::empty());
        while i < self.numbers.len()
            invariant
                i <= self.numbers.len(),
                format == self@.flags.selected(),
                out@ == output_spec(
                    format,
                    self@.numbers.take(i as int),
                    self@.prefix,
                    self@.padding,
                ),
            decreases self.numbers.len() - i,
        {
            assert(self@.numbers.take(i + 1).drop_last() =~= self@.numbers.take(i as int));
            let mut one = format.format(self.numbers[i], self);
            out.append(&mut one);
            if format != Format::Raw {
                out.push(0x0a);
            }
            assert(out@ =~= output_spec(
                format,
                self@.numbers.take(i + 1),
                self@.prefix,
                self@.padding,
            ));
            i += 1;
        }
        assert(self@.numbers.take(i as int) =~= self@.numbers);
        out
    }
}

} // verus!
