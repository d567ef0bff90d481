//! The unsigned integer widths that a number can be parsed into.

use vstd::prelude::*;

verus! {

/// An unsigned integer type of at most 128 bits.
pub trait Unsigned: Sized {
    /// The largest number of the type.
    spec fn max_value() -> nat;

    /// The number that a value of the type stands for.
    spec fn value(&self) -> nat;

    /// The largest number of the type.
    fn max() -> (m: u128)
        ensures
            m as nat == Self::max_value(),
    ;

    /// The value of the type for a number within its range.
    fn narrow(v: u128) -> (r: Self)
        requires
            v as nat <= Self::max_value(),
        ensures
            r.value() == v as nat,
    ;

    /// The number as a 128-bit integer.
    fn widen(&self) -> (v: u128)
        ensures
            v as nat == self.value(),
    ;
}

impl Unsigned for u8 {
    open spec fn max_value() -> nat {
        u8::MAX as nat
    }

    open spec fn value(&self) -> nat {
        *self as nat
    }

    fn max() -> (m: u128) {
        u8::MAX as u128
    }

    fn narrow(v: u128) -> (r: Self) {
        v as u8
    }

    fn widen(&self) -> (v: u128) {
        *self as u128
    }
}

impl Unsigned for u16 {
    open spec fn max_value() -> nat {
        u16::MAX as nat
    }

    open spec fn value(&self) -> nat {
        *self as nat
    }

    fn max() -> (m: u128) {
        u16::MAX as u128
    }

    fn narrow(v: u128) -> (r: Self) {
        v as u16
    }

    fn widen(&self) -> (v: u128) {
        *self as u128
    }
}

impl Unsigned for u32 {
    open spec fn max_value() -> nat {
        u32::MAX as nat
    }

    open spec fn value(&self) -> nat {
        *self as nat
    }

    fn max() -> (m: u128) {
        u32::MAX as u128
    }

    fn narrow(v: u128) -> (r: Self) {
        v as u32
    }

    fn widen(&self) -> (v: u128) {
        *self as u128
    }
}

impl Unsigned for u64 {
    open spec fn max_value() -> nat {
        u64::MAX as nat
    }

    open spec fn value(&self) -> nat {
        *self as nat
    }

    fn max() -> (m: u128) {
        u64::MAX as u128
    }

    fn narrow(v: u128) -> (r: Self) {
        v as u64
    }

    fn widen(&self) -> (v: u128) {
        *self as u128
    }
}

impl Unsigned for u128 {
    open spec fn max_value() -> nat {
        u128::MAX as nat
    }

    open spec fn value(&self) -> nat {
        *self as nat
    }

    fn max() -> (m: u128) {
        u128::MAX
    }

    fn narrow(v: u128) -> (r: Self) {
        v
    }

    fn widen(&self) -> (v: u128) {
        *self
    }
}

} // verus!
