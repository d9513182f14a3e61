//! Field specifiers: the width of a bit field and the type that carries
//! it.

use vstd::prelude::*;

verus! {

/// Describes one field of a packed structure.
pub trait Specifier {
    /// Width of the field in bits.
    const BITS: usize;

    /// The type through which the field is read and written.
    type T;

    /// The width that `BITS` holds.
    spec fn width() -> usize;

    /// `BITS` is the width.
    proof fn lemma_bits()
        ensures
            Self::BITS == Self::width(),
    ;

    /// The number that an item stands for.
    spec fn value_of(item: Self::T) -> u64;

    /// Whether a number stands for some item.
    spec fn represents(v: u64) -> bool;

    /// The number that is stored for an item.
    fn convert_to_u64(item: Self::T) -> (r: u64)
        ensures
            r == Self::value_of(item),
            Self::represents(r),
    ;

    /// The item that a stored number stands for.
    fn convert_from_u64(v: u64) -> (r: Self::T)
        requires
            Self::represents(v),
        ensures
            Self::value_of(r) == v,
    ;
}

impl Specifier for bool {
    const BITS: usize = 1;

    type T = bool;

    open spec fn width() -> usize {
        1
    }

    proof fn lemma_bits() {
    }

    open spec fn value_of(item: bool) -> u64 {
        if item {
            1
        } else {
            0
        }
    }

    open spec fn represents(v: u64) -> bool {
        v <= 1
    }

    fn convert_to_u64(item: bool) -> (r: u64) {
        match item {
            true => 1,
            false => 0,
        }
    }

    fn convert_from_u64(v: u64) -> (r: bool) {
        match v {
            0 => false,
            _ => true,
        }
    }
}

} // verus!
