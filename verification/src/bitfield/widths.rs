//! The field widths from 0 to 64 bits, each with the narrowest unsigned
//! integer that holds it.

use crate::bitfield::specifier::Specifier;
use vstd::prelude::*;

verus! {

/// A field of 0 bits, carried by a `u8`.
pub struct B0;

impl Specifier for B0 {
    const BITS: usize = 0;

    type T = u8;

    open spec fn width() -> usize {
        0
    }

    proof fn lemma_bits() {
    }

    open spec fn value_of(item: u8) -> u64 {
        item as u64
    }

    open spec fn represents(v: u64) -> bool {
        v <= u8::MAX
    }

    fn convert_to_u64(item: u8) -> (r: u64) {
        item as u64
    }

    fn convert_from_u64(v: u64) -> (r: u8) {
        v as u8
    }
}

/// A field of 1 bit, carried by a `u8`.
pub struct B1;

impl Specifier for B1 {
    const BITS: usize = 1;

    type T = u8;

    open spec fn width() -> usize {
        1
    }

    proof fn lemma_bits() {
    }

    open spec fn value_of(item: u8) -> u64 {
        item as u64
    }

    open spec fn represents(v: u64) -> bool {
        v <= u8::MAX
    }

    fn convert_to_u64(item: u8) -> (r: u64) {
        item as u64
    }

    fn convert_from_u64(v: u64) -> (r: u8) {
        v as u8
    }
}

/// A field of 2 bits, carried by a `u8`.
pub struct B2;

impl Specifier for B2 {
    const BITS: usize = 2;

    type T = u8;

    open spec fn width() -> usize {
        2
    }

    proof fn lemma_bits() {
    }

    open spec fn value_of(item: u8) -> u64 {
        item as u64
    }

    open spec fn represents(v: u64) -> bool {
        v <= u8::MAX
    }

    fn convert_to_u64(item: u8) -> (r: u64) {
        item as u64
    }

    fn convert_from_u64(v: u64) -> (r: u8) {
        v as u8
    }
}

/// A field of 3 bits, carried by a `u8`.
pub struct B3;

impl Specifier for B3 {
    const BITS: usize = 3;

    type T = u8;

    open spec fn width() -> usize {
        3
    }

    proof fn lemma_bits() {
    }

    open spec fn value_of(item: u8) -> u64 {
        item as u64
    }

    open spec fn represents(v: u64) -> bool {
        v <= u8::MAX
    }

    fn convert_to_u64(item: u8) -> (r: u64) {
        item as u64
    }

    fn convert_from_u64(v: u64) -> (r: u8) {
        v as u8
    }
}

/// A field of 4 bits, carried by a `u8`.
pub struct B4;

impl Specifier for B4 {
    const BITS: usize = 4;

    type T = u8;

    open spec fn width() -> usize {
        4
    }

    proof fn lemma_bits() {
    }

    open spec fn value_of(item: u8) -> u64 {
        item as u64
    }

    open spec fn represents(v: u64) -> bool {
        v <= u8::MAX
    }

    fn convert_to_u64(item: u8) -> (r: u64) {
        item as u64
    }

    fn convert_from_u64(v: u64) -> (r: u8) {
        v as u8
    }
}

/// A field of 5 bits, carried by a `u8`.
pub struct B5;

impl Specifier for B5 {
    const BITS: usize = 5;

    type T = u8;

    open spec fn width() -> usize {
        5
    }

    proof fn lemma_bits() {
    }

    open spec fn value_of(item: u8) -> u64 {
        item as u64
    }

    open spec fn represents(v: u64) -> bool {
        v <= u8::MAX
    }

    fn convert_to_u64(item: u8) -> (r: u64) {
        item as u64
    }

    fn convert_from_u64(v: u64) -> (r: u8) {
        v as u8
    }
}

/// A field of 6 bits, carried by a `u8`.
pub struct B6;

impl Specifier for B6 {
    const BITS: usize = 6;

    type T = u8;

    open spec fn width() -> usize {
        6
    }

    proof fn lemma_bits() {
    }

    open spec fn value_of(item: u8) -> u64 {
        item as u64
    }

    open spec fn represents(v: u64) -> bool {
        v <= u8::MAX
    }

    fn convert_to_u64(item: u8) -> (r: u64) {
        item as u64
    }

    fn convert_from_u64(v: u64) -> (r: u8) {
        v as u8
    }
}

/// A field of 7 bits, carried by a `u8`.
pub struct B7;

impl Specifier for B7 {
    const BITS: usize = 7;

    type T = u8;

    open spec fn width() -> usize {
        7
    }

    proof fn lemma_bits() {
    }

    open spec fn value_of(item: u8) -> u64 {
        item as u64
    }

    open spec fn represents(v: u64) -> bool {
        v <= u8::MAX
    }

    fn convert_to_u64(item: u8) -> (r: u64) {
        item as u64
    }

    fn convert_from_u64(v: u64) -> (r: u8) {
        v as u8
    }
}

/// A field of 8 bits, carried by a `u8`.
pub struct B8;

impl Specifier for B8 {
    const BITS: usize = 8;

    type T = u8;

    open spec fn width() -> usize {
        8
    }

    proof fn lemma_bits() {
    }

    open spec fn value_of(item: u8) -> u64 {
        item as u64
    }

    open spec fn represents(v: u64) -> bool {
        v <= u8::MAX
    }

    fn convert_to_u64(item: u8) -> (r: u64) {
        item as u64
    }

    fn convert_from_u64(v: u64) -> (r: u8) {
        v as u8
    }
}

/// A field of 9 bits, carried by a `u16`.
pub struct B9;

impl Specifier for B9 {
    const BITS: usize = 9;

    type T = u16;

    open spec fn width() -> usize {
        9
    }

    proof fn lemma_bits() {
    }

    open spec fn value_of(item: u16) -> u64 {
        item as u64
    }

    open spec fn represents(v: u64) -> bool {
        v <= u16::MAX
    }

    fn convert_to_u64(item: u16) -> (r: u64) {
        item as u64
    }

    fn convert_from_u64(v: u64) -> (r: u16) {
        v as u16
    }
}

/// A field of 10 bits, carried by a `u16`.
pub struct B10;

impl Specifier for B10 {
    const BITS: usize = 10;

    type T = u16;

    open spec fn width() -> usize {
        10
    }

    proof fn lemma_bits() {
    }

    open spec fn value_of(item: u16) -> u64 {
        item as u64
    }

    open spec fn represents(v: u64) -> bool {
        v <= u16::MAX
    }

    fn convert_to_u64(item: u16) -> (r: u64) {
        item as u64
    }

    fn convert_from_u64(v: u64) -> (r: u16) {
        v as u16
    }
}

/// A field of 11 bits, carried by a `u16`.
pub struct B11;

impl Specifier for B11 {
    const BITS: usize = 11;

    type T = u16;

    open spec fn width() -> usize {
        11
    }

    proof fn lemma_bits() {
    }

    open spec fn value_of(item: u16) -> u64 {
        item as u64
    }

    open spec fn represents(v: u64) -> bool {
        v <= u16::MAX
    }

    fn convert_to_u64(item: u16) -> (r: u64) {
        item as u64
    }

    fn convert_from_u64(v: u64) -> (r: u16) {
        v as u16
    }
}

/// A field of 12 bits, carried by a `u16`.
pub struct B12;

impl Specifier for B12 {
    const BITS: usize = 12;

    type T = u16;

    open spec fn width() -> usize {
        12
    }

    proof fn lemma_bits() {
    }

    open spec fn value_of(item: u16) -> u64 {
        item as u64
    }

    open spec fn represents(v: u64) -> bool {
        v <= u16::MAX
    }

    fn convert_to_u64(item: u16) -> (r: u64) {
        item as u64
    }

    fn convert_from_u64(v: u64) -> (r: u16) {
        v as u16
    }
}

/// A field of 13 bits, carried by a `u16`.
pub struct B13;

impl Specifier for B13 {
    const BITS: usize = 13;

    type T = u16;

    open spec fn width() -> usize {
        13
    }

    proof fn lemma_bits() {
    }

    open spec fn value_of(item: u16) -> u64 {
        item as u64
    }

    open spec fn represents(v: u64) -> bool {
        v <= u16::MAX
    }

    fn convert_to_u64(item: u16) -> (r: u64) {
        item as u64
    }

    fn convert_from_u64(v: u64) -> (r: u16) {
        v as u16
    }
}

/// A field of 14 bits, carried by a `u16`.
pub struct B14;

impl Specifier for B14 {
    const BITS: usize = 14;

    type T = u16;

    open spec fn width() -> usize {
        14
    }

    proof fn lemma_bits() {
    }

    open spec fn value_of(item: u16) -> u64 {
        item as u64
    }

    open spec fn represents(v: u64) -> bool {
        v <= u16::MAX
    }

    fn convert_to_u64(item: u16) -> (r: u64) {
        item as u64
    }

    fn convert_from_u64(v: u64) -> (r: u16) {
        v as u16
    }
}

/// A field of 15 bits, carried by a `u16`.
pub struct B15;

impl Specifier for B15 {
    const BITS: usize = 15;

    type T = u16;

    open spec fn width() -> usize {
        15
    }

    proof fn lemma_bits() {
    }

    open spec fn value_of(item: u16) -> u64 {
        item as u64
    }

    open spec fn represents(v: u64) -> bool {
        v <= u16::MAX
    }

    fn convert_to_u64(item: u16) -> (r: u64) {
        item as u64
    }

    fn convert_from_u64(v: u64) -> (r: u16) {
        v as u16
    }
}

/// A field of 16 bits, carried by a `u16`.
pub struct B16;

impl Specifier for B16 {
    const BITS: usize = 16;

    type T = u16;

    open spec fn width() -> usize {
        16
    }

    proof fn lemma_bits() {
    }

    open spec fn value_of(item: u16) -> u64 {
        item as u64
    }

    open spec fn represents(v: u64) -> bool {
        v <= u16::MAX
    }

    fn convert_to_u64(item: u16) -> (r: u64) {
        item as u64
    }

    fn convert_from_u64(v: u64) -> (r: u16) {
        v as u16
    }
}

/// A field of 17 bits, carried by a `u32`.
pub struct B17;

impl Specifier for B17 {
    const BITS: usize = 17;

    type T = u32;

    open spec fn width() -> usize {
        17
    }

    proof fn lemma_bits() {
    }

    open spec fn value_of(item: u32) -> u64 {
        item as u64
    }

    open spec fn represents(v: u64) -> bool {
        v <= u32::MAX
    }

    fn convert_to_u64(item: u32) -> (r: u64) {
        item as u64
    }

    fn convert_from_u64(v: u64) -> (r: u32) {
        v as u32
    }
}

/// A field of 18 bits, carried by a `u32`.
pub struct B18;

impl Specifier for B18 {
    const BITS: usize = 18;

    type T = u32;

    open spec fn width() -> usize {
        18
    }

    proof fn lemma_bits() {
    }

    open spec fn value_of(item: u32) -> u64 {
        item as u64
    }

    open spec fn represents(v: u64) -> bool {
        v <= u32::MAX
    }

    fn convert_to_u64(item: u32) -> (r: u64) {
        item as u64
    }

    fn convert_from_u64(v: u64) -> (r: u32) {
        v as u32
    }
}

/// A field of 19 bits, carried by a `u32`.
pub struct B19;

impl Specifier for B19 {
    const BITS: usize = 19;

    type T = u32;

    open spec fn width() -> usize {
        19
    }

    proof fn lemma_bits() {
    }

    open spec fn value_of(item: u32) -> u64 {
        item as u64
    }

    open spec fn represents(v: u64) -> bool {
        v <= u32::MAX
    }

    fn convert_to_u64(item: u32) -> (r: u64) {
        item as u64
    }

    fn convert_from_u64(v: u64) -> (r: u32) {
        v as u32
    }
}

/// A field of 20 bits, carried by a `u32`.
pub struct B20;

impl Specifier for B20 {
    const BITS: usize = 20;

    type T = u32;

    open spec fn width() -> usize {
        20
    }

    proof fn lemma_bits() {
    }

    open spec fn value_of(item: u32) -> u64 {
        item as u64
    }

    open spec fn represents(v: u64) -> bool {
        v <= u32::MAX
    }

    fn convert_to_u64(item: u32) -> (r: u64) {
        item as u64
    }

    fn convert_from_u64(v: u64) -> (r: u32) {
        v as u32
    }
}

/// A field of 21 bits, carried by a `u32`.
pub struct B21;

impl Specifier for B21 {
    const BITS: usize = 21;

    type T = u32;

    open spec fn width() -> usize {
        21
    }

    proof fn lemma_bits() {
    }

    open spec fn value_of(item: u32) -> u64 {
        item as u64
    }

    open spec fn represents(v: u64) -> bool {
        v <= u32::MAX
    }

    fn convert_to_u64(item: u32) -> (r: u64) {
        item as u64
    }

    fn convert_from_u64(v: u64) -> (r: u32) {
        v as u32
    }
}

/// A field of 22 bits, carried by a `u32`.
pub struct B22;

impl Specifier for B22 {
    const BITS: usize = 22;

    type T = u32;

    open spec fn width() -> usize {
        22
    }

    proof fn lemma_bits() {
    }

    open spec fn value_of(item: u32) -> u64 {
        item as u64
    }

    open spec fn represents(v: u64) -> bool {
        v <= u32::MAX
    }

    fn convert_to_u64(item: u32) -> (r: u64) {
        item as u64
    }

    fn convert_from_u64(v: u64) -> (r: u32) {
        v as u32
    }
}

/// A field of 23 bits, carried by a `u32`.
pub struct B23;

impl Specifier for B23 {
    const BITS: usize = 23;

    type T = u32;

    open spec fn width() -> usize {
        23
    }

    proof fn lemma_bits() {
    }

    open spec fn value_of(item: u32) -> u64 {
        item as u64
    }

    open spec fn represents(v: u64) -> bool {
        v <= u32::MAX
    }

    fn convert_to_u64(item: u32) -> (r: u64) {
        item as u64
    }

    fn convert_from_u64(v: u64) -> (r: u32) {
        v as u32
    }
}

/// A field of 24 bits, carried by a `u32`.
pub struct B24;

impl Specifier for B24 {
    const BITS: usize = 24;

    type T = u32;

    open spec fn width() -> usize {
        24
    }

    proof fn lemma_bits() {
    }

    open spec fn value_of(item: u32) -> u64 {
        item as u64
    }

    open spec fn represents(v: u64) -> bool {
        v <= u32::MAX
    }

    fn convert_to_u64(item: u32) -> (r: u64) {
        item as u64
    }

    fn convert_from_u64(v: u64) -> (r: u32) {
        v as u32
    }
}

/// A field of 25 bits, carried by a `u32`.
pub struct B25;

impl Specifier for B25 {
    const BITS: usize = 25;

    type T = u32;

    open spec fn width() -> usize {
        25
    }

    proof fn lemma_bits() {
    }

    open spec fn value_of(item: u32) -> u64 {
        item as u64
    }

    open spec fn represents(v: u64) -> bool {
        v <= u32::MAX
    }

    fn convert_to_u64(item: u32) -> (r: u64) {
        item as u64
    }

    fn convert_from_u64(v: u64) -> (r: u32) {
        v as u32
    }
}

/// A field of 26 bits, carried by a `u32`.
pub struct B26;

impl Specifier for B26 {
    const BITS: usize = 26;

    type T = u32;

    open spec fn width() -> usize {
        26
    }

    proof fn lemma_bits() {
    }

    open spec fn value_of(item: u32) -> u64 {
        item as u64
    }

    open spec fn represents(v: u64) -> bool {
        v <= u32::MAX
    }

    fn convert_to_u64(item: u32) -> (r: u64) {
        item as u64
    }

    fn convert_from_u64(v: u64) -> (r: u32) {
        v as u32
    }
}

/// A field of 27 bits, carried by a `u32`.
pub struct B27;

impl Specifier for B27 {
    const BITS: usize = 27;

    type T = u32;

    open spec fn width() -> usize {
        27
    }

    proof fn lemma_bits() {
    }

    open spec fn value_of(item: u32) -> u64 {
        item as u64
    }

    open spec fn represents(v: u64) -> bool {
        v <= u32::MAX
    }

    fn convert_to_u64(item: u32) -> (r: u64) {
        item as u64
    }

    fn convert_from_u64(v: u64) -> (r: u32) {
        v as u32
    }
}

/// A field of 28 bits, carried by a `u32`.
pub struct B28;

impl Specifier for B28 {
    const BITS: usize = 28;

    type T = u32;

    open spec fn width() -> usize {
        28
    }

    proof fn lemma_bits() {
    }

    open spec fn value_of(item: u32) -> u64 {
        item as u64
    }

    open spec fn represents(v: u64) -> bool {
        v <= u32::MAX
    }

    fn convert_to_u64(item: u32) -> (r: u64) {
        item as u64
    }

    fn convert_from_u64(v: u64) -> (r: u32) {
        v as u32
    }
}

/// A field of 29 bits, carried by a `u32`.
pub struct B29;

impl Specifier for B29 {
    const BITS: usize = 29;

    type T = u32;

    open spec fn width() -> usize {
        29
    }

    proof fn lemma_bits() {
    }

    open spec fn value_of(item: u32) -> u64 {
        item as u64
    }

    open spec fn represents(v: u64) -> bool {
        v <= u32::MAX
    }

    fn convert_to_u64(item: u32) -> (r: u64) {
        item as u64
    }

    fn convert_from_u64(v: u64) -> (r: u32) {
        v as u32
    }
}

/// A field of 30 bits, carried by a `u32`.
pub struct B30;

impl Specifier for B30 {
    const BITS: usize = 30;

    type T = u32;

    open spec fn width() -> usize {
        30
    }

    proof fn lemma_bits() {
    }

    open spec fn value_of(item: u32) -> u64 {
        item as u64
    }

    open spec fn represents(v: u64) -> bool {
        v <= u32::MAX
    }

    fn convert_to_u64(item: u32) -> (r: u64) {
        item as u64
    }

    fn convert_from_u64(v: u64) -> (r: u32) {
        v as u32
    }
}

/// A field of 31 bits, carried by a `u32`.
pub struct B31;

impl Specifier for B31 {
    const BITS: usize = 31;

    type T = u32;

    open spec fn width() -> usize {
        31
    }

    proof fn lemma_bits() {
    }

    open spec fn value_of(item: u32) -> u64 {
        item as u64
    }

    open spec fn represents(v: u64) -> bool {
        v <= u32::MAX
    }

    fn convert_to_u64(item: u32) -> (r: u64) {
        item as u64
    }

    fn convert_from_u64(v: u64) -> (r: u32) {
        v as u32
    }
}

/// A field of 32 bits, carried by a `u32`.
pub struct B32;

impl Specifier for B32 {
    const BITS: usize = 32;

    type T = u32;

    open spec fn width() -> usize {
        32
    }

    proof fn lemma_bits() {
    }

    open spec fn value_of(item: u32) -> u64 {
        item as u64
    }

    open spec fn represents(v: u64) -> bool {
        v <= u32::MAX
    }

    fn convert_to_u64(item: u32) -> (r: u64) {
        item as u64
    }

    fn convert_from_u64(v: u64) -> (r: u32) {
        v as u32
    }
}

/// A field of 33 bits, carried by a `u64`.
pub struct B33;

impl Specifier for B33 {
    const BITS: usize = 33;

    type T = u64;

    open spec fn width() -> usize {
        33
    }

    proof fn lemma_bits() {
    }

    open spec fn value_of(item: u64) -> u64 {
        item as u64
    }

    open spec fn represents(v: u64) -> bool {
        true
    }

    fn convert_to_u64(item: u64) -> (r: u64) {
        item
    }

    fn convert_from_u64(v: u64) -> (r: u64) {
        v
    }
}

/// A field of 34 bits, carried by a `u64`.
pub struct B34;

impl Specifier for B34 {
    const BITS: usize = 34;

    type T = u64;

    open spec fn width() -> usize {
        34
    }

    proof fn lemma_bits() {
    }

    open spec fn value_of(item: u64) -> u64 {
        item as u64
    }

    open spec fn represents(v: u64) -> bool {
        true
    }

    fn convert_to_u64(item: u64) -> (r: u64) {
        item
    }

    fn convert_from_u64(v: u64) -> (r: u64) {
        v
    }
}

/// A field of 35 bits, carried by a `u64`.
pub struct B35;

impl Specifier for B35 {
    const BITS: usize = 35;

    type T = u64;

    open spec fn width() -> usize {
        35
    }

    proof fn lemma_bits() {
    }

    open spec fn value_of(item: u64) -> u64 {
        item as u64
    }

    open spec fn represents(v: u64) -> bool {
        true
    }

    fn convert_to_u64(item: u64) -> (r: u64) {
        item
    }

    fn convert_from_u64(v: u64) -> (r: u64) {
        v
    }
}

/// A field of 36 bits, carried by a `u64`.
pub struct B36;

impl Specifier for B36 {
    const BITS: usize = 36;

    type T = u64;

    open spec fn width() -> usize {
        36
    }

    proof fn lemma_bits() {
    }

    open spec fn value_of(item: u64) -> u64 {
        item as u64
    }

    open spec fn represents(v: u64) -> bool {
        true
    }

    fn convert_to_u64(item: u64) -> (r: u64) {
        item
    }

    fn convert_from_u64(v: u64) -> (r: u64) {
        v
    }
}

/// A field of 37 bits, carried by a `u64`.
pub struct B37;

impl Specifier for B37 {
    const BITS: usize = 37;

    type T = u64;

    open spec fn width() -> usize {
        37
    }

    proof fn lemma_bits() {
    }

    open spec fn value_of(item: u64) -> u64 {
        item as u64
    }

    open spec fn represents(v: u64) -> bool {
        true
    }

    fn convert_to_u64(item: u64) -> (r: u64) {
        item
    }

    fn convert_from_u64(v: u64) -> (r: u64) {
        v
    }
}

/// A field of 38 bits, carried by a `u64`.
pub struct B38;

impl Specifier for B38 {
    const BITS: usize = 38;

    type T = u64;

    open spec fn width() -> usize {
        38
    }

    proof fn lemma_bits() {
    }

    open spec fn value_of(item: u64) -> u64 {
        item as u64
    }

    open spec fn represents(v: u64) -> bool {
        true
    }

    fn convert_to_u64(item: u64) -> (r: u64) {
        item
    }

    fn convert_from_u64(v: u64) -> (r: u64) {
        v
    }
}

/// A field of 39 bits, carried by a `u64`.
pub struct B39;

impl Specifier for B39 {
    const BITS: usize = 39;

    type T = u64;

    open spec fn width() -> usize {
        39
    }

    proof fn lemma_bits() {
    }

    open spec fn value_of(item: u64) -> u64 {
        item as u64
    }

    open spec fn represents(v: u64) -> bool {
        true
    }

    fn convert_to_u64(item: u64) -> (r: u64) {
        item
    }

    fn convert_from_u64(v: u64) -> (r: u64) {
        v
    }
}

/// A field of 40 bits, carried by a `u64`.
pub struct B40;

impl Specifier for B40 {
    const BITS: usize = 40;

    type T = u64;

    open spec fn width() -> usize {
        40
    }

    proof fn lemma_bits() {
    }

    open spec fn value_of(item: u64) -> u64 {
        item as u64
    }

    open spec fn represents(v: u64) -> bool {
        true
    }

    fn convert_to_u64(item: u64) -> (r: u64) {
        item
    }

    fn convert_from_u64(v: u64) -> (r: u64) {
        v
    }
}

/// A field of 41 bits, carried by a `u64`.
pub struct B41;

impl Specifier for B41 {
    const BITS: usize = 41;

    type T = u64;

    open spec fn width() -> usize {
        41
    }

    proof fn lemma_bits() {
    }

    open spec fn value_of(item: u64) -> u64 {
        item as u64
    }

    open spec fn represents(v: u64) -> bool {
        true
    }

    fn convert_to_u64(item: u64) -> (r: u64) {
        item
    }

    fn convert_from_u64(v: u64) -> (r: u64) {
        v
    }
}

/// A field of 42 bits, carried by a `u64`.
pub struct B42;

impl Specifier for B42 {
    const BITS: usize = 42;

    type T = u64;

    open spec fn width() -> usize {
        42
    }

    proof fn lemma_bits() {
    }

    open spec fn value_of(item: u64) -> u64 {
        item as u64
    }

    open spec fn represents(v: u64) -> bool {
        true
    }

    fn convert_to_u64(item: u64) -> (r: u64) {
        item
    }

    fn convert_from_u64(v: u64) -> (r: u64) {
        v
    }
}

/// A field of 43 bits, carried by a `u64`.
pub struct B43;

impl Specifier for B43 {
    const BITS: usize = 43;

    type T = u64;

    open spec fn width() -> usize {
        43
    }

    proof fn lemma_bits() {
    }

    open spec fn value_of(item: u64) -> u64 {
        item as u64
    }

    open spec fn represents(v: u64) -> bool {
        true
    }

    fn convert_to_u64(item: u64) -> (r: u64) {
        item
    }

    fn convert_from_u64(v: u64) -> (r: u64) {
        v
    }
}

/// A field of 44 bits, carried by a `u64`.
pub struct B44;

impl Specifier for B44 {
    const BITS: usize = 44;

    type T = u64;

    open spec fn width() -> usize {
        44
    }

    proof fn lemma_bits() {
    }

    open spec fn value_of(item: u64) -> u64 {
        item as u64
    }

    open spec fn represents(v: u64) -> bool {
        true
    }

    fn convert_to_u64(item: u64) -> (r: u64) {
        item
    }

    fn convert_from_u64(v: u64) -> (r: u64) {
        v
    }
}

/// A field of 45 bits, carried by a `u64`.
pub struct B45;

impl Specifier for B45 {
    const BITS: usize = 45;

    type T = u64;

    open spec fn width() -> usize {
        45
    }

    proof fn lemma_bits() {
    }

    open spec fn value_of(item: u64) -> u64 {
        item as u64
    }

    open spec fn represents(v: u64) -> bool {
        true
    }

    fn convert_to_u64(item: u64) -> (r: u64) {
        item
    }

    fn convert_from_u64(v: u64) -> (r: u64) {
        v
    }
}

/// A field of 46 bits, carried by a `u64`.
pub struct B46;

impl Specifier for B46 {
    const BITS: usize = 46;

    type T = u64;

    open spec fn width() -> usize {
        46
    }

    proof fn lemma_bits() {
    }

    open spec fn value_of(item: u64) -> u64 {
        item as u64
    }

    open spec fn represents(v: u64) -> bool {
        true
    }

    fn convert_to_u64(item: u64) -> (r: u64) {
        item
    }

    fn convert_from_u64(v: u64) -> (r: u64) {
        v
    }
}

/// A field of 47 bits, carried by a `u64`.
pub struct B47;

impl Specifier for B47 {
    const BITS: usize = 47;

    type T = u64;

    open spec fn width() -> usize {
        47
    }

    proof fn lemma_bits() {
    }

    open spec fn value_of(item: u64) -> u64 {
        item as u64
    }

    open spec fn represents(v: u64) -> bool {
        true
    }

    fn convert_to_u64(item: u64) -> (r: u64) {
        item
    }

    fn convert_from_u64(v: u64) -> (r: u64) {
        v
    }
}

/// A field of 48 bits, carried by a `u64`.
pub struct B48;

impl Specifier for B48 {
    const BITS: usize = 48;

    type T = u64;

    open spec fn width() -> usize {
        48
    }

    proof fn lemma_bits() {
    }

    open spec fn value_of(item: u64) -> u64 {
        item as u64
    }

    open spec fn represents(v: u64) -> bool {
        true
    }

    fn convert_to_u64(item: u64) -> (r: u64) {
        item
    }

    fn convert_from_u64(v: u64) -> (r: u64) {
        v
    }
}

/// A field of 49 bits, carried by a `u64`.
pub struct B49;

impl Specifier for B49 {
    const BITS: usize = 49;

    type T = u64;

    open spec fn width() -> usize {
        49
    }

    proof fn lemma_bits() {
    }

    open spec fn value_of(item: u64) -> u64 {
        item as u64
    }

    open spec fn represents(v: u64) -> bool {
        true
    }

    fn convert_to_u64(item: u64) -> (r: u64) {
        item
    }

    fn convert_from_u64(v: u64) -> (r: u64) {
        v
    }
}

/// A field of 50 bits, carried by a `u64`.
pub struct B50;

impl Specifier for B50 {
    const BITS: usize = 50;

    type T = u64;

    open spec fn width() -> usize {
        50
    }

    proof fn lemma_bits() {
    }

    open spec fn value_of(item: u64) -> u64 {
        item as u64
    }

    open spec fn represents(v: u64) -> bool {
        true
    }

    fn convert_to_u64(item: u64) -> (r: u64) {
        item
    }

    fn convert_from_u64(v: u64) -> (r: u64) {
        v
    }
}

/// A field of 51 bits, carried by a `u64`.
pub struct B51;

impl Specifier for B51 {
    const BITS: usize = 51;

    type T = u64;

    open spec fn width() -> usize {
        51
    }

    proof fn lemma_bits() {
    }

    open spec fn value_of(item: u64) -> u64 {
        item as u64
    }

    open spec fn represents(v: u64) -> bool {
        true
    }

    fn convert_to_u64(item: u64) -> (r: u64) {
        item
    }

    fn convert_from_u64(v: u64) -> (r: u64) {
        v
    }
}

/// A field of 52 bits, carried by a `u64`.
pub struct B52;

impl Specifier for B52 {
    const BITS: usize = 52;

    type T = u64;

    open spec fn width() -> usize {
        52
    }

    proof fn lemma_bits() {
    }

    open spec fn value_of(item: u64) -> u64 {
        item as u64
    }

    open spec fn represents(v: u64) -> bool {
        true
    }

    fn convert_to_u64(item: u64) -> (r: u64) {
        item
    }

    fn convert_from_u64(v: u64) -> (r: u64) {
        v
    }
}

/// A field of 53 bits, carried by a `u64`.
pub struct B53;

impl Specifier for B53 {
    const BITS: usize = 53;

    type T = u64;

    open spec fn width() -> usize {
        53
    }

    proof fn lemma_bits() {
    }

    open spec fn value_of(item: u64) -> u64 {
        item as u64
    }

    open spec fn represents(v: u64) -> bool {
        true
    }

    fn convert_to_u64(item: u64) -> (r: u64) {
        item
    }

    fn convert_from_u64(v: u64) -> (r: u64) {
        v
    }
}

/// A field of 54 bits, carried by a `u64`.
pub struct B54;

impl Specifier for B54 {
    const BITS: usize = 54;

    type T = u64;

    open spec fn width() -> usize {
        54
    }

    proof fn lemma_bits() {
    }

    open spec fn value_of(item: u64) -> u64 {
        item as u64
    }

    open spec fn represents(v: u64) -> bool {
        true
    }

    fn convert_to_u64(item: u64) -> (r: u64) {
        item
    }

    fn convert_from_u64(v: u64) -> (r: u64) {
        v
    }
}

/// A field of 55 bits, carried by a `u64`.
pub struct B55;

impl Specifier for B55 {
    const BITS: usize = 55;

    type T = u64;

    open spec fn width() -> usize {
        55
    }

    proof fn lemma_bits() {
    }

    open spec fn value_of(item: u64) -> u64 {
        item as u64
    }

    open spec fn represents(v: u64) -> bool {
        true
    }

    fn convert_to_u64(item: u64) -> (r: u64) {
        item
    }

    fn convert_from_u64(v: u64) -> (r: u64) {
        v
    }
}

/// A field of 56 bits, carried by a `u64`.
pub struct B56;

impl Specifier for B56 {
    const BITS: usize = 56;

    type T = u64;

    open spec fn width() -> usize {
        56
    }

    proof fn lemma_bits() {
    }

    open spec fn value_of(item: u64) -> u64 {
        item as u64
    }

    open spec fn represents(v: u64) -> bool {
        true
    }

    fn convert_to_u64(item: u64) -> (r: u64) {
        item
    }

    fn convert_from_u64(v: u64) -> (r: u64) {
        v
    }
}

/// A field of 57 bits, carried by a `u64`.
pub struct B57;

impl Specifier for B57 {
    const BITS: usize = 57;

    type T = u64;

    open spec fn width() -> usize {
        57
    }

    proof fn lemma_bits() {
    }

    open spec fn value_of(item: u64) -> u64 {
        item as u64
    }

    open spec fn represents(v: u64) -> bool {
        true
    }

    fn convert_to_u64(item: u64) -> (r: u64) {
        item
    }

    fn convert_from_u64(v: u64) -> (r: u64) {
        v
    }
}

/// A field of 58 bits, carried by a `u64`.
pub struct B58;

impl Specifier for B58 {
    const BITS: usize = 58;

    type T = u64;

    open spec fn width() -> usize {
        58
    }

    proof fn lemma_bits() {
    }

    open spec fn value_of(item: u64) -> u64 {
        item as u64
    }

    open spec fn represents(v: u64) -> bool {
        true
    }

    fn convert_to_u64(item: u64) -> (r: u64) {
        item
    }

    fn convert_from_u64(v: u64) -> (r: u64) {
        v
    }
}

/// A field of 59 bits, carried by a `u64`.
pub struct B59;

impl Specifier for B59 {
    const BITS: usize = 59;

    type T = u64;

    open spec fn width() -> usize {
        59
    }

    proof fn lemma_bits() {
    }

    open spec fn value_of(item: u64) -> u64 {
        item as u64
    }

    open spec fn represents(v: u64) -> bool {
        true
    }

    fn convert_to_u64(item: u64) -> (r: u64) {
        item
    }

    fn convert_from_u64(v: u64) -> (r: u64) {
        v
    }
}

/// A field of 60 bits, carried by a `u64`.
pub struct B60;

impl Specifier for B60 {
    const BITS: usize = 60;

    type T = u64;

    open spec fn width() -> usize {
        60
    }

    proof fn lemma_bits() {
    }

    open spec fn value_of(item: u64) -> u64 {
        item as u64
    }

    open spec fn represents(v: u64) -> bool {
        true
    }

    fn convert_to_u64(item: u64) -> (r: u64) {
        item
    }

    fn convert_from_u64(v: u64) -> (r: u64) {
        v
    }
}

/// A field of 61 bits, carried by a `u64`.
pub struct B61;

impl Specifier for B61 {
    const BITS: usize = 61;

    type T = u64;

    open spec fn width() -> usize {
        61
    }

    proof fn lemma_bits() {
    }

    open spec fn value_of(item: u64) -> u64 {
        item as u64
    }

    open spec fn represents(v: u64) -> bool {
        true
    }

    fn convert_to_u64(item: u64) -> (r: u64) {
        item
    }

    fn convert_from_u64(v: u64) -> (r: u64) {
        v
    }
}

/// A field of 62 bits, carried by a `u64`.
pub struct B62;

impl Specifier for B62 {
    const BITS: usize = 62;

    type T = u64;

    open spec fn width() -> usize {
        62
    }

    proof fn lemma_bits() {
    }

    open spec fn value_of(item: u64) -> u64 {
        item as u64
    }

    open spec fn represents(v: u64) -> bool {
        true
    }

    fn convert_to_u64(item: u64) -> (r: u64) {
        item
    }

    fn convert_from_u64(v: u64) -> (r: u64) {
        v
    }
}

/// A field of 63 bits, carried by a `u64`.
pub struct B63;

impl Specifier for B63 {
    const BITS: usize = 63;

    type T = u64;

    open spec fn width() -> usize {
        63
    }

    proof fn lemma_bits() {
    }

    open spec fn value_of(item: u64) -> u64 {
        item as u64
    }

    open spec fn represents(v: u64) -> bool {
        true
    }

    fn convert_to_u64(item: u64) -> (r: u64) {
        item
    }

    fn convert_from_u64(v: u64) -> (r: u64) {
        v
    }
}

/// A field of 64 bits, carried by a `u64`.
pub struct B64;

impl Specifier for B64 {
    const BITS: usize = 64;

    type T = u64;

    open spec fn width() -> usize {
        64
    }

    proof fn lemma_bits() {
    }

    open spec fn value_of(item: u64) -> u64 {
        item as u64
    }

    open spec fn represents(v: u64) -> bool {
        true
    }

    fn convert_to_u64(item: u64) -> (r: u64) {
        item
    }

    fn convert_from_u64(v: u64) -> (r: u64) {
        v
    }
}

} // verus!
