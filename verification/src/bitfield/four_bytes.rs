//! A packed structure of four bytes with four fields.

use crate::bitfield::bits::{bit64, bit_at, bit_of, lemma_byte_from_bits, lemma_word_from_bits};
use crate::bitfield::field::{listing, read_field, show, write_field};
use crate::bitfield::specifier::Specifier;
use crate::bitfield::widths::{B1, B24, B3, B4};
use vstd::prelude::*;

verus! {

/// The four fields of [`MyFourBytes`] as numbers.
pub struct FourBytes {
    /// One bit, the topmost of the structure.
    pub a: u8,
    /// Three bits below `a`.
    pub b: u8,
    /// Four bits below `b`.
    pub c: u8,
    /// The lowest twenty-four bits.
    pub d: u32,
}

/// Four fields of 1, 3, 4 and 24 bits packed into four bytes. The first
/// field lies in the most significant bits.
pub struct MyFourBytes {
    data: [u8; 4],
}

impl View for MyFourBytes {
    type V = FourBytes;

    closed spec fn view(&self) -> FourBytes {
        FourBytes {
            a: self.data[3] >> 7,
            b: (self.data[3] >> 4) & 7,
            c: self.data[3] & 15,
            d: (self.data[0] as u32) | ((self.data[1] as u32) << 8) | ((self.data[2] as u32)
                << 16),
        }
    }
}

proof fn lemma_top_bit(x: u8, k: u64)
    by (bit_vector)
    requires
        k < 64,
    ensures
        bit64((x >> 7) as u64, k) == (k == 0 && bit_of(x, 7)),
{
}

proof fn lemma_next_three(x: u8, k: u64)
    by (bit_vector)
    requires
        k < 64,
    ensures
        bit64(((x >> 4) & 7) as u64, k) == (k < 3 && bit_of(x, (4 + k) as u8)),
{
}

proof fn lemma_low_four(x: u8, k: u64)
    by (bit_vector)
    requires
        k < 64,
    ensures
        bit64((x & 15) as u64, k) == (k < 4 && bit_of(x, k as u8)),
{
}

proof fn lemma_three_bytes(b0: u8, b1: u8, b2: u8, k: u64)
    by (bit_vector)
    requires
        k < 64,
    ensures
        bit64(((b0 as u32) | ((b1 as u32) << 8) | ((b2 as u32) << 16)) as u64, k) == (if k < 8 {
            bit_of(b0, k as u8)
        } else if k < 16 {
            bit_of(b1, (k - 8) as u8)
        } else if k < 24 {
            bit_of(b2, (k - 16) as u8)
        } else {
            false
        }),
{
}

proof fn lemma_put_top_bit(old: u8, v: u8, b: u8)
    by (bit_vector)
    requires
        b < 8,
    ensures
        bit_of((old & 0x7f) | ((v & 1) << 7), b) == (if b == 7 {
            bit64(v as u64, 0)
        } else {
            bit_of(old, b)
        }),
        ((old & 0x7f) | ((v & 1) << 7)) >> 7 == v & 1,
        (((old & 0x7f) | ((v & 1) << 7)) >> 4) & 7 == (old >> 4) & 7,
        ((old & 0x7f) | ((v & 1) << 7)) & 15 == old & 15,
{
}

proof fn lemma_put_next_three(old: u8, v: u8, b: u8)
    by (bit_vector)
    requires
        b < 8,
    ensures
        bit_of((old & 0x8f) | ((v & 7) << 4), b) == (if 4 <= b < 7 {
            bit64(v as u64, (b - 4) as u64)
        } else {
            bit_of(old, b)
        }),
        ((old & 0x8f) | ((v & 7) << 4)) >> 7 == old >> 7,
        (((old & 0x8f) | ((v & 7) << 4)) >> 4) & 7 == v & 7,
        ((old & 0x8f) | ((v & 7) << 4)) & 15 == old & 15,
{
}

proof fn lemma_put_low_four(old: u8, v: u8, b: u8)
    by (bit_vector)
    requires
        b < 8,
    ensures
        bit_of((old & 0xf0) | (v & 15), b) == (if b < 4 {
            bit64(v as u64, b as u64)
        } else {
            bit_of(old, b)
        }),
        ((old & 0xf0) | (v & 15)) >> 7 == old >> 7,
        (((old & 0xf0) | (v & 15)) >> 4) & 7 == (old >> 4) & 7,
        ((old & 0xf0) | (v & 15)) & 15 == v & 15,
{
}

proof fn lemma_byte_of_word(v: u32, j: u32, b: u8)
    by (bit_vector)
    requires
        j < 3,
        b < 8,
    ensures
        bit_of(((v >> (8 * j)) & 0xff) as u8, b) == bit64(v as u64, (8 * j + (b as u32)) as u64),
{
}

proof fn lemma_word_of_bytes(v: u32)
    by (bit_vector)
    ensures
        (((v >> 0) & 0xff) as u8 as u32) | ((((v >> 8) & 0xff) as u8 as u32) << 8) | ((((v >> 16)
            & 0xff) as u8 as u32) << 16) == v & 0xff_ffff,
{
}

/// The widths of the four fields.
proof fn lemma_widths()
    ensures
        B1::BITS == 1,
        B3::BITS == 3,
        B4::BITS == 4,
        B24::BITS == 24,
{
    B1::lemma_bits();
    B3::lemma_bits();
    B4::lemma_bits();
    B24::lemma_bits();
}

impl MyFourBytes {
    /// A structure with every field zero.
    pub fn new() -> (s: Self)
        ensures
            s@ == (FourBytes { a: 0, b: 0, c: 0, d: 0 }),
    {
        let s = MyFourBytes { data: [0u8; 4] };
        proof {
            assert(0u8 >> 7 == 0 && (0u8 >> 4) & 7 == 0 && 0u8 & 15 == 0 && ((0u8 as u32) | ((
            0u8 as u32) << 8) | ((0u8 as u32) << 16)) == 0) by (bit_vector);
        }
        s
    }

    /// The fields stay within their widths.
    pub proof fn lemma_fields_bounded(&self)
        ensures
            self@.a <= 1,
            self@.b <= 7,
            self@.c <= 15,
            self@.d <= 0xff_ffff,
    {
        let x = self.data[3];
        let b0 = self.data[0];
        let b1 = self.data[1];
        let b2 = self.data[2];
        assert(x >> 7 <= 1 && (x >> 4) & 7 <= 7 && x & 15 <= 15) by (bit_vector);
        assert(((b0 as u32) | ((b1 as u32) << 8) | ((b2 as u32) << 16)) <= 0xff_ffff)
            by (bit_vector);
    }

    /// The field `a`.
    pub fn get_a(&self) -> (r: <B1 as Specifier>::T)
        ensures
            r == self@.a,
    {
        proof {
            lemma_widths();
        }
        let raw = read_field(self.data.as_slice(), B1::BITS, B3::BITS + B4::BITS + B24::BITS);
        proof {
            let x = self.data[3];
            assert forall|k: u64| k < 64 implies bit64(raw, k) == bit64((x >> 7) as u64, k) by {
                lemma_top_bit(x, k);
                assert(bit_at(self.data@, 31) == bit_of(x, 7));
            }
            lemma_word_from_bits(raw, (x >> 7) as u64);
        }
        B1::convert_from_u64(raw)
    }

    /// The field `b`.
    pub fn get_b(&self) -> (r: <B3 as Specifier>::T)
        ensures
            r == self@.b,
    {
        proof {
            lemma_widths();
        }
        let raw = read_field(self.data.as_slice(), B3::BITS, B4::BITS + B24::BITS);
        proof {
            let x = self.data[3];
            assert forall|k: u64| k < 64 implies bit64(raw, k) == bit64(
                ((x >> 4) & 7) as u64,
                k,
            ) by {
                lemma_next_three(x, k);
                if k < 3 {
                    assert(bit_at(self.data@, 28 + k) == bit_of(x, (4 + k) as u8));
                }
            }
            lemma_word_from_bits(raw, ((x >> 4) & 7) as u64);
        }
        B3::convert_from_u64(raw)
    }

    /// The field `c`.
    pub fn get_c(&self) -> (r: <B4 as Specifier>::T)
        ensures
            r == self@.c,
    {
        proof {
            lemma_widths();
        }
        let raw = read_field(self.data.as_slice(), B4::BITS, B24::BITS);
        proof {
            let x = self.data[3];
            assert forall|k: u64| k < 64 implies bit64(raw, k) == bit64((x & 15) as u64, k) by {
                lemma_low_four(x, k);
                if k < 4 {
                    assert(bit_at(self.data@, 24 + k) == bit_of(x, k as u8));
                }
            }
            lemma_word_from_bits(raw, (x & 15) as u64);
        }
        B4::convert_from_u64(raw)
    }

    /// The field `d`.
    pub fn get_d(&self) -> (r: <B24 as Specifier>::T)
        ensures
            r == self@.d,
    {
        proof {
            lemma_widths();
        }
        let raw = read_field(self.data.as_slice(), B24::BITS, 0);
        proof {
            let b0 = self.data[0];
            let b1 = self.data[1];
            let b2 = self.data[2];
            let d = (b0 as u32) | ((b1 as u32) << 8) | ((b2 as u32) << 16);
            assert forall|k: u64| k < 64 implies bit64(raw, k) == bit64(d as u64, k) by {
                lemma_three_bytes(b0, b1, b2, k);
                if k < 24 {
                    assert(bit_at(self.data@, 0 + k) == bit_of(
                        self.data[(k / 8) as int],
                        (k % 8) as u8,
                    ));
                }
            }
            lemma_word_from_bits(raw, d as u64);
        }
        B24::convert_from_u64(raw)
    }

    /// Stores the lowest bit of `v` in the field `a`.
    pub fn set_a(&mut self, v: <B1 as Specifier>::T)
        ensures
            final(self)@ == (FourBytes { a: v & 1, ..old(self)@ }),
    {
        proof {
            lemma_widths();
        }
        let raw = B1::convert_to_u64(v);
        write_field(&mut self.data, B1::BITS, B3::BITS + B4::BITS + B24::BITS, raw);
        proof {
            let before = old(self).data@;
            let after = self.data@;
            Self::lemma_bytes_kept(before, after, 24);
            let x = before[3];
            let y = (x & 0x7f) | ((v & 1) << 7);
            assert forall|b: u8| b < 8 implies bit_of(after[3], b) == bit_of(y, b) by {
                lemma_put_top_bit(x, v, b);
                assert(bit_at(after, 24 + b) == bit_of(after[3], b));
                assert(bit_at(before, 24 + b) == bit_of(x, b));
            }
            lemma_byte_from_bits(after[3], y);
            lemma_put_top_bit(x, v, 0);
        }
    }

    /// Stores the lowest three bits of `v` in the field `b`.
    pub fn set_b(&mut self, v: <B3 as Specifier>::T)
        ensures
            final(self)@ == (FourBytes { b: v & 7, ..old(self)@ }),
    {
        proof {
            lemma_widths();
        }
        let raw = B3::convert_to_u64(v);
        write_field(&mut self.data, B3::BITS, B4::BITS + B24::BITS, raw);
        proof {
            let before = old(self).data@;
            let after = self.data@;
            Self::lemma_bytes_kept(before, after, 24);
            let x = before[3];
            let y = (x & 0x8f) | ((v & 7) << 4);
            assert forall|b: u8| b < 8 implies bit_of(after[3], b) == bit_of(y, b) by {
                lemma_put_next_three(x, v, b);
                assert(bit_at(after, 24 + b) == bit_of(after[3], b));
                assert(bit_at(before, 24 + b) == bit_of(x, b));
            }
            lemma_byte_from_bits(after[3], y);
            lemma_put_next_three(x, v, 0);
        }
    }

    /// Stores the lowest four bits of `v` in the field `c`.
    pub fn set_c(&mut self, v: <B4 as Specifier>::T)
        ensures
            final(self)@ == (FourBytes { c: v & 15, ..old(self)@ }),
    {
        proof {
            lemma_widths();
        }
        let raw = B4::convert_to_u64(v);
        write_field(&mut self.data, B4::BITS, B24::BITS, raw);
        proof {
            let before = old(self).data@;
            let after = self.data@;
            Self::lemma_bytes_kept(before, after, 24);
            let x = before[3];
            let y = (x & 0xf0) | (v & 15);
            assert forall|b: u8| b < 8 implies bit_of(after[3], b) == bit_of(y, b) by {
                lemma_put_low_four(x, v, b);
                assert(bit_at(after, 24 + b) == bit_of(after[3], b));
                assert(bit_at(before, 24 + b) == bit_of(x, b));
            }
            lemma_byte_from_bits(after[3], y);
            lemma_put_low_four(x, v, 0);
        }
    }

    /// Stores the lowest twenty-four bits of `v` in the field `d`.
    pub fn set_d(&mut self, v: <B24 as Specifier>::T)
        ensures
            final(self)@ == (FourBytes { d: v & 0xff_ffff, ..old(self)@ }),
    {
        proof {
            lemma_widths();
        }
        let raw = B24::convert_to_u64(v);
        write_field(&mut self.data, B24::BITS, 0, raw);
        proof {
            let before = old(self).data@;
            let after = self.data@;
            assert forall|b: u8| b < 8 implies bit_of(after[3], b) == bit_of(before[3], b) by {
                assert(bit_at(after, 24 + b) == bit_of(after[3], b));
                assert(bit_at(before, 24 + b) == bit_of(before[3], b));
            }
            lemma_byte_from_bits(after[3], before[3]);
            assert forall|j: int| 0 <= j < 3 implies after[j] == ((v >> ((8 * j) as u32))
                & 0xff) as u8 by {
                let y = ((v >> ((8 * j) as u32)) & 0xff) as u8;
                assert forall|b: u8| b < 8 implies bit_of(after[j], b) == bit_of(y, b) by {
                    lemma_byte_of_word(v, j as u32, b);
                    assert(bit_at(after, 8 * j + b) == bit_of(after[j], b));
                }
                lemma_byte_from_bits(after[j], y);
            }
            lemma_word_of_bytes(v);
        }
    }

    /// The four bytes, the lowest first.
    pub closed spec fn bytes(&self) -> Seq<u8> {
        self.data@
    }

    /// How the fields lie in the bytes.
    pub proof fn lemma_bytes(&self)
        ensures
            self.bytes().len() == 4,
            self.bytes()[0] == (self@.d & 0xff) as u8,
            self.bytes()[1] == ((self@.d >> 8) & 0xff) as u8,
            self.bytes()[2] == ((self@.d >> 16) & 0xff) as u8,
            self.bytes()[3] == (self@.a << 7) | (self@.b << 4) | self@.c,
    {
        let x = self.data[3];
        let b0 = self.data[0];
        let b1 = self.data[1];
        let b2 = self.data[2];
        assert(((x >> 7) << 7) | (((x >> 4) & 7) << 4) | (x & 15) == x) by (bit_vector);
        assert({
            let d = (b0 as u32) | ((b1 as u32) << 8) | ((b2 as u32) << 16);
            &&& b0 == (d & 0xff) as u8
            &&& b1 == ((d >> 8) & 0xff) as u8
            &&& b2 == ((d >> 16) & 0xff) as u8
        }) by (bit_vector);
    }

    /// Shows the four bytes, one to a line and the highest first.
    pub fn to_string(&self) -> (text: String)
        ensures
            text@ == listing(self.bytes(), 4),
    {
        show(self.data.as_slice())
    }

    /// The bytes below bit `from` are the same where the bits below it are.
    proof fn lemma_bytes_kept(before: Seq<u8>, after: Seq<u8>, from: int)
        requires
            before.len() == after.len(),
            from % 8 == 0,
            0 <= from <= 8 * before.len(),
            forall|p: int| 0 <= p < from ==> bit_at(after, p) == bit_at(before, p),
        ensures
            forall|j: int| 0 <= j < from / 8 ==> after[j] == before[j],
    {
        assert forall|j: int| 0 <= j < from / 8 implies after[j] == before[j] by {
            assert forall|b: u8| b < 8 implies bit_of(after[j], b) == bit_of(before[j], b) by {
                assert(bit_at(after, 8 * j + b) == bit_of(after[j], b));
                assert(bit_at(before, 8 * j + b) == bit_of(before[j], b));
            }
            lemma_byte_from_bits(after[j], before[j]);
        }
    }
}

} // verus!

