//! Byte-level helpers for packing a field into a little-endian bit string.

use vstd::bytes::{spec_u64_to_le_bytes_open, spec_u64_to_le_bytes_to_open, u64_to_le_bytes};
use vstd::prelude::*;

verus! {

/// Bit `b` of a byte, counted from the least significant one.
pub open spec fn bit_of(x: u8, b: u8) -> bool {
    (x >> b) & 1 == 1
}

/// Bit `k` of a 64-bit word, counted from the least significant one.
pub open spec fn bit64(x: u64, k: u64) -> bool {
    (x >> k) & 1 == 1
}

/// Bit `p` of a string of bytes, the first byte holding the bits `0 .. 8`.
/// Outside the string every bit is clear.
pub open spec fn bit_at(bytes: Seq<u8>, p: int) -> bool {
    0 <= p < 8 * bytes.len() && bit_of(bytes[p / 8], (p % 8) as u8)
}

proof fn lemma_full_byte(b: u8)
    by (bit_vector)
    requires
        b < 8,
    ensures
        bit_of(0xff, b),
{
}

proof fn lemma_low_mask(k: u8, b: u8)
    by (bit_vector)
    requires
        k < 8,
        b < 8,
    ensures
        bit_of(!(0xffu8 << k), b) == (b < k),
{
}

proof fn lemma_high_mask(o: u8, b: u8)
    by (bit_vector)
    requires
        o < 8,
        b < 8,
    ensures
        bit_of(0xffu8 & (0xffu8 << o), b) == (b >= o),
{
}

proof fn lemma_window_mask(k: u8, o: u8, b: u8)
    by (bit_vector)
    requires
        k < 8,
        o < 8,
        b < 8,
    ensures
        bit_of(!(0xffu8 << k) & (0xffu8 << o), b) == (o <= b < k),
{
}

/// Masks that select the bits `offset .. offset + field_size` of a bit string.
///
/// The masks come most significant byte first: the last one covers the bits
/// `0 .. 8` of the string, the one before it the bits `8 .. 16`, and so on.
pub fn create_bit_masks(field_size: usize, offset: u8) -> (masks: Vec<u8>)
    requires
        offset < 8,
        field_size + offset <= usize::MAX,
    ensures
        masks.len() == (field_size + offset) / 8 + 1,
        forall|i: int, b: u8|
            0 <= i < masks.len() && b < 8 ==> (#[trigger] bit_of(masks[i], b) <==> offset <= 8 * (
            masks.len() - 1 - i) + b < field_size + offset),
{
    let high_bit = field_size + offset as usize;
    let size = high_bit / 8;
    let mut fields: Vec<u8> = Vec::new();
    let mut n: usize = 0;
    while n <= size
        invariant
            n <= size + 1,
            size == high_bit / 8,
            fields.len() == n,
            forall|i: int| 0 <= i < n ==> fields[i] == 0xff,
        decreases size + 1 - n,
    {
        fields.push(0xff);
        n += 1;
    }
    let top: u8 = (high_bit % 8) as u8;
    let first_mask: u8 = !(0xffu8 << top);
    let last_mask: u8 = 0xffu8 << offset;
    fields.set(0, first_mask);
    let last = fields.len() - 1;
    let low = fields[last] & last_mask;
    fields.set(last, low);
    proof {
        assert forall|i: int, b: u8| 0 <= i < fields.len() && b < 8 implies (#[trigger] bit_of(
            fields[i],
            b,
        ) <==> offset <= 8 * (fields.len() - 1 - i) + b < field_size + offset) by {
            if size == 0 {
                lemma_window_mask(top, offset, b);
            } else if i == 0 {
                lemma_low_mask(top, b);
            } else if i == last {
                lemma_high_mask(offset, b);
            } else {
                lemma_full_byte(b);
            }
        }
    }
    fields
}

proof fn lemma_le_byte(v: u64, j: u64, b: u8)
    by (bit_vector)
    requires
        j < 8,
        b < 8,
    ensures
        bit_of(((v >> (8 * j)) & 0xff) as u8, b) == bit64(v, (8 * j + (b as u64)) as u64),
{
}

proof fn lemma_shifted_first(x: u8, o: u8, b: u8)
    by (bit_vector)
    requires
        o < 8,
        b < 8,
    ensures
        bit_of((x << o) | 0, b) == (b >= o && bit_of(x, (b - o) as u8)),
{
}

proof fn lemma_shifted_next(x: u8, prev: u8, o: u8, b: u8)
    by (bit_vector)
    requires
        0 < o < 8,
        b < 8,
    ensures
        bit_of((x << o) | (prev >> ((8 - o) as u8)), b) == (if b >= o {
            bit_of(x, (b - o) as u8)
        } else {
            bit_of(prev, (8 + b - o) as u8)
        }),
{
}

/// The eight bytes of `v` shifted left by `bit_offset` bits, least significant
/// byte first. Bits shifted past the eighth byte are dropped.
pub fn create_value_bits(v: u64, bit_offset: u8) -> (bytes: Vec<u8>)
    requires
        bit_offset < 8,
    ensures
        bytes.len() == 8,
        forall|p: int|
            0 <= p < 64 ==> (#[trigger] bit_at(bytes@, p) <==> p >= bit_offset && bit64(
                v,
                (p - bit_offset) as u64,
            )),
{
    let src = u64_to_le_bytes(v);
    proof {
        spec_u64_to_le_bytes_to_open(v);
        assert forall|j: int, b: u8| 0 <= j < 8 && b < 8 implies (#[trigger] bit_of(src[j], b)
            <==> bit64(v, (8 * j + b) as u64)) by {
            lemma_le_byte(v, j as u64, b);
            assert(v >> 0 == v) by (bit_vector);
            let open = spec_u64_to_le_bytes_open(v);
            assert(src@ == open);
            assert(open[j] == ((v >> ((8 * j) as u64)) & 0xff) as u8) by {
                assert(open[0] == (v & 0xff) as u8);
                assert(open[1] == ((v >> 8) & 0xff) as u8);
                assert(open[2] == ((v >> 16) & 0xff) as u8);
                assert(open[3] == ((v >> 24) & 0xff) as u8);
                assert(open[4] == ((v >> 32) & 0xff) as u8);
                assert(open[5] == ((v >> 40) & 0xff) as u8);
                assert(open[6] == ((v >> 48) & 0xff) as u8);
                assert(open[7] == ((v >> 56) & 0xff) as u8);
            }
        }
    }
    let mut out: Vec<u8> = Vec::new();
    let mut cum: u8 = 0;
    let mut i: usize = 0;
    while i < 8
        invariant
            i <= 8,
            bit_offset < 8,
            src.len() == 8,
            out.len() == i,
            forall|j: int, b: u8|
                0 <= j < 8 && b < 8 ==> (#[trigger] bit_of(src[j], b) <==> bit64(
                    v,
                    (8 * j + b) as u64,
                )),
            cum == (if i == 0 || bit_offset == 0 {
                0u8
            } else {
                src[i - 1] >> ((8 - bit_offset) as u8)
            }),
            forall|j: int, b: u8|
                0 <= j < i && b < 8 ==> (#[trigger] bit_of(out[j], b) <==> 8 * j + b >= bit_offset
                    && bit64(v, (8 * j + b - bit_offset) as u64)),
        decreases 8 - i,
    {
        let x = src[i];
        let left = cum;
        cum = if bit_offset == 0 { 0 } else { x >> (8 - bit_offset) };
        let y = (x << bit_offset) | left;
        proof {
            assert forall|b: u8| b < 8 implies (#[trigger] bit_of(y, b) <==> 8 * i + b
                >= bit_offset && bit64(v, (8 * i + b - bit_offset) as u64)) by {
                if i == 0 || bit_offset == 0 {
                    lemma_shifted_first(x, bit_offset, b);
                    if b >= bit_offset {
                        assert(bit_of(src[i as int], (b - bit_offset) as u8) <==> bit64(
                            v,
                            (8 * i + (b - bit_offset)) as u64,
                        ));
                    }
                } else {
                    lemma_shifted_next(x, src[i - 1], bit_offset, b);
                    if b >= bit_offset {
                        assert(bit_of(src[i as int], (b - bit_offset) as u8) <==> bit64(
                            v,
                            (8 * i + (b - bit_offset)) as u64,
                        ));
                    } else {
                        assert(bit_of(src[i - 1], (8 + b - bit_offset) as u8) <==> bit64(
                            v,
                            (8 * (i - 1) + (8 + b - bit_offset)) as u64,
                        ));
                    }
                }
            }
        }
        out.push(y);
        i += 1;
    }
    proof {
        assert forall|p: int| 0 <= p < 64 implies (#[trigger] bit_at(out@, p) <==> p >= bit_offset
            && bit64(v, (p - bit_offset) as u64)) by {
            let j = p / 8;
            let b = (p % 8) as u8;
            assert(bit_of(out[j], b) <==> 8 * j + b >= bit_offset && bit64(
                v,
                (8 * j + b - bit_offset) as u64,
            ));
        }
    }
    out
}

proof fn lemma_push_byte(c: u64, x: u8, p: u64)
    by (bit_vector)
    requires
        p < 64,
    ensures
        bit64((c << 8) | (x as u64), p) == (if p < 8 {
            bit_of(x, p as u8)
        } else {
            bit64(c, (p - 8) as u64)
        }),
{
}

proof fn lemma_shift_down(c: u64, o: u64, k: u64)
    by (bit_vector)
    requires
        o < 64,
        k < 64,
    ensures
        bit64(c >> o, k) == (k + o < 64 && bit64(c, (k + o) as u64)),
{
}

/// Reads a string of bytes as a number, least significant byte first, and
/// shifts it right by `offset` bits. Only the bits `0 .. 64` of the string
/// count.
pub fn create_value_from_le_bytes(bytes: &[u8], offset: u8) -> (value: u64)
    requires
        offset < 64,
    ensures
        forall|k: u64|
            k < 64 ==> (#[trigger] bit64(value, k) <==> k + offset < 64 && bit_at(
                bytes@,
                k + offset,
            )),
{
    let mut cum: u64 = 0;
    let mut i: usize = bytes.len();
    assert forall|p: u64| p < 64 implies !#[trigger] bit64(0, p) by {
        assert(!bit64(0, p)) by (bit_vector)
            requires
                p < 64,
        ;
    }
    while i > 0
        invariant
            i <= bytes.len(),
            forall|p: u64|
                p < 64 ==> (#[trigger] bit64(cum, p) <==> bit_at(bytes@.skip(i as int), p as int)),
        decreases i,
    {
        i -= 1;
        let next = (cum << 8) | (bytes[i] as u64);
        proof {
            let rest = bytes@.skip(i + 1);
            let here = bytes@.skip(i as int);
            assert forall|p: u64| p < 64 implies (#[trigger] bit64(next, p) <==> bit_at(
                here,
                p as int,
            )) by {
                lemma_push_byte(cum, bytes[i as int], p);
                if p >= 8 {
                    let q = (p - 8) as u64;
                    assert(bit64(cum, q) <==> bit_at(rest, q as int));
                    if (p as int) / 8 < here.len() {
                        assert(here[(p as int) / 8] == rest[(q as int) / 8]);
                    }
                }
            }
        }
        cum = next;
    }
    proof {
        assert(bytes@.skip(0) == bytes@);
        assert forall|k: u64| k < 64 implies (#[trigger] bit64(cum >> offset, k) <==> k + offset
            < 64 && bit_at(bytes@, k + offset)) by {
            lemma_shift_down(cum, offset as u64, k);
            if k + offset < 64 {
                assert(bit64(cum, (k + offset) as u64) <==> bit_at(bytes@, k + offset));
            }
        }
    }
    cum >> offset
}

proof fn lemma_shift_step(x: u64, y: u64, n: u64)
    by (bit_vector)
    requires
        n < 63,
        x >> ((n + 1) as u64) == y >> ((n + 1) as u64),
        bit64(x, n) == bit64(y, n),
    ensures
        x >> n == y >> n,
{
}

proof fn lemma_shift_top(x: u64, y: u64)
    by (bit_vector)
    requires
        bit64(x, 63) == bit64(y, 63),
    ensures
        x >> 63 == y >> 63,
{
}

proof fn lemma_same_above(x: u64, y: u64, n: u64)
    requires
        n < 64,
        forall|k: u64| n <= k < 64 ==> bit64(x, k) == bit64(y, k),
    ensures
        x >> n == y >> n,
    decreases 64 - n,
{
    if n == 63 {
        lemma_shift_top(x, y);
    } else {
        lemma_same_above(x, y, (n + 1) as u64);
        lemma_shift_step(x, y, n);
    }
}

/// Two words with the same bits are the same word.
pub proof fn lemma_word_from_bits(x: u64, y: u64)
    requires
        forall|k: u64| k < 64 ==> bit64(x, k) == bit64(y, k),
    ensures
        x == y,
{
    lemma_same_above(x, y, 0);
    assert(x >> 0 == x && y >> 0 == y) by (bit_vector);
}

/// A word whose bits from `n` upwards are clear is below `2^n`.
pub proof fn lemma_word_below(x: u64, n: u64)
    requires
        n < 64,
        forall|k: u64| n <= k < 64 ==> !bit64(x, k),
    ensures
        x < (1u64 << n),
{
    assert forall|k: u64| n <= k < 64 implies bit64(x, k) == bit64(0, k) by {
        assert(!bit64(0, k)) by (bit_vector)
            requires
                k < 64,
        ;
    }
    lemma_same_above(x, 0, n);
    assert(x < (1u64 << n)) by (bit_vector)
        requires
            n < 64,
            x >> n == 0u64 >> n,
    ;
}

/// Two bytes with the same bits are the same byte.
pub proof fn lemma_byte_from_bits(x: u8, y: u8)
    requires
        forall|b: u8| b < 8 ==> bit_of(x, b) == bit_of(y, b),
    ensures
        x == y,
{
    assert(bit_of(x, 0) == bit_of(y, 0));
    assert(bit_of(x, 1) == bit_of(y, 1));
    assert(bit_of(x, 2) == bit_of(y, 2));
    assert(bit_of(x, 3) == bit_of(y, 3));
    assert(bit_of(x, 4) == bit_of(y, 4));
    assert(bit_of(x, 5) == bit_of(y, 5));
    assert(bit_of(x, 6) == bit_of(y, 6));
    assert(bit_of(x, 7) == bit_of(y, 7));
    assert(x == y) by (bit_vector)
        requires
            bit_of(x, 0) == bit_of(y, 0),
            bit_of(x, 1) == bit_of(y, 1),
            bit_of(x, 2) == bit_of(y, 2),
            bit_of(x, 3) == bit_of(y, 3),
            bit_of(x, 4) == bit_of(y, 4),
            bit_of(x, 5) == bit_of(y, 5),
            bit_of(x, 6) == bit_of(y, 6),
            bit_of(x, 7) == bit_of(y, 7),
    ;
}

} // verus!
