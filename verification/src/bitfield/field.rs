//! Reading and writing one field of a packed structure.
//!
//! The structure is a string of bytes whose first byte holds the bits
//! `0 .. 8`. A field of `bits` bits at `offset` occupies the bits
//! `offset .. offset + bits` of that string.

use crate::bitfield::bits::{
    bit64, bit_at, bit_of, create_bit_masks, create_value_bits, create_value_from_le_bytes,
    lemma_word_from_bits,
};
use crate::bitfield::bits::lemma_word_below;
use crate::text::{decimal, to_decimal};
use vstd::prelude::*;
use vstd::string::StringExecFns;

verus! {

proof fn lemma_masked_bit(d: u8, m: u8, b: u8)
    by (bit_vector)
    requires
        b < 8,
    ensures
        bit_of(d & m, b) == (bit_of(d, b) && bit_of(m, b)),
{
}

proof fn lemma_merged_bit(d: u8, m: u8, x: u8, b: u8)
    by (bit_vector)
    requires
        b < 8,
    ensures
        bit_of((d & !m) | (m & x), b) == (if bit_of(m, b) {
            bit_of(x, b)
        } else {
            bit_of(d, b)
        }),
{
}

/// Whether writing a field of `bits` bits at `offset` into `len` bytes stays
/// within the eight bytes that a value is spread over.
pub open spec fn writable(len: int, bits: int, offset: int) -> bool {
    bits + offset % 8 < 64 || len <= offset / 8 + 8
}

/// Whether `value` is what the field of `bits` bits at `offset` reads as.
///
/// Bit `k` of the value is bit `offset + k` of the structure, as far as it
/// belongs to the field and lies within the window of 64 bits that starts
/// at the byte boundary below the field.
pub open spec fn field_read(data: Seq<u8>, bits: int, offset: int, value: u64) -> bool {
    forall|k: u64|
        k < 64 ==> (#[trigger] bit64(value, k) <==> k < bits && k + offset % 8 < 64 && bit_at(
            data,
            offset + k,
        ))
}

/// Whether `after` is `before` with the low `bits` bits of `v` written to
/// the field at `offset`: the bits of the field are those of `v`, and every
/// other bit is as it was.
pub open spec fn field_written(before: Seq<u8>, after: Seq<u8>, bits: int, offset: int, v: u64) -> bool {
    &&& after.len() == before.len()
    &&& forall|p: int| #[trigger]
        bit_at(after, p) <==> (if offset <= p < offset + bits {
            p < 8 * before.len() && bit64(v, (p - offset) as u64)
        } else {
            bit_at(before, p)
        })
}

/// A field reads as one value only.
pub proof fn lemma_read_unique(data: Seq<u8>, bits: int, offset: int, first: u64, second: u64)
    requires
        field_read(data, bits, offset, first),
        field_read(data, bits, offset, second),
    ensures
        first == second,
{
    assert forall|k: u64| k < 64 implies bit64(first, k) == bit64(second, k) by {
        assert(bit64(first, k) <==> k < bits && k + offset % 8 < 64 && bit_at(data, offset + k));
        assert(bit64(second, k) <==> k < bits && k + offset % 8 < 64 && bit_at(data, offset + k));
    }
    lemma_word_from_bits(first, second);
}

/// A field that lies within the structure and within its window of 64
/// bits reads as the low bits of what was written to it.
pub proof fn lemma_read_back(
    before: Seq<u8>,
    after: Seq<u8>,
    bits: int,
    offset: int,
    v: u64,
    value: u64,
)
    requires
        0 <= offset,
        0 <= bits,
        offset + bits <= 8 * before.len(),
        bits + offset % 8 <= 64,
        field_written(before, after, bits, offset, v),
        field_read(after, bits, offset, value),
    ensures
        forall|k: u64| k < 64 ==> (#[trigger] bit64(value, k) <==> k < bits && bit64(v, k)),
        bits >= 64 ==> value == v,
{
    assert forall|k: u64| k < 64 implies (#[trigger] bit64(value, k) <==> k < bits && bit64(
        v,
        k,
    )) by {
        assert(bit64(value, k) <==> k < bits && k + offset % 8 < 64 && bit_at(after, offset + k));
        if k < bits {
            let p = offset + k;
            assert(bit_at(after, p) <==> p < 8 * before.len() && bit64(v, (p - offset) as u64));
        }
    }
    if bits >= 64 {
        lemma_word_from_bits(value, v);
    }
}

/// Writing a field leaves every field that lies apart from it as it reads.
pub proof fn lemma_other_field_kept(
    before: Seq<u8>,
    after: Seq<u8>,
    bits: int,
    offset: int,
    v: u64,
    other_bits: int,
    other_offset: int,
    value: u64,
)
    requires
        0 <= offset,
        0 <= other_offset,
        other_offset + other_bits <= offset || offset + bits <= other_offset,
        field_written(before, after, bits, offset, v),
        field_read(before, other_bits, other_offset, value),
    ensures
        field_read(after, other_bits, other_offset, value),
{
    assert forall|k: u64| k < 64 implies (#[trigger] bit64(value, k) <==> k < other_bits && k
        + other_offset % 8 < 64 && bit_at(after, other_offset + k)) by {
        assert(bit64(value, k) <==> k < other_bits && k + other_offset % 8 < 64 && bit_at(
            before,
            other_offset + k,
        ));
        if k < other_bits {
            let p = other_offset + k;
            assert(bit_at(after, p) <==> bit_at(before, p));
        }
    }
}

/// Reads the field of `bits` bits at `offset`.
///
/// Bit `k` of the result is bit `offset + k` of the structure. A field that
/// does not start on a byte boundary is read through a window of 64 bits
/// that starts at the byte boundary below it, so its bits above that window
/// read as clear.
pub fn read_field(data: &[u8], bits: usize, offset: usize) -> (value: u64)
    requires
        bits + 7 <= usize::MAX,
    ensures
        field_read(data@, bits as int, offset as int, value),
{
    let data_len = data.len();
    let arr_offset = offset / 8;
    let bit_offset = (offset % 8) as u8;
    let masks = create_bit_masks(bits, bit_offset);
    let count = masks.len();
    let mut v: Vec<u8> = Vec::new();
    let mut index: usize = 0;
    while index < count && index + arr_offset < data_len
        invariant
            index <= count,
            count == masks.len(),
            count == (bits + bit_offset) / 8 + 1,
            arr_offset == offset / 8,
            data_len == data.len(),
            v.len() == index,
            index + arr_offset <= data_len || index == 0,
            forall|j: int|
                0 <= j < index ==> #[trigger] v[j] == data[j + arr_offset] & masks[count - 1 - j],
        decreases count - index,
    {
        let mask = masks[count - 1 - index];
        v.push(data[index + arr_offset] & mask);
        index += 1;
    }
    let value = create_value_from_le_bytes(v.as_slice(), bit_offset);
    proof {
        assert forall|k: u64| k < 64 implies (#[trigger] bit64(value, k) <==> k < bits && k + offset
            % 8 < 64 && bit_at(data@, offset + k)) by {
            let q = k + bit_offset;
            let j = q / 8;
            let b = (q % 8) as u8;
            assert(offset + k == 8 * (arr_offset + j) + b);
            if q < 64 && j < index {
                lemma_masked_bit(data[j + arr_offset], masks[count - 1 - j], b);
                assert(bit_of(masks[count - 1 - j], b) <==> bit_offset <= 8 * j + b < bits
                    + bit_offset);
            }
        }
    }
    value
}

/// Writes the low `bits` bits of `v` into the field at `offset`, and leaves
/// every other bit of the structure as it was.
pub fn write_field(data: &mut [u8], bits: usize, offset: usize, v: u64)
    requires
        bits + 7 <= usize::MAX,
        writable(old(data).len() as int, bits as int, offset as int),
    ensures
        field_written(old(data)@, final(data)@, bits as int, offset as int, v),
{
    let data_len = data.len();
    let arr_offset = offset / 8;
    let bit_offset = (offset % 8) as u8;
    let value_bits = create_value_bits(v, bit_offset);
    let masks = create_bit_masks(bits, bit_offset);
    let count = masks.len();
    let mut index: usize = 0;
    while index < count && index + arr_offset < data_len
        invariant
            index <= count,
            count == masks.len(),
            count == (bits + bit_offset) / 8 + 1,
            count <= 8 || data_len <= arr_offset + 8,
            arr_offset == offset / 8,
            value_bits.len() == 8,
            data_len == data.len(),
            data_len == old(data).len(),
            index + arr_offset <= data_len || index == 0,
            forall|i: int|
                0 <= i < data_len ==> #[trigger] data[i] == (if arr_offset <= i < arr_offset
                    + index {
                    (old(data)[i] & !masks[count - 1 - (i - arr_offset)]) | (masks[count - 1 - (i
                        - arr_offset)] & value_bits[i - arr_offset])
                } else {
                    old(data)[i]
                }),
        decreases count - index,
    {
        let i = index + arr_offset;
        let mask = masks[count - 1 - index];
        let merged = (data[i] & !mask) | (mask & value_bits[index]);
        data[i] = merged;
        index += 1;
    }
    proof {
        assert forall|p: int| #[trigger]
            bit_at(data@, p) <==> (if offset <= p < offset + bits {
                p < 8 * data_len && bit64(v, (p - offset) as u64)
            } else {
                bit_at(old(data)@, p)
            }) by {
            if 0 <= p < 8 * data_len {
                let i = p / 8;
                let b = (p % 8) as u8;
                let j = i - arr_offset;
                if arr_offset <= i < arr_offset + index {
                    let m = masks[count - 1 - j];
                    lemma_merged_bit(old(data)[i], m, value_bits[j], b);
                    assert(bit_of(m, b) <==> bit_offset <= 8 * j + b < bits + bit_offset);
                    assert(bit_at(value_bits@, 8 * j + b) <==> 8 * j + b >= bit_offset && bit64(
                        v,
                        (8 * j + b - bit_offset) as u64,
                    ));
                    assert(p - offset == 8 * j + b - bit_offset);
                }
            }
        }
    }
}

/// A field of fewer than 64 bits reads as a number below two to the power
/// of its width.
pub proof fn lemma_read_bounded(data: Seq<u8>, bits: int, offset: int, value: u64)
    requires
        0 <= bits < 64,
        field_read(data, bits, offset, value),
    ensures
        value < (1u64 << (bits as u64)),
{
    assert forall|k: u64| bits as u64 <= k < 64 implies !bit64(value, k) by {
        assert(bit64(value, k) <==> k < bits && k + offset % 8 < 64 && bit_at(data, offset + k));
    }
    lemma_word_below(value, bits as u64);
}

/// The eight binary digits of a byte, the highest first.
pub open spec fn binary(d: u8) -> Seq<char> {
    Seq::new(
        8,
        |i: int|
            if bit_of(d, (7 - i) as u8) {
                '1'
            } else {
                '0'
            },
    )
}

/// The line that shows byte `i` of a structure: its number in a column of
/// two, then its binary digits.
pub open spec fn byte_line(i: nat, d: u8) -> Seq<char> {
    (if i < 10 {
        " "@ + decimal(i)
    } else {
        decimal(i)
    }) + ": 0b"@ + binary(d) + "\n"@
}

/// The lines that show the first `n` bytes of a structure, the highest
/// byte first.
pub open spec fn listing(data: Seq<u8>, n: nat) -> Seq<char>
    decreases n,
{
    if n == 0 {
        Seq::empty()
    } else {
        byte_line((n - 1) as nat, data[n - 1]) + listing(data, (n - 1) as nat)
    }
}

/// Shows the bytes of a structure, one to a line and the highest first.
pub fn show(data: &[u8]) -> (text: String)
    ensures
        text@ == listing(data@, data.len() as nat),
{
    let mut text = String::new();
    let mut i: usize = data.len();
    proof {
        reveal_strlit("0");
        reveal_strlit("1");
    }
    while i > 0
        invariant
            i <= data.len(),
            text@ + listing(data@, i as nat) == listing(data@, data.len() as nat),
            "0"@ == seq!['0'],
            "1"@ == seq!['1'],
        decreases i,
    {
        let ghost before = text@;
        i -= 1;
        if i < 10 {
            text.append(" ");
        }
        let number = to_decimal(i);
        text.append(number.as_str());
        text.append(": 0b");
        let d = data[i];
        let ghost head = text@;
        let mut k: u8 = 8;
        while k > 0
            invariant
                k <= 8,
                text@ == head + binary(d).take(8 - k),
                "0"@ == seq!['0'],
                "1"@ == seq!['1'],
            decreases k,
        {
            k -= 1;
            if (d >> k) & 1 == 1 {
                text.append("1");
            } else {
                text.append("0");
            }
            assert(binary(d).take(8 - k) =~= binary(d).take(8 - k - 1).push(binary(d)[7 - k]));
        }
        text.append("\n");
        proof {
            assert(binary(d).take(8) =~= binary(d));
            let line = byte_line(i as nat, d);
            assert(text@ =~= before + line);
            assert(before + line + listing(data@, i as nat) =~= before + (line + listing(
                data@,
                i as nat,
            )));
        }
    }
    assert(text@ + Seq::<char>::empty() =~= text@);
    text
}

} // verus!
