use macro_workshop::bitfield::field::{read_field, write_field};
use macro_workshop::bitfield::MyFourBytes;
use macro_workshop::bitfield::Specifier;
use macro_workshop::bitfield::{B1, B16, B24, B3, B33, B64, B8, B9};

#[test]
fn new_structure_is_zero() {
    let s = MyFourBytes::new();
    assert_eq!(s.get_a(), 0);
    assert_eq!(s.get_b(), 0);
    assert_eq!(s.get_c(), 0);
    assert_eq!(s.get_d(), 0);
}

#[test]
fn fields_are_independent() {
    let mut s = MyFourBytes::new();
    s.set_a(1);
    s.set_b(5);
    s.set_c(9);
    s.set_d(0x00ab_cdef);
    assert_eq!(s.get_a(), 1);
    assert_eq!(s.get_b(), 5);
    assert_eq!(s.get_c(), 9);
    assert_eq!(s.get_d(), 0x00ab_cdef);
    s.set_b(0);
    assert_eq!(s.get_a(), 1);
    assert_eq!(s.get_b(), 0);
    assert_eq!(s.get_c(), 9);
    assert_eq!(s.get_d(), 0x00ab_cdef);
}

#[test]
fn setters_keep_the_low_bits_only() {
    let mut s = MyFourBytes::new();
    s.set_a(2);
    assert_eq!(s.get_a(), 0);
    s.set_a(3);
    assert_eq!(s.get_a(), 1);
    s.set_b(0xff);
    assert_eq!(s.get_b(), 7);
    s.set_c(0x1f);
    assert_eq!(s.get_c(), 15);
    s.set_d(0xffff_ffff);
    assert_eq!(s.get_d(), 0x00ff_ffff);
    assert_eq!(s.get_a(), 1);
}

#[test]
fn write_then_read_a_field() {
    let mut data = [0u8; 4];
    write_field(&mut data, 3, 28, 0b101);
    assert_eq!(data, [0, 0, 0, 0b0101_0000]);
    assert_eq!(read_field(&data, 3, 28), 0b101);
    write_field(&mut data, 24, 0, 0x0012_3456);
    assert_eq!(data, [0x56, 0x34, 0x12, 0b0101_0000]);
    assert_eq!(read_field(&data, 24, 0), 0x0012_3456);
    assert_eq!(read_field(&data, 1, 31), 0);
    assert_eq!(read_field(&data, 4, 24), 0);
}

#[test]
fn write_field_across_byte_boundaries() {
    let mut data = [0xffu8; 3];
    write_field(&mut data, 10, 5, 0);
    assert_eq!(data, [0b0001_1111, 0b1000_0000, 0xff]);
    write_field(&mut data, 10, 5, 0b10_0000_0001);
    assert_eq!(data, [0b0011_1111, 0b1100_0000, 0xff]);
    assert_eq!(read_field(&data, 10, 5), 0b10_0000_0001);
}

#[test]
fn read_field_beyond_the_data_is_zero() {
    let data = [0xffu8; 2];
    assert_eq!(read_field(&data, 8, 12), 0x0f);
    assert_eq!(read_field(&data, 8, 16), 0);
    assert_eq!(read_field(&data, 0, 3), 0);
}

#[test]
fn read_field_unaligned_sixty_four_bits_loses_the_top() {
    let data = [0xffu8; 9];
    assert_eq!(read_field(&data, 64, 4), u64::MAX >> 4);
    assert_eq!(read_field(&data, 64, 8), u64::MAX);
}

#[test]
fn write_field_of_sixty_four_bits_at_the_top() {
    let mut data = [0u8; 9];
    write_field(&mut data, 64, 8, 0x0102_0304_0506_0708);
    assert_eq!(data, [0, 8, 7, 6, 5, 4, 3, 2, 1]);
}

#[test]
fn bool_specifier() {
    assert_eq!(<bool as Specifier>::BITS, 1);
    assert_eq!(<bool as Specifier>::convert_to_u64(true), 1);
    assert_eq!(<bool as Specifier>::convert_to_u64(false), 0);
    assert!(<bool as Specifier>::convert_from_u64(1));
    assert!(!<bool as Specifier>::convert_from_u64(0));
}

#[test]
fn width_specifiers() {
    assert_eq!(B1::BITS, 1);
    assert_eq!(B3::BITS, 3);
    assert_eq!(B8::BITS, 8);
    assert_eq!(B9::BITS, 9);
    assert_eq!(B16::BITS, 16);
    assert_eq!(B24::BITS, 24);
    assert_eq!(B33::BITS, 33);
    assert_eq!(B64::BITS, 64);
    let a: u8 = B8::convert_from_u64(200);
    assert_eq!(a, 200);
    let b: u16 = B9::convert_from_u64(511);
    assert_eq!(b, 511);
    let c: u32 = B24::convert_from_u64(0x00ff_ffff);
    assert_eq!(c, 0x00ff_ffff);
    let d: u64 = B64::convert_from_u64(u64::MAX);
    assert_eq!(d, u64::MAX);
    assert_eq!(B3::convert_to_u64(200), 200);
    assert_eq!(B16::convert_to_u64(65535), 65535);
    assert_eq!(B33::convert_to_u64(1 << 40), 1 << 40);
}

#[test]
fn bytes_are_shown_highest_first() {
    let mut s = MyFourBytes::new();
    assert_eq!(
        s.to_string(),
        " 3: 0b00000000\n 2: 0b00000000\n 1: 0b00000000\n 0: 0b00000000\n"
    );
    s.set_a(1);
    s.set_c(0b1010);
    s.set_d(0x0001_02ff);
    assert_eq!(
        s.to_string(),
        " 3: 0b10001010\n 2: 0b00000001\n 1: 0b00000010\n 0: 0b11111111\n"
    );
}

#[test]
fn show_writes_like_the_formatter() {
    let data: Vec<u8> = (0..12u8).map(|i| i.wrapping_mul(37)).collect();
    let mut expected = String::new();
    for (i, d) in data.iter().enumerate().rev() {
        expected.push_str(&format!("{:#2}: {:#010b}\n", i, d));
    }
    assert_eq!(macro_workshop::bitfield::field::show(&data), expected);
    assert_eq!(macro_workshop::bitfield::field::show(&[]), "");
}

fn read_by_iterators(data: &[u8], bits: usize, offset: usize) -> u64 {
    let data_len = data.len();
    let arr_offset = offset / 8;
    let bit_offset = u8::try_from(offset % 8).unwrap();
    let v = macro_workshop::bitfield::create_bit_masks(bits, bit_offset)
        .into_iter()
        .rev()
        .enumerate()
        .filter(|(index, _)| index + arr_offset < data_len)
        .map(|(index, mask)| data[index + arr_offset] & mask)
        .collect::<Vec<_>>();
    macro_workshop::bitfield::create_value_from_le_bytes(&v, bit_offset)
}

fn write_by_iterators(data: &mut [u8], bits: usize, offset: usize, v: u64) {
    let data_len = data.len();
    let arr_offset = offset / 8;
    let bit_offset = u8::try_from(offset % 8).unwrap();
    let value_bits = macro_workshop::bitfield::create_value_bits(v, bit_offset);
    macro_workshop::bitfield::create_bit_masks(bits, bit_offset)
        .iter()
        .rev()
        .enumerate()
        .filter(|(index, _)| index + arr_offset < data_len)
        .for_each(|(index, mask)| {
            let i = index + arr_offset;
            data[i] = (data[i] & !mask) | (mask & value_bits[index]);
        });
}

#[test]
fn fields_agree_with_the_iterators() {
    let pattern: Vec<u8> = (0..10u8).map(|i| i.wrapping_mul(83).wrapping_add(29)).collect();
    for bits in [0usize, 1, 3, 7, 8, 9, 16, 24, 33, 56] {
        for offset in 0..24usize {
            assert_eq!(
                read_field(&pattern, bits, offset),
                read_by_iterators(&pattern, bits, offset)
            );
            for v in [0u64, 1, 0x5a5a_5a5a_5a5a_5a5a, u64::MAX] {
                let mut left = pattern.clone();
                let mut right = pattern.clone();
                write_field(&mut left, bits, offset, v);
                write_by_iterators(&mut right, bits, offset, v);
                assert_eq!(left, right);
            }
        }
    }
}
