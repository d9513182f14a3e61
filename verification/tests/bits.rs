use macro_workshop::bitfield::{create_bit_masks, create_value_bits, create_value_from_le_bytes};

fn assert_bits(left: u64, right: u64) {
    assert_eq!(left, right, "\n left: {:#10b}\nright: {:#10b}", left, right);
}

#[test]
fn lib_test_create_bit_masks() {
    let result = create_bit_masks(8, 4);
    assert_eq!(result, vec![0b00001111, 0b11110000]);
    create_bit_masks(1, 0);
    create_bit_masks(2, 0);
    create_bit_masks(2, 1);
    create_bit_masks(2, 2);
    let result = create_bit_masks(1, 0);
    assert_eq!(result, vec![0b00000001]);

    let result = create_bit_masks(1, 1);
    assert_eq!(result, vec![0b00000010]);

    let result = create_bit_masks(3, 3);
    assert_eq!(result, vec![0b00111000]);

    assert_eq!(create_bit_masks(13, 0), vec![0b00011111, 0b11111111,]);
}

#[test]
fn main_test_create_bit_masks() {
    let result = create_bit_masks(8, 4);
    assert_eq!(result, vec![0b00001111, 0b11110000]);
    create_bit_masks(1, 0);
    create_bit_masks(2, 0);
    create_bit_masks(2, 1);
    create_bit_masks(2, 2);
    let result = create_bit_masks(1, 0);
    assert_eq!(result, vec![0b00000001]);

    let result = create_bit_masks(1, 1);
    assert_eq!(result, vec![0b00000010]);

    let result = create_bit_masks(3, 3);
    assert_eq!(result, vec![0b00111000]);
}

#[test]
fn test_create_value_bits() {
    assert_eq!(create_value_bits(1, 0), vec![1, 0, 0, 0, 0, 0, 0, 0]);
    assert_eq!(create_value_bits(1, 1), vec![0b10, 0, 0, 0, 0, 0, 0, 0]);
}

#[test]
fn test_create_value_from_le_bytes() {
    assert_eq!(create_value_from_le_bytes(&[0b00000000], 0), 0);

    assert_eq!(create_value_from_le_bytes(&[0b00000001], 0), 1);
    assert_bits(
        create_value_from_le_bytes(&[0b10000001, 0b00000001], 0),
        0b110000001,
    );

    assert_bits(
        create_value_from_le_bytes(&[0b00000010, 0b00000011], 1),
        0b110000001,
    );
}

#[test]
fn bit_masks_whole_bytes_have_an_empty_top_mask() {
    assert_eq!(create_bit_masks(8, 0), vec![0x00, 0xff]);
    assert_eq!(create_bit_masks(16, 0), vec![0x00, 0xff, 0xff]);
    assert_eq!(create_bit_masks(0, 0), vec![0x00]);
    assert_eq!(create_bit_masks(0, 5), vec![0x00]);
}

#[test]
fn bit_masks_span_three_bytes() {
    assert_eq!(create_bit_masks(12, 7), vec![0b0000_0111, 0xff, 0b1000_0000]);
}

#[test]
fn value_bits_carry_into_the_next_byte() {
    assert_eq!(
        create_value_bits(0x01ff, 4),
        vec![0xf0, 0x1f, 0, 0, 0, 0, 0, 0]
    );
    assert_eq!(
        create_value_bits(0x8000_0000_0000_0001, 1),
        vec![2, 0, 0, 0, 0, 0, 0, 0]
    );
    assert_eq!(
        create_value_bits(u64::MAX, 7),
        vec![0x80, 0xff, 0xff, 0xff, 0xff, 0xff, 0xff, 0xff]
    );
}

#[test]
fn value_from_bytes_keeps_the_low_sixty_four_bits() {
    let bytes = [1u8, 2, 3, 4, 5, 6, 7, 8, 9];
    assert_eq!(create_value_from_le_bytes(&bytes, 0), 0x0807_0605_0403_0201);
    assert_eq!(create_value_from_le_bytes(&bytes, 8), 0x0008_0706_0504_0302);
    assert_eq!(create_value_from_le_bytes(&[], 3), 0);
    assert_eq!(create_value_from_le_bytes(&[0xff; 8], 63), 1);
}

fn masks_by_formula(field_size: usize, offset: u8) -> Vec<u8> {
    let high_bit = field_size + usize::from(offset);
    let size = high_bit / 8;
    let mut fields = (0..=size).map(|_| !0_u8).collect::<Vec<_>>();
    let first_mask = !(!0 << (high_bit % 8));
    let last_mask = !0_u8 << offset;
    if let Some(v) = fields.first_mut() {
        *v = first_mask;
    }
    if let Some(v) = fields.last_mut() {
        *v &= last_mask;
    }
    fields
}

#[test]
fn bit_masks_agree_with_the_formula() {
    for field_size in 0..80usize {
        for offset in 0..8u8 {
            assert_eq!(
                create_bit_masks(field_size, offset),
                masks_by_formula(field_size, offset)
            );
        }
    }
}

#[test]
fn value_bits_agree_with_a_shift() {
    let values = [
        0u64,
        1,
        0xff,
        0x0123_4567_89ab_cdef,
        0x8000_0000_0000_0000,
        u64::MAX,
    ];
    for v in values {
        for offset in 0..8u8 {
            assert_eq!(
                create_value_bits(v, offset),
                (v << offset).to_le_bytes().to_vec()
            );
        }
    }
}

#[test]
fn value_from_bytes_agrees_with_a_fold() {
    let bytes: Vec<u8> = (0..12u8).map(|i| i.wrapping_mul(59).wrapping_add(7)).collect();
    for length in 0..=bytes.len() {
        for offset in 0..64u8 {
            let expected = bytes[..length]
                .iter()
                .rev()
                .fold(0_u64, |cum, x| cum << 8 | u64::from(*x))
                >> offset;
            assert_eq!(create_value_from_le_bytes(&bytes[..length], offset), expected);
        }
    }
}
