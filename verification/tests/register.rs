use vector256::register::{
    test_bit8, to_signed16, to_signed32, to_signed64, to_signed8, to_unsigned16, to_unsigned32,
    to_unsigned64, to_unsigned8,
};
use vector256::scaling::top_bit_of;
use vector256::Register256;

fn counting() -> Register256 {
    let mut bytes = [0u8; 32];
    for i in 0..32 {
        bytes[i] = i as u8 + 1;
    }
    Register256 { bytes }
}

#[test]
fn signed_and_unsigned_readings() {
    assert_eq!(to_signed8(0x7F), 127);
    assert_eq!(to_signed8(0x80), -128);
    assert_eq!(to_signed8(0xFF), -1);
    assert_eq!(to_unsigned8(-128), 0x80);
    assert_eq!(to_signed16(0x8000), i16::MIN);
    assert_eq!(to_unsigned16(-1), 0xFFFF);
    assert_eq!(to_signed32(0xFFFF_FFFE), -2);
    assert_eq!(to_unsigned32(i32::MIN), 0x8000_0000);
    assert_eq!(to_signed64(u64::MAX), -1);
    assert_eq!(to_signed64(1 << 63), i64::MIN);
    assert_eq!(to_unsigned64(-2), u64::MAX - 1);
    for v in [0u16, 1, 0x7FFF, 0x8000, 0xFFFF, 0x1234] {
        assert_eq!(to_unsigned16(to_signed16(v)), v);
        assert_eq!(to_signed16(v), v as i16);
    }
}

#[test]
fn payload_read_in_every_width() {
    let r = counting();
    assert_eq!(r.to_u8()[0], 1);
    assert_eq!(r.to_u8()[31], 32);
    assert_eq!(r.to_u16()[0], 0x0201);
    assert_eq!(r.to_u16()[15], 0x201F);
    assert_eq!(r.to_u32()[1], 0x0807_0605);
    assert_eq!(r.to_u64()[3], 0x201F_1E1D_1C1B_1A19);
    assert_eq!(r.to_i8()[5], 6);
    assert_eq!(r.to_i16()[2], 0x0605);
    assert_eq!(r.to_i32()[7], 0x201F_1E1D);
    assert_eq!(r.to_i64()[0], 0x0807_0605_0403_0201);
    assert_eq!(Register256::from_u16(r.to_u16()).bytes, r.bytes);
    assert_eq!(Register256::from_u32(r.to_u32()).bytes, r.bytes);
    assert_eq!(Register256::from_u64(r.to_u64()).bytes, r.bytes);
    assert_eq!(Register256::from_i8(r.to_i8()).bytes, r.bytes);
    assert_eq!(Register256::from_i16(r.to_i16()).bytes, r.bytes);
    assert_eq!(Register256::from_i32(r.to_i32()).bytes, r.bytes);
    assert_eq!(Register256::from_i64(r.to_i64()).bytes, r.bytes);
    assert_eq!(Register256::from_u8(r.to_u8()).bytes, r.bytes);
}

#[test]
fn negative_lanes_in_the_payload() {
    let r = Register256::from_i32([-1, -2, i32::MIN, 0, 1, 2, 3, -256]);
    assert_eq!(&r.bytes[0..4], &[0xFF, 0xFF, 0xFF, 0xFF]);
    assert_eq!(&r.bytes[4..8], &[0xFE, 0xFF, 0xFF, 0xFF]);
    assert_eq!(&r.bytes[8..12], &[0, 0, 0, 0x80]);
    assert_eq!(&r.bytes[28..32], &[0, 0xFF, 0xFF, 0xFF]);
    assert_eq!(r.to_i32(), [-1, -2, i32::MIN, 0, 1, 2, 3, -256]);
}

#[test]
fn sign_masks_by_stride() {
    let mut bytes = [0u8; 32];
    bytes[0] = 0x80;
    bytes[3] = 0x80;
    bytes[7] = 0xFF;
    bytes[15] = 0x90;
    bytes[31] = 0x80;
    bytes[30] = 0x7F;
    let r = Register256 { bytes };
    assert_eq!(r.sign_mask(1), 0x8000_8089);
    assert_eq!(r.sign_mask(4), 0b1000_1011);
    assert_eq!(r.sign_mask(8), 0b1011);
    assert_eq!(Register256::zero().sign_mask(1), 0);
}

#[test]
fn bytewise_logic() {
    let a = counting();
    let ones = Register256 { bytes: [0xFF; 32] };
    assert_eq!(a.bitand(ones).bytes, a.bytes);
    assert_eq!(a.bitor(ones).bytes, ones.bytes);
    assert_eq!(a.bitxor(a).bytes, [0u8; 32]);
    assert_eq!(a.andnot(ones).bytes[0], 0xFE);
    assert_eq!(a.andnot(ones).bytes[31], !32u8);
    assert_eq!(ones.andnot(a).bytes, [0u8; 32]);
}

#[test]
fn selector_bits_and_top_bits() {
    assert!(test_bit8(0b0000_0001, 0));
    assert!(!test_bit8(0b0000_0001, 1));
    assert!(test_bit8(0b1000_0000, 7));
    assert!(!test_bit8(0b0111_1111, 7));
    assert_eq!(top_bit_of(1), 0);
    assert_eq!(top_bit_of(2), 1);
    assert_eq!(top_bit_of(3), 1);
    assert_eq!(top_bit_of(0x80_0000), 23);
    assert_eq!(top_bit_of(0xFF_FFFF), 23);
    assert_eq!(top_bit_of(0x8000_0000), 31);
}
