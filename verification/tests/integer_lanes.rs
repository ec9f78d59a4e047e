use vector256::{
    Int16x16, Int32x8, Int64x4, Int8x32, Register256, Uint16x16, Uint32x8, Uint64x4, Uint8x32,
};

fn ramp_i8() -> [i8; 32] {
    let mut a = [0i8; 32];
    for i in 0..32 {
        a[i] = (i as i8) * 7 - 100;
    }
    a
}

#[test]
fn round_trip_every_integer_type() {
    let a8 = ramp_i8();
    assert_eq!(Int8x32::from_array(a8).to_array(), a8);
    let mut u8s = [0u8; 32];
    for i in 0..32 {
        u8s[i] = 255 - (i as u8) * 8;
    }
    assert_eq!(Uint8x32::from_array(u8s).to_array(), u8s);
    let a16: [i16; 16] = [
        0, 1, -1, 255, 256, -256, 257, i16::MAX, i16::MIN, -32767, 12345, -12345, 128, -128, 2, -2,
    ];
    assert_eq!(Int16x16::from_array(a16).to_array(), a16);
    let u16s: [u16; 16] = [
        0, 1, 255, 256, 257, 0x8000, 0x7FFF, 0xFFFF, 0xFF00, 0x00FF, 0x1234, 0xABCD, 2, 3, 4, 5,
    ];
    assert_eq!(Uint16x16::from_array(u16s).to_array(), u16s);
    let a32: [i32; 8] = [0, -1, i32::MAX, i32::MIN, 0x0102_0304, -0x0102_0304, 65536, -65536];
    assert_eq!(Int32x8::from_array(a32).to_array(), a32);
    let u32s: [u32; 8] = [0, 1, u32::MAX, 0x8000_0000, 0x0102_0304, 0xFFFF_0000, 65536, 255];
    assert_eq!(Uint32x8::from_array(u32s).to_array(), u32s);
    let a64: [i64; 4] = [i64::MIN, i64::MAX, -1, 0x0102_0304_0506_0708];
    assert_eq!(Int64x4::from_array(a64).to_array(), a64);
    let u64s: [u64; 4] = [u64::MAX, 0, 0x8000_0000_0000_0000, 0x0102_0304_0506_0708];
    assert_eq!(Uint64x4::from_array(u64s).to_array(), u64s);
}

#[test]
fn lanes_are_little_endian_in_the_payload() {
    let v = Uint32x8::from_array([0x0403_0201, 0, 0, 0, 0, 0, 0, 0xA0B0_C0D0]);
    assert_eq!(&v.0.bytes[0..4], &[1, 2, 3, 4]);
    assert_eq!(&v.0.bytes[28..32], &[0xD0, 0xC0, 0xB0, 0xA0]);
    let w = Int16x16::from_array([-2, 0, 0, 0, 0, 0, 0, 0, 0, 0, 0, 0, 0, 0, 0, 0x0102]);
    assert_eq!(&w.0.bytes[0..2], &[0xFE, 0xFF]);
    assert_eq!(&w.0.bytes[30..32], &[2, 1]);
    let x = Uint64x4::from_array([0x0807_0605_0403_0201, 0, 0, 0]);
    assert_eq!(&x.0.bytes[0..8], &[1, 2, 3, 4, 5, 6, 7, 8]);
}

#[test]
fn zero_is_all_zero_lanes() {
    assert_eq!(Int8x32::zero().to_array(), [0i8; 32]);
    assert_eq!(Uint8x32::zero().to_array(), [0u8; 32]);
    assert_eq!(Int16x16::zero().to_array(), [0i16; 16]);
    assert_eq!(Uint16x16::zero().to_array(), [0u16; 16]);
    assert_eq!(Int32x8::zero().to_array(), [0i32; 8]);
    assert_eq!(Uint32x8::zero().to_array(), [0u32; 8]);
    assert_eq!(Int64x4::zero().to_array(), [0i64; 4]);
    assert_eq!(Uint64x4::zero().to_array(), [0u64; 4]);
    assert_eq!(Register256::zero().bytes, [0u8; 32]);
}

#[test]
fn splat_repeats_the_value() {
    assert_eq!(Int8x32::splat(-7).to_array(), [-7i8; 32]);
    assert_eq!(Uint8x32::splat(200).to_array(), [200u8; 32]);
    assert_eq!(Int16x16::splat(-30000).to_array(), [-30000i16; 16]);
    assert_eq!(Uint16x16::splat(60000).to_array(), [60000u16; 16]);
    assert_eq!(Int32x8::splat(i32::MIN).to_array(), [i32::MIN; 8]);
    assert_eq!(Uint32x8::splat(u32::MAX).to_array(), [u32::MAX; 8]);
    assert_eq!(Int64x4::splat(-1).to_array(), [-1i64; 4]);
    assert_eq!(Uint64x4::splat(u64::MAX).to_array(), [u64::MAX; 4]);
}

#[test]
fn unsigned_bytes_wrap_on_add() {
    let r = Uint8x32::splat(200).add(Uint8x32::splat(100));
    assert_eq!(r.to_array(), [44u8; 32]);
}

#[test]
fn add_and_sub_wrap_in_every_width() {
    assert_eq!(Int8x32::splat(127).add(Int8x32::splat(1)).to_array(), [-128i8; 32]);
    assert_eq!(Int8x32::splat(-128).sub(Int8x32::splat(1)).to_array(), [127i8; 32]);
    assert_eq!(Uint8x32::splat(0).sub(Uint8x32::splat(1)).to_array(), [255u8; 32]);
    assert_eq!(Int16x16::splat(i16::MAX).add(Int16x16::splat(2)).to_array(), [i16::MIN + 1; 16]);
    assert_eq!(Uint16x16::splat(3).sub(Uint16x16::splat(5)).to_array(), [65534u16; 16]);
    assert_eq!(Int32x8::splat(i32::MIN).sub(Int32x8::splat(1)).to_array(), [i32::MAX; 8]);
    assert_eq!(Uint32x8::splat(u32::MAX).add(Uint32x8::splat(2)).to_array(), [1u32; 8]);
    assert_eq!(Int64x4::splat(i64::MAX).add(Int64x4::splat(1)).to_array(), [i64::MIN; 4]);
    assert_eq!(Uint64x4::splat(0).sub(Uint64x4::splat(1)).to_array(), [u64::MAX; 4]);
    let a = Int32x8::from_array([1, 2, 3, 4, 5, 6, 7, 8]);
    let b = Int32x8::from_array([10, 20, 30, 40, 50, 60, 70, 80]);
    assert_eq!(a.add(b).to_array(), [11, 22, 33, 44, 55, 66, 77, 88]);
    assert_eq!(a.sub(b).to_array(), [-9, -18, -27, -36, -45, -54, -63, -72]);
}

#[test]
fn compound_assignment_replaces_the_value() {
    let mut a = Uint16x16::splat(65535);
    a.add_assign(Uint16x16::splat(2));
    assert_eq!(a.to_array(), [1u16; 16]);
    a.sub_assign(Uint16x16::splat(3));
    assert_eq!(a.to_array(), [65534u16; 16]);
    a.bitand_assign(Uint16x16::splat(0x0FF0));
    assert_eq!(a.to_array(), [0x0FF0u16; 16]);
    a.bitor_assign(Uint16x16::splat(0x000F));
    assert_eq!(a.to_array(), [0x0FFFu16; 16]);
    a.bitxor_assign(Uint16x16::splat(0xFFFF));
    assert_eq!(a.to_array(), [0xF000u16; 16]);
    let mut m = Int32x8::from_array([3, 1, -4, 1, 5, 1, -6, i32::MAX]);
    m.mul_assign(Int32x8::splat(2));
    assert_eq!(m.to_array(), [6, 2, -8, 2, 10, 2, -12, -2]);
}

#[test]
fn eq_with_itself_sets_every_lane() {
    let x = Int8x32::from_array(ramp_i8());
    assert_eq!(x.eq(x).to_array(), [-1i8; 32]);
    let y = Uint16x16::from_array([0, 1, 2, 3, 4, 5, 6, 7, 8, 9, 10, 11, 12, 13, 14, 65535]);
    assert_eq!(y.eq(y).to_array(), [0xFFFFu16; 16]);
    let z = Int64x4::from_array([i64::MIN, -1, 0, i64::MAX]);
    assert_eq!(z.eq(z).to_array(), [-1i64; 4]);
    assert_eq!(z.eq(z).mask(), 0xFFFF_FFFF);
    let w = Uint32x8::splat(9);
    assert_eq!(w.eq(w).to_array(), [u32::MAX; 8]);
}

#[test]
fn gt_with_itself_is_all_zero() {
    let x = Int8x32::from_array(ramp_i8());
    assert_eq!(x.gt(x).to_array(), [0i8; 32]);
    let y = Int16x16::splat(i16::MIN);
    assert_eq!(y.gt(y).to_array(), [0i16; 16]);
    let z = Int32x8::from_array([i32::MIN, -1, 0, 1, i32::MAX, 7, 8, 9]);
    assert_eq!(z.gt(z).to_array(), [0i32; 8]);
    let w = Int64x4::from_array([i64::MIN, -1, 0, i64::MAX]);
    assert_eq!(w.gt(w).to_array(), [0i64; 4]);
    assert_eq!(w.gt(w).mask(), 0);
}

#[test]
fn eq_and_gt_lane_by_lane() {
    let a = Int32x8::from_array([1, 2, 3, -4, 5, i32::MIN, 7, 0]);
    let b = Int32x8::from_array([1, 3, 2, 4, -5, i32::MAX, 7, -1]);
    assert_eq!(a.eq(b).to_array(), [-1, 0, 0, 0, 0, 0, -1, 0]);
    assert_eq!(a.gt(b).to_array(), [0, 0, -1, 0, -1, 0, 0, -1]);
    let c = Uint8x32::splat(5).insert::<3>(6);
    let e = c.eq(Uint8x32::splat(5)).to_array();
    for i in 0..32 {
        assert_eq!(e[i], if i == 3 { 0 } else { 255 });
    }
}

#[test]
fn min_and_max_hold_both_operands() {
    let a = Int16x16::from_array([
        1, -2, 3, -4, 5, -6, 7, -8, i16::MIN, i16::MAX, 0, 0, 100, -100, 9, 9,
    ]);
    let b = Int16x16::from_array([
        -1, 2, -3, 4, -5, 6, -7, 8, i16::MAX, i16::MIN, 0, 1, -100, 100, 9, 8,
    ]);
    let lo = a.min(b).to_array();
    let hi = a.max(b).to_array();
    let (aa, bb) = (a.to_array(), b.to_array());
    for i in 0..16 {
        assert!(lo[i] <= hi[i]);
        assert!((lo[i] == aa[i] && hi[i] == bb[i]) || (lo[i] == bb[i] && hi[i] == aa[i]));
    }
    assert_eq!(lo[8], i16::MIN);
    assert_eq!(hi[8], i16::MAX);
}

#[test]
fn min_and_max_go_by_signedness() {
    let s = Int8x32::splat(-1).min(Int8x32::splat(1));
    assert_eq!(s.to_array(), [-1i8; 32]);
    let u = Uint8x32::splat(255).min(Uint8x32::splat(1));
    assert_eq!(u.to_array(), [1u8; 32]);
    let s = Int32x8::splat(-1).max(Int32x8::splat(1));
    assert_eq!(s.to_array(), [1i32; 8]);
    let u = Uint32x8::splat(u32::MAX).max(Uint32x8::splat(1));
    assert_eq!(u.to_array(), [u32::MAX; 8]);
    let u = Uint16x16::splat(0x8000).max(Uint16x16::splat(0x7FFF));
    assert_eq!(u.to_array(), [0x8000u16; 16]);
}

#[test]
fn abs_keeps_the_most_negative_value() {
    let a = Int8x32::splat(-128).insert::<0>(-5).insert::<1>(5).insert::<31>(-127);
    let r = a.abs().to_array();
    assert_eq!(r[0], 5);
    assert_eq!(r[1], 5);
    assert_eq!(r[2], -128);
    assert_eq!(r[31], 127);
    assert_eq!(Int16x16::splat(-300).abs().to_array(), [300i16; 16]);
    assert_eq!(Int16x16::splat(i16::MIN).abs().to_array(), [i16::MIN; 16]);
    assert_eq!(Int32x8::splat(-70000).abs().to_array(), [70000i32; 8]);
    assert_eq!(Int32x8::splat(i32::MIN).abs().to_array(), [i32::MIN; 8]);
}

#[test]
fn insert_replaces_one_lane() {
    let a = Int64x4::from_array([1, 2, 3, 4]).insert::<2>(-9);
    assert_eq!(a.to_array(), [1, 2, -9, 4]);
    let b = Uint16x16::zero().insert::<15>(0xBEEF).insert::<0>(1);
    let r = b.to_array();
    assert_eq!(r[0], 1);
    assert_eq!(r[15], 0xBEEF);
    assert_eq!(r[1..15], [0u16; 14]);
    let c = Uint32x8::splat(7).insert::<7>(8);
    assert_eq!(c.to_array(), [7, 7, 7, 7, 7, 7, 7, 8]);
    let d = Int8x32::zero().insert::<31>(-1);
    assert_eq!(d.to_array()[31], -1);
    assert_eq!(d.to_array()[30], 0);
}

#[test]
fn mask_goes_by_byte() {
    assert_eq!(Int8x32::splat(-1).mask(), 0xFFFF_FFFF);
    assert_eq!(Int8x32::zero().mask(), 0);
    assert_eq!(Uint8x32::zero().insert::<0>(0x80).insert::<31>(0xFF).insert::<5>(0x7F).mask(), 0x8000_0001);
    // A negative 32-bit lane with small magnitude has all four top bits set; one with
    // only its sign bit set has the top byte's alone.
    assert_eq!(Int32x8::zero().insert::<1>(-1).mask(), 0x0000_00F0);
    assert_eq!(Int32x8::zero().insert::<1>(i32::MIN).mask(), 0x0000_0080);
    assert_eq!(Uint16x16::splat(0x8000).mask(), 0xAAAA_AAAA);
    assert_eq!(Uint16x16::splat(0x0080).mask(), 0x5555_5555);
    assert_eq!(Int64x4::from_array([i64::MIN, 0, 0, 0]).mask(), 0x80);
}

#[test]
fn bitwise_operations() {
    let a = Uint8x32::splat(0b1100_1010);
    let b = Uint8x32::splat(0b1010_0110);
    assert_eq!(a.bitand(b).to_array(), [0b1000_0010u8; 32]);
    assert_eq!(a.bitor(b).to_array(), [0b1110_1110u8; 32]);
    assert_eq!(a.bitxor(b).to_array(), [0b0110_1100u8; 32]);
    assert_eq!(a.andnot(b).to_array(), [0b0010_0100u8; 32]);
    let x = Int32x8::splat(0x0F0F_0F0F);
    let y = Int32x8::splat(-1);
    assert_eq!(x.andnot(y).to_array(), [!0x0F0F_0F0Fi32; 8]);
    assert_eq!(x.bitxor(y).to_array(), [!0x0F0F_0F0Fi32; 8]);
    assert_eq!(x.bitand(y).to_array(), [0x0F0F_0F0Fi32; 8]);
    let p = Uint64x4::from_array([0xFF00, 0x00FF, 0, u64::MAX]);
    let q = Uint64x4::from_array([0x0FF0, 0x0FF0, 5, 1]);
    assert_eq!(p.bitor(q).to_array(), [0xFFF0, 0x0FFF, 5, u64::MAX]);
    assert_eq!(p.andnot(q).to_array(), [0x00F0, 0x0F00, 5, 0]);
}

#[test]
fn logical_shifts() {
    assert_eq!(Uint16x16::splat(0x8001).shl::<1>().to_array(), [0x0002u16; 16]);
    assert_eq!(Uint16x16::splat(0x8001).shr_l::<1>().to_array(), [0x4000u16; 16]);
    assert_eq!(Uint16x16::splat(0x8001).shl::<0>().to_array(), [0x8001u16; 16]);
    assert_eq!(Uint16x16::splat(0x8001).shl::<15>().to_array(), [0x8000u16; 16]);
    assert_eq!(Uint16x16::splat(0xFFFF).shl::<16>().to_array(), [0u16; 16]);
    assert_eq!(Uint16x16::splat(0xFFFF).shr_l::<16>().to_array(), [0u16; 16]);
    assert_eq!(Uint16x16::splat(0xFFFF).shr_l::<255>().to_array(), [0u16; 16]);
    assert_eq!(Int16x16::splat(-1).shr_l::<12>().to_array(), [15i16; 16]);
    assert_eq!(Int16x16::splat(0x4000).shl::<1>().to_array(), [i16::MIN; 16]);
    assert_eq!(Int32x8::splat(-2).shr_l::<1>().to_array(), [i32::MAX; 8]);
    assert_eq!(Int32x8::splat(3).shl::<30>().to_array(), [-0x4000_0000i32; 8]);
    assert_eq!(Uint32x8::splat(0xDEAD_BEEF).shl::<8>().to_array(), [0xADBE_EF00u32; 8]);
    assert_eq!(Uint32x8::splat(0xDEAD_BEEF).shr_l::<8>().to_array(), [0x00DE_ADBEu32; 8]);
    assert_eq!(Uint32x8::splat(1).shl::<32>().to_array(), [0u32; 8]);
    assert_eq!(Uint64x4::splat(1).shl::<63>().to_array(), [0x8000_0000_0000_0000u64; 4]);
    assert_eq!(Uint64x4::splat(u64::MAX).shr_l::<63>().to_array(), [1u64; 4]);
    assert_eq!(Uint64x4::splat(u64::MAX).shl::<64>().to_array(), [0u64; 4]);
    assert_eq!(Int64x4::splat(-1).shr_l::<60>().to_array(), [15i64; 4]);
}

#[test]
fn arithmetic_shift_fills_with_the_sign() {
    assert_eq!(Int16x16::splat(-256).shr_a::<4>().to_array(), [-16i16; 16]);
    assert_eq!(Int16x16::splat(255).shr_a::<4>().to_array(), [15i16; 16]);
    assert_eq!(Int16x16::splat(-1).shr_a::<15>().to_array(), [-1i16; 16]);
    assert_eq!(Int16x16::splat(-3).shr_a::<1>().to_array(), [-2i16; 16]);
    assert_eq!(Int16x16::splat(i16::MIN).shr_a::<16>().to_array(), [-1i16; 16]);
    assert_eq!(Int16x16::splat(i16::MAX).shr_a::<200>().to_array(), [0i16; 16]);
    assert_eq!(Uint16x16::splat(0x8000).shr_a::<3>().to_array(), [0xF000u16; 16]);
    assert_eq!(Uint16x16::splat(0x7000).shr_a::<3>().to_array(), [0x0E00u16; 16]);
    assert_eq!(Int32x8::splat(-1024).shr_a::<10>().to_array(), [-1i32; 8]);
    assert_eq!(Int32x8::splat(i32::MIN).shr_a::<31>().to_array(), [-1i32; 8]);
    assert_eq!(Int32x8::splat(i32::MIN).shr_a::<32>().to_array(), [-1i32; 8]);
    assert_eq!(Uint32x8::splat(0x8000_0000).shr_a::<4>().to_array(), [0xF800_0000u32; 8]);
}

#[test]
fn blend_picks_by_selector_bit() {
    let a = Int32x8::from_array([0, 1, 2, 3, 4, 5, 6, 7]);
    let b = Int32x8::from_array([10, 11, 12, 13, 14, 15, 16, 17]);
    assert_eq!(a.blend::<0>(b).to_array(), a.to_array());
    assert_eq!(a.blend::<255>(b).to_array(), b.to_array());
    assert_eq!(a.blend::<0b1000_0101>(b).to_array(), [10, 1, 12, 3, 4, 5, 6, 17]);
    let u = Uint32x8::splat(1).blend::<0b0000_0010>(Uint32x8::splat(2));
    assert_eq!(u.to_array(), [1, 2, 1, 1, 1, 1, 1, 1]);
    let c = Int16x16::splat(0);
    let d = Int16x16::from_array([1, 2, 3, 4, 5, 6, 7, 8, 9, 10, 11, 12, 13, 14, 15, 16]);
    // The eight selector bits apply to the low eight lanes and again to the high eight.
    assert_eq!(
        c.blend::<0b1000_0011>(d).to_array(),
        [1, 2, 0, 0, 0, 0, 0, 8, 9, 10, 0, 0, 0, 0, 0, 16]
    );
    let e = Uint16x16::splat(7).blend::<0b0001_0000>(Uint16x16::splat(9));
    assert_eq!(e.to_array(), [7, 7, 7, 7, 9, 7, 7, 7, 7, 7, 7, 7, 9, 7, 7, 7]);
}

#[test]
fn multiply_keeps_the_low_half_of_each_product() {
    let a = Int32x8::from_array([3, -4, i32::MAX, i32::MIN, 65536, -65536, 0x1234_5678, -1]);
    let b = Int32x8::from_array([5, 6, i32::MAX, i32::MIN, 65536, 65537, 0x1000, -1]);
    assert_eq!(
        a.mul(b).to_array(),
        [15, -24, 1, 0, 0, -65536, 0x4567_8000, 1]
    );
    let c = Uint32x8::from_array([3, u32::MAX, 0x1_0000, 0x8000_0000, 7, 0xFFFF, 0, 0xDEAD_BEEF]);
    let d = Uint32x8::from_array([5, u32::MAX, 0x1_0000, 2, 11, 0x1_0001, 9, 0x10]);
    assert_eq!(
        c.mul(d).to_array(),
        [15, 1, 0, 0, 77, 0xFFFF_FFFF, 0, 0xEADB_EEF0]
    );
}
