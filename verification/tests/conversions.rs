use vector256::{
    Float32x8, Float64x4, From256i, Int16x16, Int32x8, Int64x4, Int8x32, Register256, To256i,
    Uint16x16, Uint32x8, Uint64x4, Uint8x32, VectorConvertInto, VectorTransmuteInto,
};

#[test]
fn signed_to_unsigned_and_back_keeps_the_bits() {
    let a = Int8x32::splat(-1).insert::<0>(-128).insert::<1>(127);
    let u: Uint8x32 = a.convert();
    assert_eq!(u.0.bytes, a.0.bytes);
    assert_eq!(u.to_array()[0], 128);
    assert_eq!(u.to_array()[1], 127);
    assert_eq!(u.to_array()[2], 255);
    let back: Int8x32 = u.convert();
    assert_eq!(back.to_array(), a.to_array());

    let b = Int16x16::splat(-2);
    let v: Uint16x16 = b.convert();
    assert_eq!(v.to_array(), [65534u16; 16]);
    let w: Int16x16 = v.convert_vector();
    assert_eq!(w.to_array(), [-2i16; 16]);

    let c = Uint32x8::from_array([0, 1, 0x7FFF_FFFF, 0x8000_0000, u32::MAX, 5, 6, 7]);
    let s: Int32x8 = c.convert();
    assert_eq!(s.to_array(), [0, 1, i32::MAX, i32::MIN, -1, 5, 6, 7]);
    let c2: Uint32x8 = s.convert();
    assert_eq!(c2.to_array(), c.to_array());

    let d = Int64x4::from_array([i64::MIN, -1, 0, i64::MAX]);
    let e: Uint64x4 = d.convert();
    assert_eq!(e.to_array(), [1u64 << 63, u64::MAX, 0, i64::MAX as u64]);
    let f: Int64x4 = e.convert();
    assert_eq!(f.to_array(), d.to_array());
}

#[test]
fn from_between_signednesses_keeps_the_bits() {
    let a = Int16x16::splat(-1);
    let u = Uint16x16::from(a);
    assert_eq!(u.to_array(), [0xFFFFu16; 16]);
    let b: Int16x16 = u.into();
    assert_eq!(b.to_array(), [-1i16; 16]);
    let c = Uint8x32::from(Int8x32::splat(-100));
    assert_eq!(c.to_array(), [156u8; 32]);
    assert_eq!(Int8x32::from(c).to_array(), [-100i8; 32]);
    let d = Uint32x8::from(Int32x8::splat(i32::MIN));
    assert_eq!(d.to_array(), [0x8000_0000u32; 8]);
    assert_eq!(Int32x8::from(d).to_array(), [i32::MIN; 8]);
    let e = Uint64x4::from(Int64x4::splat(-2));
    assert_eq!(e.to_array(), [u64::MAX - 1; 4]);
    assert_eq!(Int64x4::from(e).to_array(), [-2i64; 4]);
}

#[test]
fn transmute_never_changes_a_bit() {
    let x = Uint32x8::from_array([0x0403_0201, 0x0807_0605, 0, u32::MAX, 1, 2, 3, 0x8000_0000]);
    let b: Uint8x32 = x.transmute();
    assert_eq!(b.0.bytes, x.0.bytes);
    assert_eq!(&b.to_array()[0..8], &[1, 2, 3, 4, 5, 6, 7, 8]);
    let h: Int16x16 = x.transmute();
    assert_eq!(&h.to_array()[0..4], &[0x0201, 0x0403, 0x0605, 0x0807]);
    let q: Uint64x4 = x.transmute();
    assert_eq!(q.to_array()[0], 0x0807_0605_0403_0201);
    assert_eq!(q.to_array()[1], 0xFFFF_FFFF_0000_0000);
    let f: Float32x8 = x.transmute();
    assert_eq!(f.to_bits(), x.to_array());
    let d: Float64x4 = x.transmute_vector();
    assert_eq!(d.to_bits(), q.to_array());
}

#[test]
fn transmute_there_and_back_is_the_identity() {
    let x = Int32x8::from_array([1, -2, 3, -4, i32::MIN, i32::MAX, 0, -1]);
    let there: Float32x8 = x.transmute();
    let back: Int32x8 = there.transmute();
    assert_eq!(back.to_array(), x.to_array());
    let again: Float32x8 = back.transmute();
    assert_eq!(again.to_bits(), there.to_bits());

    let y = Float64x4::from_bits([
        1.5f64.to_bits(),
        (-0.0f64).to_bits(),
        f64::NAN.to_bits(),
        f64::INFINITY.to_bits(),
    ]);
    let as_bytes: Int8x32 = y.transmute();
    let as_words: Uint16x16 = as_bytes.transmute();
    let as_singles: Float32x8 = as_words.transmute();
    let home: Float64x4 = as_singles.transmute();
    assert_eq!(home.to_bits(), y.to_bits());
    assert_eq!(home.0.bytes, y.0.bytes);
}

#[test]
fn float_values_survive_a_transmute_through_integers() {
    let vals: [f32; 8] = [1.5, 2.5, -1.5, -2.5, 0.5, -0.5, 3.5, -3.5];
    let mut bits = [0u32; 8];
    for i in 0..8 {
        bits[i] = vals[i].to_bits();
    }
    let v = Float32x8::from_bits(bits);
    let i: Int32x8 = v.transmute();
    assert_eq!(i.to_array()[0], 0x3FC0_0000);
    let u: Uint64x4 = i.transmute();
    let w: Float32x8 = u.transmute();
    let out = w.to_bits();
    for k in 0..8 {
        assert_eq!(f32::from_bits(out[k]), vals[k]);
    }
}

#[test]
fn payload_round_trip_through_the_capabilities() {
    let mut bytes = [0u8; 32];
    for i in 0..32 {
        bytes[i] = (i as u8) * 3 + 1;
    }
    let reg = Register256 { bytes };
    let v = Uint16x16::from_256i(reg);
    assert_eq!(v.to_256i().bytes, bytes);
    assert_eq!(v.to_array()[0], 0x0401);
    let f = Float64x4::from_256i(v.to_256i());
    assert_eq!(f.to_256i().bytes, bytes);
    let same: Uint16x16 = v.transmute();
    assert_eq!(same.to_array(), v.to_array());
}
