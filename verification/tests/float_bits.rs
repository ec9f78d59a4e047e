use vector256::{Float32x8, Float64x4};

fn singles(v: [f32; 8]) -> Float32x8 {
    let mut bits = [0u32; 8];
    for i in 0..8 {
        bits[i] = v[i].to_bits();
    }
    Float32x8::from_bits(bits)
}

fn doubles(v: [f64; 4]) -> Float64x4 {
    let mut bits = [0u64; 4];
    for i in 0..4 {
        bits[i] = v[i].to_bits();
    }
    Float64x4::from_bits(bits)
}

#[test]
fn float_bits_round_trip() {
    let b32 = [0u32, 1, 0x3F80_0000, 0x7FC0_0000, 0xFF80_0000, 0x8000_0000, 0x0102_0304, u32::MAX];
    assert_eq!(Float32x8::from_bits(b32).to_bits(), b32);
    let b64 = [0u64, 0x3FF0_0000_0000_0000, 0x7FF8_0000_0000_0001, 0x8000_0000_0000_0000];
    assert_eq!(Float64x4::from_bits(b64).to_bits(), b64);
}

#[test]
fn float_zero_and_splat() {
    assert_eq!(Float32x8::zero().to_bits(), [0.0f32.to_bits(); 8]);
    assert_eq!(Float64x4::zero().to_bits(), [0.0f64.to_bits(); 4]);
    assert_eq!(Float32x8::splat_bits(2.5f32.to_bits()).to_bits(), [0x4020_0000u32; 8]);
    assert_eq!(
        Float64x4::splat_bits((-1.0f64).to_bits()).to_bits(),
        [0xBFF0_0000_0000_0000u64; 4]
    );
}

#[test]
fn float_mask_collects_sign_bits() {
    let v = singles([1.5, 2.5, -1.5, -2.5, 0.5, -0.5, 3.5, -3.5]);
    assert_eq!(v.mask(), 0b1010_1100);
    assert_eq!(singles([-0.0; 8]).mask(), 0xFF);
    assert_eq!(Float32x8::zero().mask(), 0);
    let w = doubles([-1.0, 1.0, -0.0, 0.0]);
    assert_eq!(w.mask(), 0b0101);
    assert_eq!(doubles([-1.0; 4]).mask(), 0xF);
}

#[test]
fn float_bitwise_operations() {
    let sign = Float32x8::splat_bits(0x8000_0000);
    let v = singles([1.5, -2.5, 0.0, -0.0, 8.0, -8.0, 1e10, -1e-10]);
    let magnitude = sign.andnot(v).to_bits();
    let expect: [f32; 8] = [1.5, 2.5, 0.0, 0.0, 8.0, 8.0, 1e10, 1e-10];
    for i in 0..8 {
        assert_eq!(f32::from_bits(magnitude[i]), expect[i]);
        assert_eq!(magnitude[i] >> 31, 0);
    }
    let negated = v.bitxor(sign).to_bits();
    assert_eq!(f32::from_bits(negated[0]), -1.5);
    assert_eq!(f32::from_bits(negated[1]), 2.5);
    let forced = v.bitor(sign);
    assert_eq!(forced.mask(), 0xFF);
    assert_eq!(v.bitand(sign).to_bits()[1], 0x8000_0000);
    assert_eq!(v.bitand(sign).to_bits()[0], 0);

    let mut d = doubles([1.0, -1.0, 2.0, -2.0]);
    let dsign = Float64x4::splat_bits(1u64 << 63);
    d.bitxor_assign(dsign);
    assert_eq!(d.mask(), 0b0101);
    d.bitor_assign(dsign);
    assert_eq!(d.mask(), 0b1111);
    d.bitand_assign(dsign);
    assert_eq!(d.to_bits(), [1u64 << 63; 4]);
    assert_eq!(dsign.andnot(doubles([-3.0; 4])).to_bits(), [3.0f64.to_bits(); 4]);
}

#[test]
fn float_blend_picks_by_selector_bit() {
    let a = singles([0.0, 1.0, 2.0, 3.0, 4.0, 5.0, 6.0, 7.0]);
    let b = singles([10.0, 11.0, 12.0, 13.0, 14.0, 15.0, 16.0, 17.0]);
    let r = a.blend::<0b0100_1001>(b).to_bits();
    let expect: [f32; 8] = [10.0, 1.0, 2.0, 13.0, 4.0, 5.0, 16.0, 7.0];
    for i in 0..8 {
        assert_eq!(f32::from_bits(r[i]), expect[i]);
    }
    assert_eq!(a.blend::<0>(b).to_bits(), a.to_bits());
    assert_eq!(a.blend::<255>(b).to_bits(), b.to_bits());
    let c = doubles([0.0, 1.0, 2.0, 3.0]);
    let d = doubles([10.0, 11.0, 12.0, 13.0]);
    let r = c.blend::<0b1010>(d).to_bits();
    let expect: [f64; 4] = [0.0, 11.0, 2.0, 13.0];
    for i in 0..4 {
        assert_eq!(f64::from_bits(r[i]), expect[i]);
    }
}
