use vector256::rounding::{
    ceil_lane32, ceil_lane64, floor_lane32, floor_lane64, round_lane32, round_lane64,
    trunc_lane32, trunc_lane64, whole_lane32, whole_lane64,
};
use vector256::{Float32x8, Float64x4};

fn singles(v: [f32; 8]) -> Float32x8 {
    let mut bits = [0u32; 8];
    for i in 0..8 {
        bits[i] = v[i].to_bits();
    }
    Float32x8::from_bits(bits)
}

fn doubles(v: [f64; 4]) -> Float64x4 {
    let mut bits = [0u64; 4];
    for i in 0..4 {
        bits[i] = v[i].to_bits();
    }
    Float64x4::from_bits(bits)
}

fn check32(b: u32) {
    let x = f32::from_bits(b);
    if x.is_nan() {
        assert!(f32::from_bits(floor_lane32(b)).is_nan());
        assert!(f32::from_bits(ceil_lane32(b)).is_nan());
        assert!(f32::from_bits(trunc_lane32(b)).is_nan());
        assert!(f32::from_bits(round_lane32(b)).is_nan());
        assert_eq!(round_lane32(b), b | 0x0040_0000);
        return;
    }
    assert_eq!(floor_lane32(b), x.floor().to_bits(), "floor {:#x}", b);
    assert_eq!(ceil_lane32(b), x.ceil().to_bits(), "ceil {:#x}", b);
    assert_eq!(trunc_lane32(b), x.trunc().to_bits(), "trunc {:#x}", b);
    assert_eq!(round_lane32(b), x.round_ties_even().to_bits(), "round {:#x}", b);
}

fn check64(b: u64) {
    let x = f64::from_bits(b);
    if x.is_nan() {
        assert!(f64::from_bits(floor_lane64(b)).is_nan());
        assert!(f64::from_bits(ceil_lane64(b)).is_nan());
        assert!(f64::from_bits(trunc_lane64(b)).is_nan());
        assert_eq!(round_lane64(b), b | 0x0008_0000_0000_0000);
        return;
    }
    assert_eq!(floor_lane64(b), x.floor().to_bits(), "floor {:#x}", b);
    assert_eq!(ceil_lane64(b), x.ceil().to_bits(), "ceil {:#x}", b);
    assert_eq!(trunc_lane64(b), x.trunc().to_bits(), "trunc {:#x}", b);
    assert_eq!(round_lane64(b), x.round_ties_even().to_bits(), "round {:#x}", b);
}

#[test]
fn round_takes_halves_to_even() {
    let v = singles([1.5, 2.5, -1.5, -2.5, 0.5, -0.5, 3.5, -3.5]);
    let out = v.round().to_bits();
    let expect: [f32; 8] = [2.0, 2.0, -2.0, -2.0, 0.0, 0.0, 4.0, -4.0];
    for i in 0..8 {
        assert_eq!(f32::from_bits(out[i]), expect[i]);
    }
    // The sign stays on a zero.
    assert_eq!(out[4], 0.0f32.to_bits());
    assert_eq!(out[5], (-0.0f32).to_bits());
}

#[test]
fn floor_ceil_and_trunc_on_singles() {
    let v = singles([1.5, -1.5, 0.25, -0.25, 7.0, -7.0, 8388607.5, -0.0]);
    let f: [f32; 8] = [1.0, -2.0, 0.0, -1.0, 7.0, -7.0, 8388607.0, -0.0];
    let c: [f32; 8] = [2.0, -1.0, 1.0, -0.0, 7.0, -7.0, 8388608.0, -0.0];
    let t: [f32; 8] = [1.0, -1.0, 0.0, -0.0, 7.0, -7.0, 8388607.0, -0.0];
    assert_eq!(v.floor().to_bits(), singles(f).to_bits());
    assert_eq!(v.ceil().to_bits(), singles(c).to_bits());
    assert_eq!(v.trunc().to_bits(), singles(t).to_bits());
}

#[test]
fn rounding_on_doubles() {
    let v = doubles([2.5, -2.5, 0.75, -1e-300]);
    assert_eq!(v.floor().to_bits(), doubles([2.0, -3.0, 0.0, -1.0]).to_bits());
    assert_eq!(v.ceil().to_bits(), doubles([3.0, -2.0, 1.0, -0.0]).to_bits());
    assert_eq!(v.trunc().to_bits(), doubles([2.0, -2.0, 0.0, -0.0]).to_bits());
    assert_eq!(v.round().to_bits(), doubles([2.0, -2.0, 1.0, -0.0]).to_bits());
    let w = doubles([4503599627370495.5, 1e300, f64::INFINITY, f64::NEG_INFINITY]);
    assert_eq!(
        w.round().to_bits(),
        doubles([4503599627370496.0, 1e300, f64::INFINITY, f64::NEG_INFINITY]).to_bits()
    );
}

#[test]
fn whole_numbers_as_lanes() {
    assert_eq!(whole_lane32(false, 0), 0.0f32.to_bits());
    assert_eq!(whole_lane32(true, 0), (-0.0f32).to_bits());
    assert_eq!(whole_lane32(false, 1), 1.0f32.to_bits());
    assert_eq!(whole_lane32(true, 3), (-3.0f32).to_bits());
    assert_eq!(whole_lane32(false, 0x80_0000), 8388608.0f32.to_bits());
    assert_eq!(whole_lane64(true, 1000), (-1000.0f64).to_bits());
    assert_eq!(whole_lane64(false, 1 << 52), 4503599627370496.0f64.to_bits());
}

#[test]
fn single_rounding_agrees_with_the_numbers() {
    let mut x: u32 = 0xC0FF_EE11;
    for _ in 0..200_000 {
        x = x.wrapping_mul(1_664_525).wrapping_add(1_013_904_223);
        check32(x);
        // Draw the exponent from the range where rounding does something.
        let near = (x & 0x807F_FFFF) | ((120 + (x >> 8) % 34) << 23);
        check32(near);
    }
    for e in 0..256u32 {
        for f in [0u32, 1, 2, 3, 0x3F_FFFF, 0x40_0000, 0x40_0001, 0x60_0000, 0x7F_FFFE, 0x7F_FFFF] {
            for s in [0u32, 0x8000_0000] {
                check32(s | (e << 23) | f);
            }
        }
    }
}

#[test]
fn double_rounding_agrees_with_the_numbers() {
    let mut x: u64 = 0x0123_4567_89AB_CDEF;
    for _ in 0..200_000 {
        x = x
            .wrapping_mul(6_364_136_223_846_793_005)
            .wrapping_add(1_442_695_040_888_963_407);
        check64(x);
        let near = (x & 0x800F_FFFF_FFFF_FFFF) | ((1015 + (x >> 20) % 66) << 52);
        check64(near);
    }
    for e in 0..2048u64 {
        for f in [0u64, 1, 2, 0x7_FFFF_FFFF_FFFF, 0x8_0000_0000_0000, 0x8_0000_0000_0001, 0xF_FFFF_FFFF_FFFF] {
            for s in [0u64, 1 << 63] {
                check64(s | (e << 52) | f);
            }
        }
    }
}
