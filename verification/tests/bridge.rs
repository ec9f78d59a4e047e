use vector256::bridge::{lane_f32_to_i32, lane_i32_to_f32};
use vector256::scaling::two_to;
use vector256::{Float32x8, Int32x8, VectorConvertInto};

fn native_to_int(x: f32) -> i32 {
    let r = x.round_ties_even();
    if r >= -2_147_483_648.0 && r < 2_147_483_648.0 {
        r as i32
    } else {
        i32::MIN
    }
}

fn singles(v: [f32; 8]) -> Float32x8 {
    let mut bits = [0u32; 8];
    for i in 0..8 {
        bits[i] = v[i].to_bits();
    }
    Float32x8::from_bits(bits)
}

#[test]
fn powers_of_two() {
    assert_eq!(two_to(0), 1);
    assert_eq!(two_to(1), 2);
    assert_eq!(two_to(10), 1024);
    assert_eq!(two_to(32), 0x1_0000_0000);
}

#[test]
fn float_to_int_rounds_halves_to_even() {
    let v = singles([1.5, 2.5, -1.5, -2.5, 0.5, -0.5, 3.5, -3.5]);
    let r: Int32x8 = v.convert();
    assert_eq!(r.to_array(), [2, 2, -2, -2, 0, 0, 4, -4]);
    let w = singles([0.49999997, 0.50000006, 1.4999999, -0.75, 1e-40, -1e-40, 8388607.5, 16777216.0]);
    let r: Int32x8 = w.convert_vector();
    assert_eq!(r.to_array(), [0, 1, 1, -1, 0, 0, 8388608, 16777216]);
}

#[test]
fn float_to_int_out_of_range_is_the_most_negative() {
    let v = singles([
        f32::NAN,
        f32::INFINITY,
        f32::NEG_INFINITY,
        2147483648.0,
        -2147483648.0,
        2147483520.0,
        -2147483904.0,
        3.0e38,
    ]);
    let r: Int32x8 = v.convert();
    assert_eq!(
        r.to_array(),
        [i32::MIN, i32::MIN, i32::MIN, i32::MIN, i32::MIN, 2147483520, i32::MIN, i32::MIN]
    );
}

#[test]
fn float_to_int_agrees_with_the_numbers() {
    let mut x: u32 = 0x1234_5678;
    for _ in 0..200_000 {
        x = x.wrapping_mul(1_664_525).wrapping_add(1_013_904_223);
        assert_eq!(lane_f32_to_i32(x), native_to_int(f32::from_bits(x)), "{:#x}", x);
    }
    for e in 0..256u32 {
        for f in [0u32, 1, 2, 3, 0x3F_FFFF, 0x40_0000, 0x40_0001, 0x7F_FFFE, 0x7F_FFFF] {
            for s in [0u32, 0x8000_0000] {
                let b = s | (e << 23) | f;
                assert_eq!(lane_f32_to_i32(b), native_to_int(f32::from_bits(b)), "{:#x}", b);
            }
        }
    }
}

#[test]
fn int_to_float_is_exact_on_small_magnitudes() {
    let v = Int32x8::from_array([0, 1, -1, 2, 3, -1000, 16777216, -16777216]);
    let r: Float32x8 = v.convert();
    let out = r.to_bits();
    let expect: [f32; 8] = [0.0, 1.0, -1.0, 2.0, 3.0, -1000.0, 16777216.0, -16777216.0];
    for i in 0..8 {
        assert_eq!(out[i], expect[i].to_bits());
    }
    let back: Int32x8 = r.convert();
    assert_eq!(back.to_array(), v.to_array());
}

#[test]
fn int_to_float_rounds_large_magnitudes() {
    let v = Int32x8::from_array([
        16777217,
        16777219,
        i32::MAX,
        i32::MIN,
        -16777217,
        33554434,
        33554438,
        2147483583,
    ]);
    let r: Float32x8 = v.convert_vector();
    let out = r.to_bits();
    let expect: [f32; 8] = [
        16777216.0,
        16777220.0,
        2147483648.0,
        -2147483648.0,
        -16777216.0,
        33554432.0,
        33554440.0,
        2147483520.0,
    ];
    for i in 0..8 {
        assert_eq!(f32::from_bits(out[i]), expect[i]);
    }
}

#[test]
fn int_to_float_agrees_with_the_numbers() {
    let mut x: u32 = 0x9E37_79B9;
    for _ in 0..200_000 {
        x = x.wrapping_mul(1_664_525).wrapping_add(1_013_904_223);
        let n = x as i32;
        assert_eq!(lane_i32_to_f32(n), (n as f32).to_bits(), "{n}");
        let small = n >> (x % 32);
        assert_eq!(lane_i32_to_f32(small), (small as f32).to_bits(), "{small}");
    }
    for p in 0..31u32 {
        for d in [-2i64, -1, 0, 1, 2] {
            for extra in [0i64, 1 << p.saturating_sub(24), 3 << p.saturating_sub(25)] {
                let n = ((1i64 << p) + d + extra).clamp(i32::MIN as i64, i32::MAX as i64) as i32;
                assert_eq!(lane_i32_to_f32(n), (n as f32).to_bits(), "{n}");
                let m = n.wrapping_neg();
                assert_eq!(lane_i32_to_f32(m), (m as f32).to_bits(), "{m}");
            }
        }
    }
}
