use vector256::ieee::{is_nan32, is_nan64, ordered_eq32, ordered_eq64, ordered_lt32, ordered_lt64};
use vector256::{Float32x8, Float64x4};

fn singles(v: [f32; 8]) -> Float32x8 {
    let mut bits = [0u32; 8];
    for i in 0..8 {
        bits[i] = v[i].to_bits();
    }
    Float32x8::from_bits(bits)
}

fn doubles(v: [f64; 4]) -> Float64x4 {
    let mut bits = [0u64; 4];
    for i in 0..4 {
        bits[i] = v[i].to_bits();
    }
    Float64x4::from_bits(bits)
}

fn sample32() -> Vec<f32> {
    vec![
        0.0,
        -0.0,
        1.0,
        -1.0,
        1.5,
        -1.5,
        f32::MIN_POSITIVE,
        -f32::MIN_POSITIVE,
        f32::from_bits(1),
        f32::from_bits(0x8000_0001),
        f32::MAX,
        f32::MIN,
        f32::INFINITY,
        f32::NEG_INFINITY,
        f32::NAN,
        f32::from_bits(0xFFC0_0001),
        f32::from_bits(0x7F80_0001),
        3.0e10,
        -2.5e-20,
    ]
}

fn sample64() -> Vec<f64> {
    vec![
        0.0,
        -0.0,
        1.0,
        -1.0,
        2.25,
        -2.25,
        f64::MIN_POSITIVE,
        -f64::MIN_POSITIVE,
        f64::from_bits(1),
        f64::from_bits(0x8000_0000_0000_0001),
        f64::MAX,
        f64::MIN,
        f64::INFINITY,
        f64::NEG_INFINITY,
        f64::NAN,
        f64::from_bits(0xFFF8_0000_0000_0001),
        f64::from_bits(0x7FF0_0000_0000_0001),
        1.0e300,
        -1.0e-300,
    ]
}

#[test]
fn single_lane_order_agrees_with_the_numbers() {
    for &a in &sample32() {
        assert_eq!(is_nan32(a.to_bits()), a.is_nan());
        for &b in &sample32() {
            assert_eq!(ordered_lt32(a.to_bits(), b.to_bits()), a < b, "{a} < {b}");
            assert_eq!(ordered_eq32(a.to_bits(), b.to_bits()), a == b, "{a} == {b}");
        }
    }
}

#[test]
fn double_lane_order_agrees_with_the_numbers() {
    for &a in &sample64() {
        assert_eq!(is_nan64(a.to_bits()), a.is_nan());
        for &b in &sample64() {
            assert_eq!(ordered_lt64(a.to_bits(), b.to_bits()), a < b, "{a} < {b}");
            assert_eq!(ordered_eq64(a.to_bits(), b.to_bits()), a == b, "{a} == {b}");
        }
    }
}

#[test]
fn single_comparisons_agree_with_the_numbers() {
    let s = sample32();
    for &a in &s {
        for &b in &s {
            let x = singles([a; 8]);
            let y = singles([b; 8]);
            let m = |hit: bool| if hit { [u32::MAX; 8] } else { [0u32; 8] };
            assert_eq!(x.eq(y).to_bits(), m(a == b), "{a} == {b}");
            assert_eq!(x.ne(y).to_bits(), m(a != b), "{a} != {b}");
            assert_eq!(x.gt(y).to_bits(), m(a > b), "{a} > {b}");
            assert_eq!(x.lt(y).to_bits(), m(a < b), "{a} < {b}");
            assert_eq!(x.ge(y).to_bits(), m(a >= b), "{a} >= {b}");
            assert_eq!(x.le(y).to_bits(), m(a <= b), "{a} <= {b}");
        }
    }
}

#[test]
fn double_comparisons_agree_with_the_numbers() {
    let s = sample64();
    for &a in &s {
        for &b in &s {
            let x = doubles([a; 4]);
            let y = doubles([b; 4]);
            let m = |hit: bool| if hit { [u64::MAX; 4] } else { [0u64; 4] };
            assert_eq!(x.eq(y).to_bits(), m(a == b), "{a} == {b}");
            assert_eq!(x.ne(y).to_bits(), m(a != b), "{a} != {b}");
            assert_eq!(x.gt(y).to_bits(), m(a > b), "{a} > {b}");
            assert_eq!(x.lt(y).to_bits(), m(a < b), "{a} < {b}");
            assert_eq!(x.ge(y).to_bits(), m(a >= b), "{a} >= {b}");
            assert_eq!(x.le(y).to_bits(), m(a <= b), "{a} <= {b}");
        }
    }
}

#[test]
fn float_eq_with_itself_sets_every_lane_without_nan() {
    let x = singles([1.5, -2.5, 0.0, -0.0, f32::INFINITY, f32::NEG_INFINITY, f32::MAX, 1e-40]);
    assert_eq!(x.eq(x).to_bits(), [u32::MAX; 8]);
    assert_eq!(x.eq(x).mask(), 0xFF);
    assert_eq!(x.gt(x).to_bits(), [0u32; 8]);
    assert_eq!(x.lt(x).to_bits(), [0u32; 8]);
    assert_eq!(x.ne(x).to_bits(), [0u32; 8]);
    let y = doubles([0.0, -7.0, f64::MAX, f64::NEG_INFINITY]);
    assert_eq!(y.eq(y).to_bits(), [u64::MAX; 4]);
    assert_eq!(y.gt(y).to_bits(), [0u64; 4]);
}

#[test]
fn nan_fails_ordered_comparisons_and_hits_ne() {
    let n = singles([f32::NAN; 8]);
    let one = singles([1.0; 8]);
    assert_eq!(n.eq(n).to_bits(), [0u32; 8]);
    assert_eq!(n.eq(one).to_bits(), [0u32; 8]);
    assert_eq!(one.gt(n).to_bits(), [0u32; 8]);
    assert_eq!(one.lt(n).to_bits(), [0u32; 8]);
    assert_eq!(one.ge(n).to_bits(), [0u32; 8]);
    assert_eq!(n.le(one).to_bits(), [0u32; 8]);
    assert_eq!(n.gt(n).to_bits(), [0u32; 8]);
    assert_eq!(n.ne(one).to_bits(), [u32::MAX; 8]);
    assert_eq!(one.ne(n).to_bits(), [u32::MAX; 8]);
    assert_eq!(n.ne(n).to_bits(), [u32::MAX; 8]);
    let dn = doubles([f64::NAN; 4]);
    let two = doubles([2.0; 4]);
    assert_eq!(dn.ne(two).to_bits(), [u64::MAX; 4]);
    assert_eq!(dn.le(two).to_bits(), [0u64; 4]);
}

#[test]
fn comparisons_go_lane_by_lane() {
    let a = singles([1.0, 2.0, 3.0, -4.0, 0.0, f32::NAN, -1.0, 8.0]);
    let b = singles([1.0, 3.0, 2.0, 4.0, -0.0, 1.0, -2.0, f32::INFINITY]);
    assert_eq!(a.eq(b).mask(), 0b0001_0001);
    assert_eq!(a.ne(b).mask(), 0b1110_1110);
    assert_eq!(a.gt(b).mask(), 0b0100_0100);
    assert_eq!(a.lt(b).mask(), 0b1000_1010);
    assert_eq!(a.ge(b).mask(), 0b0101_0101);
    assert_eq!(a.le(b).mask(), 0b1001_1011);
}

#[test]
fn float_min_and_max_hold_both_operands() {
    let s = sample32();
    for &a in &s {
        for &b in &s {
            if a.is_nan() || b.is_nan() {
                continue;
            }
            let lo = f32::from_bits(singles([a; 8]).min(singles([b; 8])).to_bits()[3]);
            let hi = f32::from_bits(singles([a; 8]).max(singles([b; 8])).to_bits()[3]);
            assert!(lo <= hi);
            assert!((lo == a && hi == b) || (lo == b && hi == a));
            assert_eq!(lo, a.min(b));
            assert_eq!(hi, a.max(b));
        }
    }
    let d = doubles([1.0, -1.0, 5.0, f64::NEG_INFINITY]);
    let e = doubles([2.0, -2.0, 5.0, f64::INFINITY]);
    assert_eq!(d.min(e).to_bits(), doubles([1.0, -2.0, 5.0, f64::NEG_INFINITY]).to_bits());
    assert_eq!(d.max(e).to_bits(), doubles([2.0, -1.0, 5.0, f64::INFINITY]).to_bits());
}

#[test]
fn float_min_and_max_pass_over_a_single_nan() {
    let n = singles([f32::NAN; 8]);
    let one = singles([1.0; 8]);
    assert_eq!(n.min(one).to_bits(), one.to_bits());
    assert_eq!(one.min(n).to_bits(), one.to_bits());
    assert_eq!(n.max(one).to_bits(), one.to_bits());
    assert_eq!(one.max(n).to_bits(), one.to_bits());
    assert_eq!(n.min(n).to_bits(), n.to_bits());
    let dn = doubles([f64::NAN; 4]);
    let two = doubles([2.0; 4]);
    assert_eq!(dn.min(two).to_bits(), two.to_bits());
    assert_eq!(two.max(dn).to_bits(), two.to_bits());
}

#[test]
fn float_min_and_max_of_two_zeros_take_the_second() {
    let p = singles([0.0; 8]);
    let m = singles([-0.0; 8]);
    assert_eq!(p.min(m).to_bits(), m.to_bits());
    assert_eq!(p.max(m).to_bits(), m.to_bits());
    assert_eq!(m.min(p).to_bits(), p.to_bits());
    assert_eq!(m.max(p).to_bits(), p.to_bits());
}
