use hyperloglog::estimator::{div_scaled, estimate, ln_ratio, ln_ratio_wide, LN2, ONE};
use hyperloglog::wide::{mul_wide, U256};

fn w(x: u128) -> U256 {
    U256::from_u128(x)
}

fn parts(r: (u128, U256)) -> (u128, u128, u128) {
    (r.0, r.1.hi, r.1.lo)
}

#[test]
fn div_scaled_is_exact_long_division() {
    assert_eq!(parts(div_scaled(w(1), 4, w(3))), (5, 0, 1));
    assert_eq!(parts(div_scaled(w(0), 64, w(7))), (0, 0, 0));
    assert_eq!(parts(div_scaled(w(2), 64, w(3))), (12297829382473034410, 0, 2));
    assert_eq!(parts(div_scaled(w(5), 0, w(6))), (0, 0, 5));
    let d = U256 { hi: 3, lo: 0 };
    let x = U256 { hi: 1, lo: 0 };
    assert_eq!(parts(div_scaled(x, 64, d)), (6148914691236517205, 1, 0));
}

#[test]
fn ln_ratio_values() {
    assert_eq!(ln_ratio(5, 5), 0);
    assert_eq!(ln_ratio(2, 1), LN2);
    assert_eq!(ln_ratio(1024, 1), 10 * LN2);
    let e = ln_ratio(3, 1) as f64 / ONE as f64;
    assert!((e - 3f64.ln()).abs() < 1e-15);
    let small = ln_ratio(1024, 1023) as f64 / ONE as f64;
    assert!((small - (1024f64 / 1023f64).ln()).abs() < 1e-15);
}

#[test]
fn estimate_on_register_arrays() {
    assert_eq!(estimate(&vec![0; 16]), 0);
    let mut one = vec![0u8; 1024];
    one[7] = 3;
    assert_eq!(estimate(&one), 1);
    assert_eq!(estimate(&vec![1; 64]), 91);
}

#[test]
fn wide_arithmetic() {
    let p = mul_wide(u128::MAX, u128::MAX);
    assert_eq!((p.hi, p.lo), (u128::MAX - 1, 1));
    let q = mul_wide(1u128 << 100, 1u128 << 40);
    assert_eq!((q.hi, q.lo), (1 << 12, 0));
    let s = w(u128::MAX).add(w(1));
    assert_eq!((s.hi, s.lo), (1, 0));
    let t = s.sub(w(2));
    assert_eq!((t.hi, t.lo), (0, u128::MAX - 1));
    assert!(t.le(s) && !s.le(t) && s.le(s));
    let u = U256 { hi: 2, lo: 5 }.mul_small(1u128 << 64);
    assert_eq!((u.hi, u.lo), (2u128 << 64, 5u128 << 64));
}

#[test]
fn ln_ratio_wide_values() {
    let a = U256 { hi: 1, lo: 0 };
    assert_eq!(ln_ratio_wide(a, w(1)), 128 * LN2);
    assert_eq!(ln_ratio_wide(a, a), 0);
}
