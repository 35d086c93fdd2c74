use dsvita::div_sqrt::{CpContext, DivSqrt};

fn set_numer(d: &mut DivSqrt, v: i64) {
    d.set_div_numer_l(0xFFFF_FFFF, v as u64 as u32);
    d.set_div_numer_h(0xFFFF_FFFF, (v as u64 >> 32) as u32);
}

fn set_denom(d: &mut DivSqrt, v: i64) {
    d.set_div_denom_l(0xFFFF_FFFF, v as u64 as u32);
    d.set_div_denom_h(0xFFFF_FFFF, (v as u64 >> 32) as u32);
}

fn quotient(d: &mut DivSqrt) -> i64 {
    let l = d.get_div_result_l() as u64;
    let h = d.get_div_result_h() as u64;
    ((h << 32) | l) as i64
}

fn remainder(d: &mut DivSqrt) -> i64 {
    let l = d.get_divrem_result_l() as u64;
    let h = d.get_divrem_result_h() as u64;
    ((h << 32) | l) as i64
}

#[test]
fn division_truncates_toward_zero() {
    let mut d = DivSqrt::new();
    d.set_div_cnt(0x3, 2);
    set_numer(&mut d, -7);
    set_denom(&mut d, 2);
    assert_eq!(quotient(&mut d), -3);
    assert_eq!(remainder(&mut d), -1);
    set_numer(&mut d, 7);
    set_denom(&mut d, -2);
    assert_eq!(quotient(&mut d), -3);
    assert_eq!(remainder(&mut d), 1);
}

#[test]
fn quotient_and_remainder_give_back_the_dividend() {
    let mut d = DivSqrt::new();
    d.set_div_cnt(0x3, 2);
    for &(n, m) in &[(1000i64, 7i64), (-1000, 7), (1000, -7), (-1000, -7), (6, 3), (i64::MAX, 10)] {
        set_numer(&mut d, n);
        set_denom(&mut d, m);
        let q = quotient(&mut d);
        let r = remainder(&mut d);
        assert_eq!(q * m + r, n);
        assert!(r.abs() < m.abs());
    }
}

#[test]
fn mode_zero_divides_low_words() {
    let mut d = DivSqrt::new();
    d.set_div_cnt(0x3, 0);
    set_numer(&mut d, 0x1_0000_0010);
    set_denom(&mut d, 0x3);
    assert_eq!(quotient(&mut d), 5);
    assert_eq!(remainder(&mut d), 1);
}

#[test]
fn division_by_zero_results() {
    let mut d = DivSqrt::new();
    d.set_div_cnt(0x3, 0);
    set_numer(&mut d, 5);
    set_denom(&mut d, 0);
    assert_eq!(d.get_div_result_l(), 0xFFFF_FFFF);
    assert_eq!(d.get_div_result_h(), 0);
    assert_eq!(remainder(&mut d), 5);

    d.set_div_cnt(0x3, 2);
    set_numer(&mut d, -5);
    assert_eq!(quotient(&mut d), 1);
    assert_eq!(remainder(&mut d), -5);
}

#[test]
fn minimum_over_minus_one() {
    let mut d = DivSqrt::new();
    d.set_div_cnt(0x3, 0);
    set_numer(&mut d, i32::MIN as i64);
    set_denom(&mut d, -1);
    assert_eq!(d.get_div_result_l(), 0x8000_0000);
    assert_eq!(d.get_div_result_h(), 0);
    assert_eq!(remainder(&mut d), 0);
}

#[test]
fn square_roots() {
    let mut d = DivSqrt::new();
    d.set_sqrt_param_l(0xFFFF_FFFF, 17);
    d.set_sqrt_param_h(0xFFFF_FFFF, 0);
    assert_eq!(d.get_sqrt_result(), 4);
    d.set_sqrt_param_l(0xFFFF_FFFF, 0xFFFF_FFFF);
    d.set_sqrt_param_h(0xFFFF_FFFF, 0xFFFF_FFFF);
    assert_eq!(d.get_sqrt_result(), 0xFFFF);
    d.set_sqrt_cnt(0x1, 1);
    assert_eq!(d.get_sqrt_result(), 0xFFFF_FFFF);
}

#[test]
fn context_round_trip() {
    let mut a = DivSqrt::new();
    a.set_div_cnt(0x3, 2);
    set_numer(&mut a, 100);
    set_denom(&mut a, 7);
    a.set_sqrt_param_l(0xFFFF_FFFF, 81);
    let mut saved = CpContext::default();
    a.get_context(&mut saved);
    let mut b = DivSqrt::new();
    b.set_context(&saved);
    assert_eq!(quotient(&mut b), 14);
    assert_eq!(remainder(&mut b), 2);
    assert_eq!(b.get_sqrt_result(), 9);
    assert_eq!(b.get_div_numer_l(), 100);
    assert_eq!(b.get_div_denom_l(), 7);
}
