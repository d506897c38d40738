//! Behavioral tests for the fixed-point linear-regression library.
//! Real values are carried as i64 integers scaled by 1_000_000.

use linfit::error::Error;
use linfit::fx::SCALE;
use linfit::normalizer::Normalizer;
use linfit::regressor::Regressor;

fn fx_of(units: i64) -> i64 {
    units * SCALE
}

#[test]
fn normalize_unit_range() {
    let mut n = Normalizer::new();
    let values: Vec<i64> = vec![fx_of(5), fx_of(1), fx_of(3)];
    let out = n.normalize(&values).unwrap();
    assert_eq!(out.len(), values.len());
    let lo: i64 = *out.iter().min().unwrap();
    let hi: i64 = *out.iter().max().unwrap();
    assert_eq!(lo, 0);
    assert_eq!(hi, SCALE);
    assert_eq!(out, vec![SCALE, 0, SCALE / 2]);
}

#[test]
fn normalize_stores_bounds() {
    let mut n = Normalizer::new();
    assert_eq!(n.min, 0);
    assert_eq!(n.max, 0);
    let values: Vec<i64> = vec![fx_of(5), fx_of(1), fx_of(3)];
    n.normalize(&values).unwrap();
    assert_eq!(n.min, fx_of(1));
    assert_eq!(n.max, fx_of(5));
    let again: Vec<i64> = vec![fx_of(-2), fx_of(2)];
    n.normalize(&again).unwrap();
    assert_eq!(n.min, fx_of(-2));
    assert_eq!(n.max, fx_of(2));
}

#[test]
fn normalize_truncates_toward_zero() {
    let mut n = Normalizer::new();
    let values: Vec<i64> = vec![0, fx_of(1), fx_of(3)];
    let out = n.normalize(&values).unwrap();
    assert_eq!(out, vec![0, 333_333, SCALE]);
}

#[test]
fn normalize_negative_values() {
    let mut n = Normalizer::new();
    let values: Vec<i64> = vec![fx_of(-1), fx_of(1)];
    let out = n.normalize(&values).unwrap();
    assert_eq!(out, vec![0, SCALE]);
}

#[test]
fn normalize_idempotent() {
    let mut n = Normalizer::new();
    let values: Vec<i64> = vec![fx_of(5), fx_of(1), fx_of(3), fx_of(2)];
    let once = n.normalize(&values).unwrap();
    let twice = n.normalize(&once).unwrap();
    assert_eq!(once, twice);
}

#[test]
fn normalize_constant_input_fails() {
    let mut n = Normalizer::new();
    let values: Vec<i64> = vec![fx_of(7), fx_of(7), fx_of(7)];
    assert_eq!(n.normalize(&values), Err(Error::DegenerateRange));
    assert_eq!(n.min, 0);
    assert_eq!(n.max, 0);
}

#[test]
fn normalize_empty_fails() {
    let mut n = Normalizer::new();
    let values: Vec<i64> = vec![];
    assert_eq!(n.normalize(&values), Err(Error::EmptyInput));
}

#[test]
fn fit_length_mismatch_fails() {
    let mut r = Regressor::new(500, SCALE / 2);
    let x: Vec<i64> = vec![0, fx_of(1), fx_of(2)];
    let y: Vec<i64> = vec![0, fx_of(2), fx_of(4), fx_of(6)];
    assert_eq!(r.fit(&x, &y), Err(Error::LengthMismatch));
    assert_eq!(r.slope, 0);
    assert_eq!(r.intercept, 0);
}

#[test]
fn fit_empty_input_fails() {
    let mut r = Regressor::new(500, SCALE / 2);
    let x: Vec<i64> = vec![];
    let y: Vec<i64> = vec![];
    assert_eq!(r.fit(&x, &y), Err(Error::EmptyInput));
}

#[test]
fn fit_constant_input_fails() {
    let mut r = Regressor::new(500, SCALE / 2);
    let x: Vec<i64> = vec![fx_of(4), fx_of(4), fx_of(4)];
    let y: Vec<i64> = vec![0, fx_of(2), fx_of(4)];
    assert_eq!(r.fit(&x, &y), Err(Error::DegenerateRange));
    assert_eq!(r.x_norm.min, 0);
    assert_eq!(r.x_norm.max, 0);
    assert_eq!(r.fit(&y, &x), Err(Error::DegenerateRange));
}

#[test]
fn fit_exact_line() {
    // y = 2 x over x = 0..3, 500 iterations at learning rate one half.
    let mut r = Regressor::new(500, SCALE / 2);
    let x: Vec<i64> = vec![0, fx_of(1), fx_of(2), fx_of(3)];
    let y: Vec<i64> = vec![0, fx_of(2), fx_of(4), fx_of(6)];
    let mses = r.fit(&x, &y).unwrap();
    assert_eq!(mses.len(), 500);
    let (slope, intercept) = r.denormalize_params();
    assert!((slope - fx_of(2)).abs() <= SCALE / 20);
    assert!(intercept.abs() <= SCALE / 20);
    let last: i64 = mses[mses.len() - 1];
    assert!(last <= SCALE / 1000);
}

#[test]
fn fit_recovers_small_synthetic_line() {
    // y = 3 x + 2, exactly, over x = 0..10.
    let mut x: Vec<i64> = Vec::new();
    let mut y: Vec<i64> = Vec::new();
    let mut k: i64 = 0;
    while k <= 10 {
        x.push(fx_of(k));
        y.push(fx_of(3 * k + 2));
        k += 1;
    }
    let mut r = Regressor::new(3000, SCALE / 2);
    r.fit(&x, &y).unwrap();
    let (slope, intercept) = r.denormalize_params();
    assert!((slope - fx_of(3)).abs() <= SCALE / 100);
    assert!((intercept - fx_of(2)).abs() <= SCALE / 100);
}

#[test]
fn fit_recovers_slope_of_large_line() {
    // y = 100 x over x values up to 99_000 whole units; the slope comes
    // back within one hundredth, while the intercept's precision is
    // bounded by the y-range times the fixed-point step.
    let mut x: Vec<i64> = Vec::new();
    let mut y: Vec<i64> = Vec::new();
    let mut k: i64 = 0;
    while k < 100 {
        x.push(fx_of(1000 * k));
        y.push(fx_of(100_000 * k));
        k += 1;
    }
    let mut r = Regressor::new(3000, SCALE / 2);
    let mses = r.fit(&x, &y).unwrap();
    assert_eq!(mses.len(), 3000);
    let (slope, intercept) = r.denormalize_params();
    assert!((slope - fx_of(100)).abs() <= SCALE / 100);
    // One fixed-point step of the normalized intercept is about ten
    // whole units here (the y-range divided by SCALE), so the recovered
    // intercept is exact only up to a small multiple of that.
    assert!(intercept.abs() <= fx_of(200));
}

#[test]
fn mse_nonnegative_and_nonincreasing() {
    let mut r = Regressor::new(50, SCALE / 2);
    let x: Vec<i64> = vec![0, fx_of(1), fx_of(2), fx_of(3)];
    let y: Vec<i64> = vec![0, fx_of(2), fx_of(4), fx_of(6)];
    let mses = r.fit(&x, &y).unwrap();
    assert_eq!(mses.len(), 50);
    let mut i: usize = 0;
    while i < mses.len() {
        assert!(mses[i] >= 0);
        if i > 0 {
            assert!(mses[i] <= mses[i - 1]);
        }
        i += 1;
    }
}

#[test]
fn mse_exact_value_for_fresh_model() {
    // A fresh regressor denormalizes to the zero model, so the error on
    // a single sample (1, 3) is 3 squared.
    let r = Regressor::new(1, SCALE);
    assert_eq!(r.denormalize_params(), (0, 0));
    let x: Vec<i64> = vec![fx_of(1)];
    let y: Vec<i64> = vec![fx_of(3)];
    assert_eq!(r.mse(&x, &y), Ok(fx_of(9)));
}

#[test]
fn mse_rejects_bad_inputs() {
    let r = Regressor::new(1, SCALE);
    let x: Vec<i64> = vec![fx_of(1)];
    let y: Vec<i64> = vec![fx_of(1), fx_of(2)];
    assert_eq!(r.mse(&x, &y), Err(Error::LengthMismatch));
    let e: Vec<i64> = vec![];
    assert_eq!(r.mse(&e, &e), Err(Error::EmptyInput));
}

#[test]
fn new_regressor_starts_clean() {
    let r = Regressor::new(42, 7);
    assert_eq!(r.slope, 0);
    assert_eq!(r.intercept, 0);
    assert_eq!(r.iters, 42);
    assert_eq!(r.learning_rate, 7);
    assert_eq!(r.x_norm.min, 0);
    assert_eq!(r.x_norm.max, 0);
}
