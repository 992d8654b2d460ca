use stonks::signals::{Fraction, MaxPrice, MinPrice, PriceDiff, WindowedSMA};

fn value(f: Fraction) -> f64 {
    f.num as f64 / f.den as f64
}

#[allow(non_snake_case)]
#[test]
fn test_MinPrice_calculate() {
    let signal = MinPrice {};
    assert_eq!(signal.calculate(&[]), None);
    assert_eq!(signal.calculate(&[1]), Some(1));
    assert_eq!(signal.calculate(&[1, 0]), Some(0));
    assert_eq!(signal.calculate(&[2, 3, 5, 6, 1, 2, 10]), Some(1));
    assert_eq!(signal.calculate(&[0, 3, 5, 6, 1, 2, 1]), Some(0));
}

#[allow(non_snake_case)]
#[test]
fn test_MaxPrice_calculate() {
    let signal = MaxPrice {};
    assert_eq!(signal.calculate(&[]), None);
    assert_eq!(signal.calculate(&[1]), Some(1));
    assert_eq!(signal.calculate(&[1, 0]), Some(1));
    assert_eq!(signal.calculate(&[2, 3, 5, 6, 1, 2, 10]), Some(10));
    assert_eq!(signal.calculate(&[0, 3, 5, 6, 1, 2, 1]), Some(6));
}

#[allow(non_snake_case)]
#[test]
fn test_PriceDiff_calculate() {
    let signal = PriceDiff {};
    assert_eq!(signal.calculate(&[]), None);
    assert_eq!(signal.calculate(&[1]), Some((0, Fraction { num: 0, den: 1 })));
    assert_eq!(signal.calculate(&[1, 0]), Some((-1, Fraction { num: -1, den: 1 })));
    let (abs, rel) = signal.calculate(&[2, 3, 5, 6, 1, 2, 10]).unwrap();
    assert_eq!(abs, 8);
    assert_eq!(value(rel), 4.0);
    let (abs, rel) = signal.calculate(&[0, 3, 5, 6, 1, 2, 1]).unwrap();
    assert_eq!(abs, 1);
    assert_eq!(rel, Fraction { num: 1, den: 1 });
    assert_eq!(value(rel), 1.0);
}

#[allow(non_snake_case)]
#[test]
fn test_WindowedSMA_calculate() {
    // 2.0, 4.5, 5.3, 6.5, 4.7 in tenths
    let series = vec![20, 45, 53, 65, 47];

    let signal = WindowedSMA { window_size: 3 };
    let sma = signal.calculate(&series).unwrap();
    assert_eq!(
        sma,
        vec![
            Fraction { num: 118, den: 3 },
            Fraction { num: 163, den: 3 },
            Fraction { num: 165, den: 3 },
        ]
    );
    let expected = [3.9333333333333336, 5.433333333333334, 5.5];
    for (f, e) in sma.iter().zip(expected.iter()) {
        assert!((value(*f) / 10.0 - e).abs() < 1e-12);
    }

    let signal = WindowedSMA { window_size: 5 };
    let sma = signal.calculate(&series).unwrap();
    assert_eq!(sma, vec![Fraction { num: 230, den: 5 }]);
    assert!((value(sma[0]) / 10.0 - 4.6).abs() < 1e-12);

    let signal = WindowedSMA { window_size: 10 };
    assert_eq!(signal.calculate(&series), Some(vec![]));
}

#[test]
fn min_max_single_and_bounds() {
    assert_eq!(MinPrice.calculate(&[7]), Some(7));
    assert_eq!(MaxPrice.calculate(&[7]), Some(7));
    let s = [5, -3, 9, 9, 0, -3];
    let lo = MinPrice.calculate(&s).unwrap();
    let hi = MaxPrice.calculate(&s).unwrap();
    assert_eq!((lo, hi), (-3, 9));
    assert!(s.iter().all(|x| lo <= *x && *x <= hi));
    assert!(s.contains(&lo) && s.contains(&hi));
}

#[test]
fn min_max_extreme_prices() {
    let s = [i64::MAX, i64::MIN, 0];
    assert_eq!(MinPrice.calculate(&s), Some(i64::MIN));
    assert_eq!(MaxPrice.calculate(&s), Some(i64::MAX));
}

#[test]
fn price_diff_single_price_is_zero() {
    for x in [0, 1, -4, 12345] {
        let (abs, rel) = PriceDiff.calculate(&[x]).unwrap();
        assert_eq!(abs, 0);
        assert_eq!(rel.num, 0);
        assert_eq!(value(rel), 0.0);
    }
}

#[test]
fn price_diff_zero_first_keeps_absolute() {
    assert_eq!(PriceDiff.calculate(&[0, 7, -5]), Some((-5, Fraction { num: -5, den: 1 })));
    assert_eq!(PriceDiff.calculate(&[4, 7, 10]), Some((6, Fraction { num: 6, den: 4 })));
}

#[test]
fn price_diff_extreme_prices() {
    let (abs, rel) = PriceDiff.calculate(&[i64::MIN, i64::MAX]).unwrap();
    assert_eq!(abs, (i64::MAX as i128) - (i64::MIN as i128));
    assert_eq!(rel.den, i64::MIN as i128);
}

#[test]
fn sma_empty_series_is_no_result() {
    for w in [0, 1, 2, 3, 30, 1000] {
        assert_eq!(WindowedSMA { window_size: w }.calculate(&[]), None);
    }
}

#[test]
fn sma_degenerate_window_is_empty() {
    assert_eq!(WindowedSMA { window_size: 0 }.calculate(&[1, 2, 3]), Some(vec![]));
    assert_eq!(WindowedSMA { window_size: 1 }.calculate(&[1, 2, 3]), Some(vec![]));
}

#[test]
fn sma_length_formula() {
    let series: Vec<i64> = (1..=12).collect();
    for w in 2..15usize {
        let n = WindowedSMA { window_size: w }.calculate(&series).unwrap().len();
        let expected = if w <= series.len() { series.len() - w + 1 } else { 0 };
        assert_eq!(n, expected);
    }
}

#[test]
fn sma_window_of_whole_series() {
    let sma = WindowedSMA { window_size: 4 }.calculate(&[1, 2, 3, 6]).unwrap();
    assert_eq!(sma, vec![Fraction { num: 12, den: 4 }]);
    assert_eq!(value(sma[0]), 3.0);
}

#[test]
fn sma_extreme_prices_do_not_overflow() {
    let sma = WindowedSMA { window_size: 2 }.calculate(&[i64::MAX, i64::MAX, i64::MIN]).unwrap();
    assert_eq!(
        sma,
        vec![
            Fraction { num: 2 * (i64::MAX as i128), den: 2 },
            Fraction { num: -1, den: 2 },
        ]
    );
}
