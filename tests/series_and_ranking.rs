use top_movers::float_bits::{float_eq, is_nan, is_zero, order_key};
use top_movers::ranking::{latest_close_time, rank_order};
use top_movers::series::{analyze_klines_data, oscillator_closes, InputKline, SeriesEndpoints};

fn candle(open: Option<f64>, close: Option<f64>, close_time: Option<i64>) -> InputKline {
    InputKline { open: open.map(f64::to_bits), close: close.map(f64::to_bits), close_time }
}

fn full(close: f64, close_time: i64) -> InputKline {
    candle(Some(close), Some(close), Some(close_time))
}

fn movement(e: &SeriesEndpoints) -> f64 {
    ((f64::from_bits(e.last_close) / f64::from_bits(e.first_close)) - 1.0) * 100.0
}

#[test]
fn movement_from_first_and_last_valid_candles() {
    let klines = vec![full(100.0, 1_699_999_000_000), full(105.0, 1_699_999_500_000), full(110.0, 1_700_000_000_000)];
    let e = analyze_klines_data(&klines).unwrap();
    assert_eq!(f64::from_bits(e.first_close), 100.0);
    assert_eq!(f64::from_bits(e.last_close), 110.0);
    assert_eq!(e.close_time, 1_700_000_000_000);
    assert!((movement(&e) - 10.0).abs() < 1e-9);
}

#[test]
fn malformed_candles_away_from_the_endpoints_are_skipped() {
    let klines = vec![
        candle(None, Some(1.0), Some(1)),
        full(100.0, 2),
        candle(Some(1.0), None, Some(3)),
        full(110.0, 1_700_000_000_000),
        candle(Some(1.0), Some(500.0), None),
    ];
    let e = analyze_klines_data(&klines).unwrap();
    assert_eq!(f64::from_bits(e.first_close), 100.0);
    assert_eq!(f64::from_bits(e.last_close), 110.0);
    assert_eq!(e.close_time, 1_700_000_000_000);
}

#[test]
fn all_missing_fields_are_excluded() {
    let klines = vec![candle(None, None, None), candle(None, Some(3.0), None), candle(Some(2.0), None, Some(5))];
    assert_eq!(analyze_klines_data(&klines), None);
    assert_eq!(analyze_klines_data(&vec![]), None);
}

#[test]
fn zero_first_close_is_excluded() {
    assert_eq!(analyze_klines_data(&vec![full(0.0, 1), full(110.0, 2)]), None);
    assert_eq!(analyze_klines_data(&vec![full(-0.0, 1), full(110.0, 2)]), None);
    let e = analyze_klines_data(&vec![full(5.0, 1), full(0.0, 2)]).unwrap();
    assert_eq!(movement(&e), -100.0);
}

#[test]
fn single_valid_candle_has_no_movement_but_a_result() {
    let e = analyze_klines_data(&vec![full(42.0, 7)]).unwrap();
    assert_eq!(movement(&e), 0.0);
    assert_eq!(e.close_time, 7);
}

#[test]
fn oscillator_needs_enough_closes() {
    let klines = vec![full(1.0, 1), candle(None, None, None), full(2.0, 2), candle(None, Some(3.0), None)];
    assert_eq!(oscillator_closes(&klines, 0), None);
    assert_eq!(oscillator_closes(&klines, 4), None);
    let closes = oscillator_closes(&klines, 3).unwrap();
    assert_eq!(closes, vec![1.0f64.to_bits(), 2.0f64.to_bits(), 3.0f64.to_bits()]);
}

#[test]
fn ranking_is_descending() {
    let moves: Vec<u64> = [5.0f64, -3.0, 12.0].iter().map(|m| m.to_bits()).collect();
    let order = rank_order(&moves);
    assert_eq!(order, vec![2, 0, 1]);
    let ranked: Vec<f64> = order.iter().map(|&i| f64::from_bits(moves[i])).collect();
    assert_eq!(ranked, vec![12.0, 5.0, -3.0]);
}

#[test]
fn ranking_keeps_ties_in_input_order() {
    let moves: Vec<u64> = [1.0f64, 2.0, 1.0, -0.0, 0.0, 2.0].iter().map(|m| m.to_bits()).collect();
    assert_eq!(rank_order(&moves), vec![1, 5, 0, 2, 3, 4]);
    assert_eq!(rank_order(&vec![]), Vec::<usize>::new());
}

#[test]
fn ranking_with_extremes() {
    let moves: Vec<u64> = [f64::NEG_INFINITY, -1e-300, f64::INFINITY, 1e300].iter().map(|m| m.to_bits()).collect();
    assert_eq!(rank_order(&moves), vec![2, 3, 1, 0]);
}

#[test]
fn ranking_with_nan_is_a_permutation() {
    let moves: Vec<u64> = [1.0f64, f64::NAN, 3.0].iter().map(|m| m.to_bits()).collect();
    let mut order = rank_order(&moves);
    order.sort();
    assert_eq!(order, vec![0, 1, 2]);
}

#[test]
fn ranking_with_nan_keeps_nan_and_ties_in_place() {
    let moves: Vec<u64> = [1.0f64, f64::NAN, 1.0, 3.0].iter().map(|m| m.to_bits()).collect();
    assert_eq!(rank_order(&moves), vec![0, 1, 3, 2]);
    let moves: Vec<u64> = [f64::NAN, 2.0, 2.0].iter().map(|m| m.to_bits()).collect();
    assert_eq!(rank_order(&moves), vec![0, 1, 2]);
}

#[test]
fn as_of_time_is_the_latest_close() {
    assert_eq!(latest_close_time(&vec![5, 1_700_000_000_000, 17]), 1_700_000_000_000);
    assert_eq!(latest_close_time(&vec![]), 0);
    assert_eq!(latest_close_time(&vec![-5]), -5);
    assert_eq!(latest_close_time(&vec![-9, -5, -7]), -5);
}

#[test]
fn bit_pattern_facts() {
    assert!(is_zero(0.0f64.to_bits()) && is_zero((-0.0f64).to_bits()));
    assert!(!is_zero(f64::MIN_POSITIVE.to_bits()));
    assert!(is_nan(f64::NAN.to_bits()) && !is_nan(f64::INFINITY.to_bits()));
    assert!(!float_eq(f64::NAN.to_bits(), f64::NAN.to_bits()));
    assert!(float_eq(1.5f64.to_bits(), 1.5f64.to_bits()));
    assert_eq!(order_key(f64::NAN.to_bits()), None);
    assert_eq!(order_key(0.0f64.to_bits()), order_key((-0.0f64).to_bits()));
    assert!(order_key((-2.0f64).to_bits()) < order_key((-1.0f64).to_bits()));
    assert!(order_key(1.0f64.to_bits()) < order_key(1.5f64.to_bits()));
}
