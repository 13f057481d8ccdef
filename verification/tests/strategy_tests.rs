use upp_gateway::price_index::Candle;
use upp_gateway::strategies::{
    create_strategy, BreakoutStrategy, BuiltinStrategy, MacdStrategy, MeanReversionStrategy, MomentumStrategy, Signal,
    Strategy, StrategyParams, ThresholdBandStrategy,
};

fn candles(prices: &[i64]) -> Vec<Candle> {
    prices
        .iter()
        .enumerate()
        .map(|(i, p)| Candle { open: *p, high: *p, low: *p, close: *p, volume: 1, timestamp: 1000 + 60 * i as i64, period_seconds: 60 })
        .collect()
}

#[test]
fn momentum_buys_breakout_and_closes_breakdown() {
    let cs = candles(&[500_000, 510_000, 505_000, 600_000, 400_000]);
    let mut s = MomentumStrategy::new(3, 10);
    assert_eq!(s.evaluate(&cs, 2), Signal::Hold);
    assert_eq!(s.evaluate(&cs, 3), Signal::Buy(10));
    assert_eq!(s.evaluate(&cs, 4), Signal::ClosePosition);
    s.reset();
}

#[test]
fn band_buys_low_and_closes_high() {
    let cs = candles(&[250_000, 500_000, 750_000]);
    let mut s = ThresholdBandStrategy::new(300_000, 700_000, 5);
    assert_eq!(s.evaluate(&cs, 0), Signal::Buy(5));
    assert_eq!(s.evaluate(&cs, 1), Signal::Hold);
    assert_eq!(s.evaluate(&cs, 2), Signal::ClosePosition);
}

#[test]
fn mean_reversion_against_the_average() {
    let cs = candles(&[500_000, 500_000, 500_000, 400_000, 600_000]);
    let mut s = MeanReversionStrategy::new(3, 50_000, 50_000, 7);
    assert_eq!(s.evaluate(&cs, 2), Signal::Hold);
    assert_eq!(s.evaluate(&cs, 3), Signal::Buy(7));
    assert_eq!(s.evaluate(&cs, 4), Signal::Sell(7));
}

#[test]
fn factory_knows_the_built_in_names() {
    let p = StrategyParams::default();
    assert!(matches!(create_strategy("Momentum", &p), Some(BuiltinStrategy::Momentum(_))));
    assert!(matches!(create_strategy("band", &p), Some(BuiltinStrategy::ThresholdBand(_))));
    assert!(matches!(create_strategy("mean_reversion", &p), Some(BuiltinStrategy::MeanReversion(_))));
    assert!(create_strategy("nope", &p).is_none());
    let mut s = create_strategy("momentum", &p).unwrap();
    assert_eq!(s.name(), "Momentum");
}

#[test]
fn test_create_strategy_factory() {
    let params = StrategyParams { window: Some(15), ..StrategyParams::default() };
    let s = create_strategy("mean_reversion", &params);
    assert!(s.is_some());
    assert_eq!(s.unwrap().name(), "MeanReversion");

    let s = create_strategy("momentum", &StrategyParams::default());
    assert!(s.is_some());

    let s = create_strategy("threshold_band", &StrategyParams::default());
    assert!(s.is_some());

    let s = create_strategy("nonexistent", &StrategyParams::default());
    assert!(s.is_none());
}

#[test]
fn test_available_strategies_list() {
    let strategies = upp_gateway::strategies::available_strategies();
    assert_eq!(strategies.len(), 3);
    assert!(strategies.iter().any(|s| s.name == "mean_reversion"));
    assert!(strategies.iter().any(|s| s.name == "momentum"));
    assert!(strategies.iter().any(|s| s.name == "threshold_band"));
    assert_eq!(strategies[2].parameters[0].default_micros, 300_000);
}

#[test]
fn factory_knows_breakout_and_macd() {
    let p = StrategyParams::default();
    assert_eq!(create_strategy("macd", &p).unwrap().name(), "MACD");
    assert_eq!(create_strategy("Breakout", &p).unwrap().name(), "Breakout");
}

#[test]
fn breakout_needs_the_threshold_margin() {
    let mut s = BreakoutStrategy::new(3, 10_000, 5);
    let cs = candles(&[500_000, 500_000, 500_000, 504_000, 520_000, 400_000]);
    assert_eq!(s.evaluate(&cs, 2), Signal::Hold);
    assert_eq!(s.evaluate(&cs, 3), Signal::Hold);
    assert_eq!(s.evaluate(&cs, 4), Signal::Buy(5));
    assert_eq!(s.evaluate(&cs, 5), Signal::ClosePosition);
}

#[test]
fn macd_buys_on_an_upward_cross_and_closes_on_a_downward_one() {
    let mut s = MacdStrategy::new(2, 4, 2, 3);
    let mut closes = vec![500_000i64; 6];
    closes.extend_from_slice(&[600_000, 700_000, 800_000]);
    closes.extend_from_slice(&[300_000, 200_000, 100_000]);
    let cs = candles(&closes);
    let signals: Vec<Signal> = (0..cs.len()).map(|i| s.evaluate(&cs, i)).collect();
    assert_eq!(signals[6], Signal::Buy(3));
    assert!(signals[..6].iter().all(|x| *x == Signal::Hold));
    assert_eq!(signals[9], Signal::ClosePosition);
    assert_eq!(signals[10], Signal::Hold);
}
