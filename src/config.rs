//! The run's configuration, as plain values.
use vstd::prelude::*;

verus! {

/// How candles are requested.
#[derive(Clone, Debug)]
pub struct KlineConfig {
    /// Candles per request, such as 500.
    pub limit: u32,
    /// Candle interval token, such as `1m`, `15m` or `4h`.
    pub interval: String,
}

/// The market the instruments are drawn from.
#[derive(Clone, Debug)]
pub struct TradingConfig {
    /// Quote asset, such as `USDT`.
    pub quote_asset: String,
    /// Contract type, such as `PERPETUAL`.
    pub contract_type: String,
}

/// The whole configuration of a run.
#[derive(Clone, Debug)]
pub struct AppConfig {
    pub klines: KlineConfig,
    pub trading: TradingConfig,
    /// Attribute name and the literal it must match, for each predicate.
    pub filters: Vec<(String, String)>,
    /// Lookback of the momentum oscillator, in candles.
    pub rsi_period: u32,
}

} // verus!
