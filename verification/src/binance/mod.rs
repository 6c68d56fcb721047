//! Binance: the feed of best prices.
pub mod ws;
