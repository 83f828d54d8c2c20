//! Ranking of market instruments by price movement, with the rate-limit aware
//! batching, ban back-off, filtering and series reduction that feed it.

pub mod ban;
pub mod batch;
pub mod budget;
pub mod config;
pub mod filter;
pub mod ranking;
pub mod series;
pub mod storage;
pub mod float_bits;
pub mod text;
pub mod view;
