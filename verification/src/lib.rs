//! Verified market data ingestion for crypto exchanges.

pub mod bitstamp;
pub mod bitvavo;
pub mod book;
pub mod checksum;
pub mod clock;
pub mod config;
pub mod display;
pub mod effect;
pub mod emit;
pub mod instrument;
pub mod items;
pub mod json;
pub mod kraken;
pub mod ladder;
pub mod laws;
pub mod line;
pub mod member;
pub mod num;
pub mod okx;
pub mod request;
pub mod session;
pub mod stream;
pub mod text;
pub mod traits;
pub mod urls;
pub mod wsloop;
