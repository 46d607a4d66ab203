//! Bitstamp.

pub mod laws;
pub mod lob;
pub mod types;
pub mod validation;
pub mod ws;
