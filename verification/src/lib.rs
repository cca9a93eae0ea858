//! The exchange-rate acquisition-and-caching pipeline: parsing a central
//! bank's statistical payload into a normalized rate snapshot, a
//! time-zone-aware freshness policy over the daily cache, and triangulation
//! of arbitrary currency pairs through the single base currency. Rates are
//! carried as binary64 bit patterns; the one division a cross rate owes is
//! handed back to the caller as a quotient of two such patterns.

pub mod civil;
pub mod errors;
pub mod migrations;
pub mod parser;
pub mod service;
pub mod policy;
pub mod rates;
pub mod series_key;
pub mod store;
