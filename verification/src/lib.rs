//! Portfolio analytics: raw broker holdings are enriched with per-position
//! dividend economics and currency-normalized valuations, and the enriched
//! snapshot is republished to concurrent readers by a refresh scheduler.
//!
//! All money amounts, share quantities, exchange rates and percentages are
//! fixed-point integers carrying six decimal places (micro-units); see the
//! `num` module.  Network fetching, file handling and page rendering live
//! outside this crate; the library receives plain values and returns plain
//! values.

pub mod num;
pub mod text;
pub mod currency;
pub mod symbol_mapper;
pub mod settings;
pub mod dates;
pub mod dividend;
pub mod portfolio;
pub mod broker;
pub mod scheduler;
pub mod exchange_rate;
pub mod payout;
