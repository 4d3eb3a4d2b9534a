//! Market-log ingestion pipeline: a tolerant record parser for delimited
//! market-order dumps, a proximity-range classifier, a fixed-point price
//! aggregator with 95% confidence bounds, a snapshot assembler, and the
//! decision core of a self-healing directory-watcher loop.
//!
//! Prices and location identifiers are carried as non-negative fixed-point
//! decimals with two fractional digits (integer counts of hundredths), so
//! every aggregation step is exact integer arithmetic.

pub mod range;
pub mod settings;
pub mod snapshot;
pub mod stats;
pub mod text;
pub mod watcher;
pub mod record;
