//! Domain metadata resolution: normalization, DNS answer parsing, WHOIS and
//! RDAP field extraction, availability verdicts, bulk summaries and the
//! expired-domain aggregation pipeline.
//!
//! The crate holds the decision logic only. Network requests, process
//! invocations and the clock are supplied by the caller as plain values.

pub mod calendar;
pub mod decimal;
pub mod text;
pub mod tools;
