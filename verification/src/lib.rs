//! A bridge from the NUT (Network UPS Tools) line protocol to the
//! OpenMetrics text exposition format.
//!
//! The crate is organised around four verified pieces:
//! - `nut_client`: the list-session state machine and the line grammars of
//!   the NUT wire protocol,
//! - `scrape`: the whole scrape as one session, query by query,
//! - `metrics`: the metric catalog and the value transforms,
//! - `openmetrics_builder`: the deterministic renderer of the output
//!   document.
//!
//! Network and HTTP handling live outside the library; callers hand in the
//! reply lines of a session and take back plain values.

pub mod decimal;
pub mod metrics;
pub mod nut_client;
pub mod openmetrics_builder;
pub mod scrape;
pub mod strutil;
pub mod target;
