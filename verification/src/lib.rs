//! Bridge core between a Prometheus-style alert aggregator and a legacy
//! monitoring-console JSON contract.
//!
//! The library holds the verified logic: translating fetched alerts into
//! display records (including the synthetic "heartbeat missing" record),
//! building and tearing down acknowledgment silences, and percent-encoding
//! identifiers for transport.  The surrounding HTTP server and the actual
//! network calls live outside the library and hand it plain values.

pub mod alertmanager;
pub mod console;
pub mod encoding;
