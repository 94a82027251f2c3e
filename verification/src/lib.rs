//! Verified core of a blockchain block-metrics reporting service.
//!
//! For a fixed, ordered list of blockchain networks the service fetches the
//! latest block of each network from a remote indexing service, normalizes
//! every successfully fetched block into a display-ready [`transform::Metrics`]
//! record, tolerates the failure of any subset of the per-network fetches, and
//! renders the collected records as a single HTML report.
//!
//! This crate holds everything that can be stated and proved: the
//! normalization rules (fixed-point fee summation, unit suffixes), the
//! fan-in of per-network outcomes, the request URLs of the remote service,
//! and the report rendering. The surrounding process (HTTP server, the
//! actual remote calls, task spawning) lives outside the library and hands
//! plain values in and out.

pub mod aggregate;
pub mod display;
pub mod fees;
pub mod moralis;
pub mod numfmt;
pub mod transform;
