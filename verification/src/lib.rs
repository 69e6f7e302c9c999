//! Core of a load generator: the metrics sink, the request parameter model,
//! the protocol requesters' accounting and the scheduler's decisions.
//!
//! Everything here works on plain values. Sockets, timers and the terminal
//! belong to the program that drives this library.

pub mod text;
pub mod histogram;
pub mod metrics;
pub mod fields;
pub mod error;
pub mod header;
pub mod params;
pub mod requester;
pub mod scheduler;
pub mod report;
pub mod timeline;
