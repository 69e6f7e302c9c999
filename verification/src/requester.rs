//! The two operations that the scheduler asks of every protocol: set up
//! once, then account for one request after another.
//!
//! A requester here does no input or output. The program does the work on
//! the wire and tells the requester what came of it; the requester decides
//! what that means for the metrics and for the worker.

pub mod grpc_requester;
pub mod http_requester;
pub mod websocket_requester;

use crate::error::RequestError;
use crate::metrics::{Metrics, MetricsView};
use vstd::prelude::*;
use vstd::string::*;

verus! {

/// Why the work of a request did not complete.
#[derive(Debug)]
pub enum Failure {
    /// The request's deadline passed.
    Timeout,
    /// The connection was not ready for the request.
    NotReady(String),
    /// Anything else, with what the transport said.
    Other(String),
}

impl Failure {
    /// What the failure says of itself.
    pub open spec fn text(self) -> Seq<char> {
        match self {
            Failure::Timeout => "timed out"@,
            Failure::NotReady(detail) => detail@,
            Failure::Other(detail) => detail@,
        }
    }

    /// What the failure says of itself.
    pub fn describe(self) -> (s: String)
        ensures
            s@ == self.text(),
    {
        match self {
            Failure::Timeout => String::from_str("timed out"),
            Failure::NotReady(detail) => detail,
            Failure::Other(detail) => detail,
        }
    }
}

/// What came of the work of one request.
#[derive(Debug)]
pub enum Exchange {
    /// The answer arrived: so many octets of it, after so many microseconds.
    Completed { received: u64, elapsed_micros: u128 },
    /// No answer arrived.
    Failed(Failure),
}

/// The latency to record for a measured time: the time itself, or 0 where it
/// does not fit in 64 bits.
pub open spec fn latency_of(elapsed_micros: u128) -> u64 {
    if elapsed_micros <= u64::MAX {
        elapsed_micros as u64
    } else {
        0
    }
}

/// The latency to record for a measured time.
pub fn latency_micros(elapsed_micros: u128) -> (us: u64)
    ensures
        us == latency_of(elapsed_micros),
{
    if elapsed_micros <= u64::MAX as u128 {
        elapsed_micros as u64
    } else {
        0
    }
}

/// Whether two metric states agree on the three request counters.
pub open spec fn same_counters(a: MetricsView, b: MetricsView) -> bool {
    a.total == b.total && a.successful == b.successful && a.failed == b.failed
}

/// A protocol's side of a worker.
pub trait Requester {
    /// What the program reports of the set-up work.
    type Setup;

    /// Whether set-up has succeeded.
    spec fn initialized(&self) -> bool;

    /// Takes note of what came of the set-up work. Once set-up has
    /// succeeded, further calls change nothing and succeed.
    fn initialize(&mut self, setup: Self::Setup) -> (r: Result<(), RequestError>)
        ensures
            old(self).initialized() ==> r is Ok,
            final(self).initialized() == (r is Ok),
    ;

    /// Accounts for one request: records its latency and octets in
    /// `metrics` and says whether it counts as a success. The request
    /// counters are the scheduler's and stay as they are.
    fn request(&self, metrics: &mut Metrics, exchange: Exchange) -> (r: Result<(), RequestError>)
        ensures
            same_counters(old(metrics)@, final(metrics)@),
    ;
}

} // verus!
