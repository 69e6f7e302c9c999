//! The HTTP requester's accounting.

use crate::error::{outcome_of, RequestError, RequestErrorView};
use crate::fields::{octets, Fields};
use crate::header::Headers;
use crate::metrics::{Metrics, MetricsView};
use crate::params::{HttpMethod, HttpParams, HttpParamsView};
use crate::requester::{latency_of, latency_micros, Exchange, Failure, Requester};
use crate::text::{octet_count, octet_len};
use vstd::prelude::*;

verus! {

/// What the octets of a request are made of.
pub enum Payload<'a> {
    /// The form fields, URL-encoded.
    Form(&'a Fields),
    /// The body as it is.
    Body(&'a str),
    /// Nothing.
    Empty,
}

/// The octets that one request counts as sent: those of the body, of the
/// names and values of the form fields and of the names and values of the
/// headers.
pub open spec fn request_octets(p: HttpParamsView) -> nat {
    (match p.body {
        Some(b) => octet_len(b),
        None => 0,
    }) + octets(p.form) + octets(p.headers)
}

/// A worker's HTTP requester.
#[derive(Debug)]
pub struct HttpRequester {
    params: HttpParams,
    timeout: u64,
    request_size: u64,
}

impl HttpRequester {
    /// The parameters.
    pub closed spec fn params(&self) -> HttpParamsView {
        self.params@
    }

    /// The timeout of every request, in seconds.
    pub closed spec fn timeout(&self) -> u64 {
        self.timeout
    }

    /// The octets that each request counts as sent.
    pub closed spec fn request_size(&self) -> u64 {
        self.request_size
    }

    /// A requester for `params`, if the octets of one request fit in 64 bits.
    pub fn new(params: HttpParams, timeout: u64) -> (r: Option<Self>)
        ensures
            match r {
                Some(h) => h.params() == params@ && h.timeout() == timeout && h.request_size()
                    == request_octets(params@),
                None => request_octets(params@) > u64::MAX,
            },
    {
        let body: u64 = match &params.body {
            Some(b) => octet_count(b.as_str()) as u64,
            None => 0,
        };
        let form = match params.form.octets() {
            Some(n) => n,
            None => {
                return None;
            },
        };
        let headers = match params.headers.octets() {
            Some(n) => n,
            None => {
                return None;
            },
        };
        let with_form = match body.checked_add(form) {
            Some(n) => n,
            None => {
                return None;
            },
        };
        match with_form.checked_add(headers) {
            Some(request_size) => Some(HttpRequester { params, timeout, request_size }),
            None => None,
        }
    }

    /// The verb of every request.
    pub fn method(&self) -> (m: HttpMethod)
        ensures
            m == self.params().method,
    {
        self.params.method
    }

    /// The address of every request.
    pub fn url(&self) -> (u: &str)
        ensures
            u@ == self.params().url,
    {
        self.params.url.as_str()
    }

    /// The headers of every request.
    pub fn headers(&self) -> (h: &Headers)
        ensures
            h@ == self.params().headers,
    {
        &self.params.headers
    }

    /// The timeout of every request, in seconds.
    pub fn timeout_secs(&self) -> (t: u64)
        ensures
            t == self.timeout(),
    {
        self.timeout
    }

    /// The octets that each request counts as sent.
    pub fn octets_per_request(&self) -> (n: u64)
        ensures
            n == self.request_size(),
    {
        self.request_size
    }

    /// What a request carries: the form fields where there are any, else
    /// the body where one is set, else nothing.
    pub fn payload(&self) -> (p: Payload<'_>)
        ensures
            match p {
                Payload::Form(f) => self.params().form.len() > 0 && f@ == self.params().form,
                Payload::Body(b) => self.params().form.len() == 0 && self.params().body == Some(
                    b@,
                ),
                Payload::Empty => self.params().form.len() == 0 && self.params().body is None,
            },
    {
        if !self.params.form.is_empty() {
            Payload::Form(&self.params.form)
        } else {
            match &self.params.body {
                Some(b) => Payload::Body(b.as_str()),
                None => Payload::Empty,
            }
        }
    }
}

/// What an exchange means to an HTTP worker: a completed round trip is a
/// success, a passed deadline is a timeout, anything else a network failure.
pub open spec fn http_result(exchange: Exchange) -> Result<(), RequestErrorView> {
    match exchange {
        Exchange::Completed { .. } => Ok(()),
        Exchange::Failed(Failure::Timeout) => Err(RequestErrorView::Timeout),
        Exchange::Failed(_) => Err(RequestErrorView::Network),
    }
}

/// The metrics after an HTTP exchange: a completed one adds the octets
/// received and sent and records the latency; a failed one changes nothing.
pub open spec fn http_metrics(m: MetricsView, request_size: u64, exchange: Exchange) -> MetricsView {
    match exchange {
        Exchange::Completed { received, elapsed_micros } => (MetricsView {
            bytes_received: m.bytes_received.wrapping_add(received),
            bytes_sent: m.bytes_sent.wrapping_add(request_size),
            ..m
        }).recorded(latency_of(elapsed_micros)),
        Exchange::Failed(_) => m,
    }
}

impl Requester for HttpRequester {
    type Setup = ();

    /// An HTTP requester needs no set-up.
    open spec fn initialized(&self) -> bool {
        true
    }

    fn initialize(&mut self, setup: ()) -> (r: Result<(), RequestError>)
        ensures
            r is Ok,
            *final(self) == *old(self),
    {
        Ok(())
    }

    fn request(&self, metrics: &mut Metrics, exchange: Exchange) -> (r: Result<(), RequestError>)
        ensures
            outcome_of(r) == http_result(exchange),
            final(metrics)@ == http_metrics(old(metrics)@, self.request_size(), exchange),
    {
        match exchange {
            Exchange::Completed { received, elapsed_micros } => {
                metrics.add_bytes_received(received);
                metrics.add_bytes_sent(self.request_size);
                metrics.record_latency(latency_micros(elapsed_micros));
                Ok(())
            },
            Exchange::Failed(Failure::Timeout) => Err(RequestError::Timeout),
            Exchange::Failed(_) => Err(RequestError::Network),
        }
    }
}

} // verus!
