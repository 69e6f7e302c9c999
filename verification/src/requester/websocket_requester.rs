//! The WebSocket requester's accounting.

use crate::error::{outcome_of, RequestError, RequestErrorView};
use crate::metrics::{Metrics, MetricsView};
use crate::requester::{latency_micros, latency_of, Exchange, Requester};
use crate::text::{join, octet_count, octet_len};
use vstd::prelude::*;
use vstd::string::*;

verus! {

/// A frame that the server sent.
#[derive(Debug, Clone, Copy)]
pub enum Frame {
    /// A text frame of so many octets.
    Text(u64),
    /// Any other frame.
    Other,
}

/// A worker's WebSocket requester.
#[derive(Debug)]
pub struct WebsocketRequester {
    url: String,
    data: String,
    request_size: u64,
    connected: bool,
}

/// The error of a requester that is asked for a request before its set-up.
pub open spec fn missing_writer() -> RequestErrorView {
    RequestErrorView::InternalError("Requester not initialised: Missing writer"@)
}

/// What came of the set-up work of a WebSocket worker.
#[derive(Debug)]
pub enum WebsocketSetup {
    /// The connection is open.
    Connected,
    /// The address is no address of a WebSocket server.
    AddressRejected(String),
    /// The server could not be reached or refused the connection.
    ConnectFailed(String),
}

/// What is said of a connection that could not be opened.
pub open spec fn connect_message(url: Seq<char>, detail: Seq<char>) -> Seq<char> {
    "Failed to connect to "@ + url + ": "@ + detail
}

/// The result of a set-up, for a requester that was not connected before:
/// an address that cannot be used is a configuration error, a connection
/// that cannot be made a connection error.
pub open spec fn websocket_setup_result(url: Seq<char>, setup: WebsocketSetup) -> Result<
    (),
    RequestErrorView,
> {
    match setup {
        WebsocketSetup::Connected => Ok(()),
        WebsocketSetup::AddressRejected(detail) => Err(
            RequestErrorView::ConfigError(connect_message(url, detail@)),
        ),
        WebsocketSetup::ConnectFailed(detail) => Err(
            RequestErrorView::ConnectionError(connect_message(url, detail@)),
        ),
    }
}

/// What an exchange means to a WebSocket worker that is connected: a frame
/// that was written is a success, anything else an internal error.
pub open spec fn websocket_result(exchange: Exchange) -> Result<(), RequestErrorView> {
    match exchange {
        Exchange::Completed { .. } => Ok(()),
        Exchange::Failed(f) => Err(RequestErrorView::InternalError(f.text())),
    }
}

/// The metrics after an exchange of a connected WebSocket worker: the
/// payload counts as sent whatever came of it, and a frame that was written
/// has its latency recorded.
pub open spec fn websocket_metrics(
    m: MetricsView,
    request_size: u64,
    exchange: Exchange,
) -> MetricsView {
    let sent = MetricsView { bytes_sent: m.bytes_sent.wrapping_add(request_size), ..m };
    match exchange {
        Exchange::Completed { received, elapsed_micros } => sent.recorded(
            latency_of(elapsed_micros),
        ),
        Exchange::Failed(_) => sent,
    }
}

impl WebsocketRequester {
    /// The address to connect to.
    pub closed spec fn url_text(&self) -> Seq<char> {
        self.url@
    }

    /// The text of every frame.
    pub closed spec fn data_text(&self) -> Seq<char> {
        self.data@
    }

    /// The octets that each request counts as sent.
    pub closed spec fn request_size(&self) -> u64 {
        self.request_size
    }

    /// A requester that is not connected yet.
    pub fn new(url: String, data: String) -> (w: Self)
        ensures
            w.url_text() == url@,
            w.data_text() == data@,
            w.request_size() == octet_len(data@),
            !w.initialized(),
    {
        let request_size = octet_count(data.as_str()) as u64;
        WebsocketRequester { url, data, request_size, connected: false }
    }

    /// The address to connect to.
    pub fn url(&self) -> (u: &str)
        ensures
            u@ == self.url_text(),
    {
        self.url.as_str()
    }

    /// The text of every frame.
    pub fn data(&self) -> (d: &str)
        ensures
            d@ == self.data_text(),
    {
        self.data.as_str()
    }

    fn connect_failure(&self, detail: &str) -> (message: String)
        ensures
            message@ == connect_message(self.url_text(), detail@),
    {
        let mut message = join("Failed to connect to ", self.url.as_str());
        message.append(": ");
        message.append(detail);
        assert(message@ =~= "Failed to connect to "@ + self.url@ + ": "@ + detail@);
        message
    }

    /// Whether the connection is open.
    pub fn is_initialized(&self) -> (b: bool)
        ensures
            b == self.initialized(),
    {
        self.connected
    }

    /// Credits a frame from the server: the octets of a text frame count as
    /// received, other frames count for nothing.
    pub fn on_frame(metrics: &mut Metrics, frame: Frame)
        ensures
            final(metrics)@ == match frame {
                Frame::Text(n) => (MetricsView {
                    bytes_received: old(metrics)@.bytes_received.wrapping_add(n),
                    ..old(metrics)@
                }),
                Frame::Other => old(metrics)@,
            },
    {
        match frame {
            Frame::Text(n) => metrics.add_bytes_received(n),
            Frame::Other => {},
        }
    }
}

impl Requester for WebsocketRequester {
    type Setup = WebsocketSetup;

    closed spec fn initialized(&self) -> bool {
        self.connected
    }

    fn initialize(&mut self, setup: WebsocketSetup) -> (r: Result<(), RequestError>)
        ensures
            final(self).url_text() == old(self).url_text(),
            final(self).data_text() == old(self).data_text(),
            final(self).request_size() == old(self).request_size(),
            !old(self).initialized() ==> outcome_of(r) == websocket_setup_result(
                old(self).url_text(),
                setup,
            ),
    {
        if self.connected {
            return Ok(());
        }
        match setup {
            WebsocketSetup::Connected => {
                self.connected = true;
                Ok(())
            },
            WebsocketSetup::AddressRejected(detail) => Err(
                RequestError::ConfigError(self.connect_failure(detail.as_str())),
            ),
            WebsocketSetup::ConnectFailed(detail) => Err(
                RequestError::ConnectionError(self.connect_failure(detail.as_str())),
            ),
        }
    }

    fn request(&self, metrics: &mut Metrics, exchange: Exchange) -> (r: Result<(), RequestError>)
        ensures
            !self.initialized() ==> outcome_of(r) == Err::<(), RequestErrorView>(missing_writer())
                && final(metrics)@ == old(metrics)@,
            self.initialized() ==> outcome_of(r) == websocket_result(exchange) && final(metrics)@
                == websocket_metrics(old(metrics)@, self.request_size(), exchange),
    {
        if !self.connected {
            return Err(
                RequestError::InternalError(
                    String::from_str("Requester not initialised: Missing writer"),
                ),
            );
        }
        metrics.add_bytes_sent(self.request_size);
        match exchange {
            Exchange::Completed { received, elapsed_micros } => {
                metrics.record_latency(latency_micros(elapsed_micros));
                Ok(())
            },
            Exchange::Failed(failure) => Err(RequestError::InternalError(failure.describe())),
        }
    }
}

} // verus!
