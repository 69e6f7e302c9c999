//! What can go wrong with a request or with a requester's set-up.

use vstd::prelude::*;

verus! {

/// The kinds of failure of a requester.
#[derive(Debug, Clone, PartialEq, Eq)]
pub enum RequestError {
    /// A transport failure other than a timeout.
    Network,
    /// The request's deadline passed.
    Timeout,
    /// The configuration cannot be used.
    ConfigError(String),
    /// The request cannot be built from what the user gave.
    InvalidRequest(String),
    /// The protocol reported a failure.
    RequestFailed(String),
    /// The connection could not be made or is not ready.
    ConnectionError(String),
    /// The requester is in a state it should not be in.
    InternalError(String),
    /// The server answered with an error.
    ServerError(String),
    /// A gRPC call failed.
    GrpcError(String),
}

/// A failure with its message as a character sequence.
pub ghost enum RequestErrorView {
    Network,
    Timeout,
    ConfigError(Seq<char>),
    InvalidRequest(Seq<char>),
    RequestFailed(Seq<char>),
    ConnectionError(Seq<char>),
    InternalError(Seq<char>),
    ServerError(Seq<char>),
    GrpcError(Seq<char>),
}

impl View for RequestError {
    type V = RequestErrorView;

    open spec fn view(&self) -> RequestErrorView {
        match self {
            RequestError::Network => RequestErrorView::Network,
            RequestError::Timeout => RequestErrorView::Timeout,
            RequestError::ConfigError(m) => RequestErrorView::ConfigError(m@),
            RequestError::InvalidRequest(m) => RequestErrorView::InvalidRequest(m@),
            RequestError::RequestFailed(m) => RequestErrorView::RequestFailed(m@),
            RequestError::ConnectionError(m) => RequestErrorView::ConnectionError(m@),
            RequestError::InternalError(m) => RequestErrorView::InternalError(m@),
            RequestError::ServerError(m) => RequestErrorView::ServerError(m@),
            RequestError::GrpcError(m) => RequestErrorView::GrpcError(m@),
        }
    }
}

/// The view of the result of a requester's operation.
pub open spec fn outcome_of(r: Result<(), RequestError>) -> Result<(), RequestErrorView> {
    match r {
        Ok(()) => Ok(()),
        Err(e) => Err(e@),
    }
}

} // verus!
