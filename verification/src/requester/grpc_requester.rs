//! The gRPC requester's accounting, and the small decisions of its set-up:
//! what kind of file describes the service, which service and method a
//! method name means, and which path a call goes to.

use crate::error::{outcome_of, RequestError, RequestErrorView};
use crate::fields::str_eq;
use crate::metrics::{Metrics, MetricsView};
use crate::params::{text_of, GrpcParams, GrpcParamsView};
use crate::requester::{latency_micros, latency_of, Exchange, Failure, Requester};
use crate::text::{
    ends_with, has_suffix, is_trimmed, join, lemma_split_at_last, lemma_trimmed_padding,
    rsplit_once, split_at_last, texts, trim, trimmed,
};
use vstd::prelude::*;
use vstd::string::*;

verus! {

/// The service and the method that a full method name means: the parts
/// around its last `/`, or else around its last `.`, without surrounding
/// white space.
pub open spec fn method_parts(full: Seq<char>) -> Option<(Seq<char>, Seq<char>)> {
    match split_at_last(full, '/') {
        Some((service, method)) => Some((trimmed(service), trimmed(method))),
        None => match split_at_last(full, '.') {
            Some((service, method)) => Some((trimmed(service), trimmed(method))),
            None => None,
        },
    }
}

/// Splits a full method name into its service and its method.
pub fn split_method_name(full: &str) -> (r: Option<(String, String)>)
    ensures
        match r {
            Some((service, method)) => method_parts(full@) == Some((service@, method@)),
            None => method_parts(full@) is None,
        },
{
    match rsplit_once(full, '/') {
        Some((service, method)) => Some((trim(service.as_str()), trim(method.as_str()))),
        None => match rsplit_once(full, '.') {
            Some((service, method)) => Some((trim(service.as_str()), trim(method.as_str()))),
            None => None,
        },
    }
}

/// `Service.Method` and `Service/Method` mean the same service and method.
pub proof fn lemma_method_separators(service: Seq<char>, method: Seq<char>)
    requires
        is_trimmed(service),
        is_trimmed(method),
        !service.contains('/'),
        !method.contains('/'),
        !method.contains('.'),
    ensures
        method_parts(service + seq!['/'] + method) == Some((service, method)),
        method_parts(service + seq!['.'] + method) == Some((service, method)),
{
    lemma_split_at_last(service, '/', method);
    lemma_split_at_last(service, '.', method);
    lemma_trimmed_padding(Seq::empty(), service, Seq::empty());
    lemma_trimmed_padding(Seq::empty(), method, Seq::empty());
    assert(Seq::<char>::empty() + service + Seq::<char>::empty() =~= service);
    assert(Seq::<char>::empty() + method + Seq::<char>::empty() =~= method);
    let dotted = service + seq!['.'] + method;
    dotted.index_of_last_ensures('/');
    if dotted.contains('/') {
        let i = choose|i: int| 0 <= i < dotted.len() && dotted[i] == '/';
        if i < service.len() {
            assert(dotted[i] == service[i]);
            assert(service.contains('/'));
        } else if i > service.len() {
            assert(dotted[i] == method[i - service.len() - 1]);
            assert(method.contains('/'));
        }
    }
}

/// Whether a service description is a source file, to be compiled, and not
/// a compiled descriptor set: its path ends in `.proto`.
pub fn is_proto_source(path: &str) -> (b: bool)
    ensures
        b == has_suffix(path@, ".proto"@),
{
    ends_with(path, ".proto")
}

/// The path that a call of a method goes to.
pub open spec fn call_path(service: Seq<char>, method: Seq<char>) -> Seq<char> {
    seq!['/'] + service + seq!['/'] + method
}

/// The path that a call of `method` of the service `service` goes to.
pub fn method_path(service: &str, method: &str) -> (path: String)
    ensures
        path@ == call_path(service@, method@),
{
    proof {
        reveal_strlit("/");
    }
    let mut path = join("/", service);
    path.append("/");
    path.append(method);
    assert(path@ =~= call_path(service@, method@));
    path
}

/// The first of a service's methods that has the name `method`.
pub fn find_method(methods: &Vec<String>, method: &str) -> (r: Option<usize>)
    ensures
        match r {
            Some(i) => texts(methods@).index_of_first(method@) == Some(i as int),
            None => texts(methods@).index_of_first(method@) is None,
        },
{
    let n = methods.len();
    let mut i: usize = 0;
    while i < n
        invariant
            i <= n,
            n == methods@.len(),
            forall|j: int| 0 <= j < i ==> #[trigger] texts(methods@)[j] != method@,
        decreases n - i,
    {
        if str_eq(methods[i].as_str(), method) {
            proof {
                texts(methods@).index_of_first_ensures(method@);
                assert(texts(methods@)[i as int] == method@);
                assert(texts(methods@).contains(method@));
            }
            return Some(i);
        }
        i += 1;
    }
    proof {
        texts(methods@).index_of_first_ensures(method@);
    }
    None
}

/// What came of the set-up work of a gRPC worker: it is ready, or the step
/// at which the work stopped, with what the failing part said.
#[derive(Debug)]
pub enum GrpcSetup {
    /// The service description could not be loaded.
    ProtoUnreadable(String),
    /// The service description knows no such service.
    ServiceUnknown,
    /// The service has no such method.
    MethodUnknown,
    /// The request data does not fit the method's input.
    DataRejected(String),
    /// The address is no address.
    AddressRejected(String),
    /// The connection could not be made.
    ConnectFailed(String),
    /// The call path is no path.
    PathRejected(String),
    /// The connection did not become ready.
    NotReady(String),
    /// Everything is in place; the request message has so many octets.
    Ready(u64),
}

/// The result of a set-up, for a requester that was not set up before. What
/// is wrong with the service description, the method name or the address is
/// a configuration error; what is wrong with the request data or the call
/// path is an invalid request; a connection that cannot be made or does not
/// become ready is a connection error.
pub open spec fn grpc_setup_result(p: GrpcParamsView, setup: GrpcSetup) -> Result<
    (),
    RequestErrorView,
> {
    match setup {
        GrpcSetup::ProtoUnreadable(detail) => Err(
            RequestErrorView::ConfigError(
                "Failed to load proto '"@ + p.proto + "': "@ + detail@,
            ),
        ),
        _ => match method_parts(p.method) {
            None => Err(
                RequestErrorView::ConfigError(
                    "Failed to get method: invalid format: expected Service.Method or Service/Method, got: '"@
                        + p.method + "'"@,
                ),
            ),
            Some((service, method)) => match setup {
                GrpcSetup::ServiceUnknown => Err(
                    RequestErrorView::ConfigError(
                        "Failed to get method: service not found: "@ + service,
                    ),
                ),
                GrpcSetup::MethodUnknown => Err(
                    RequestErrorView::ConfigError(
                        "Failed to get method: method not found: "@ + method,
                    ),
                ),
                GrpcSetup::DataRejected(detail) => Err(
                    RequestErrorView::InvalidRequest("Failed to build request: "@ + detail@),
                ),
                GrpcSetup::AddressRejected(detail) => Err(
                    RequestErrorView::ConfigError("Invalid URI: "@ + detail@),
                ),
                GrpcSetup::ConnectFailed(detail) => Err(
                    RequestErrorView::ConnectionError("Failed to connect: "@ + detail@),
                ),
                GrpcSetup::PathRejected(detail) => Err(
                    RequestErrorView::InvalidRequest("Invalid path: "@ + detail@),
                ),
                GrpcSetup::NotReady(detail) => Err(
                    RequestErrorView::ConnectionError("Client not ready: "@ + detail@),
                ),
                _ => Ok(()),
            },
        },
    }
}

/// The error of a requester that is asked for a request before its set-up.
pub open spec fn missing_client() -> RequestErrorView {
    RequestErrorView::InternalError("Requester not initialised: Missing client"@)
}

/// What an exchange means to a gRPC worker that is set up.
pub open spec fn grpc_result(exchange: Exchange) -> Result<(), RequestErrorView> {
    match exchange {
        Exchange::Completed { .. } => Ok(()),
        Exchange::Failed(Failure::NotReady(detail)) => Err(
            RequestErrorView::ConnectionError("Client not ready (in request): "@ + detail@),
        ),
        Exchange::Failed(f) => Err(RequestErrorView::GrpcError("gRPC call failed: "@ + f.text())),
    }
}

/// The octets of the request message that a set-up has built, 0 where it
/// has built none.
pub open spec fn message_octets(setup: GrpcSetup) -> u64 {
    match setup {
        GrpcSetup::Ready(octets) => octets,
        _ => 0,
    }
}

/// The metrics after an exchange of a gRPC worker that is set up: a
/// completed call adds the octets of the answer to those received and the
/// octets of the request message to those sent, and has its latency
/// recorded; a failed one changes nothing.
pub open spec fn grpc_metrics(m: MetricsView, request_size: u64, exchange: Exchange) -> MetricsView {
    match exchange {
        Exchange::Completed { received, elapsed_micros } => (MetricsView {
            bytes_received: m.bytes_received.wrapping_add(received),
            bytes_sent: m.bytes_sent.wrapping_add(request_size),
            ..m
        }).recorded(latency_of(elapsed_micros)),
        Exchange::Failed(_) => m,
    }
}

/// A worker's gRPC requester.
#[derive(Debug)]
pub struct GrpcRequester {
    params: GrpcParams,
    timeout: u64,
    request_size: u64,
    ready: bool,
}

impl GrpcRequester {
    /// The parameters.
    pub closed spec fn params(&self) -> GrpcParamsView {
        self.params@
    }

    /// The timeout of the connection, in seconds.
    pub closed spec fn timeout(&self) -> u64 {
        self.timeout
    }

    /// The octets that each request counts as sent: those of the request
    /// message, known once the requester is set up.
    pub closed spec fn request_size(&self) -> u64 {
        self.request_size
    }

    /// A requester that is not set up yet.
    pub fn new(address: String, proto: String, method: String, data: Option<String>, timeout: u64) -> (g: Self)
        ensures
            g.params() == (GrpcParamsView {
                address: address@,
                proto: proto@,
                method: method@,
                data: text_of(data),
            }),
            g.timeout() == timeout,
            g.request_size() == 0,
            !g.initialized(),
    {
        GrpcRequester {
            params: GrpcParams { address, proto, method, data },
            timeout,
            request_size: 0,
            ready: false,
        }
    }

    /// The octets that each request counts as sent.
    pub fn octets_per_request(&self) -> (n: u64)
        ensures
            n == self.request_size(),
    {
        self.request_size
    }

    /// The address to connect to.
    pub fn address(&self) -> (a: &str)
        ensures
            a@ == self.params().address,
    {
        self.params.address.as_str()
    }

    /// The path of the service description.
    pub fn proto(&self) -> (p: &str)
        ensures
            p@ == self.params().proto,
    {
        self.params.proto.as_str()
    }

    /// The full method name.
    pub fn method(&self) -> (m: &str)
        ensures
            m@ == self.params().method,
    {
        self.params.method.as_str()
    }

    /// The request data, as JSON, if any.
    pub fn data(&self) -> (d: Option<&str>)
        ensures
            match d {
                Some(t) => self.params().data == Some(t@),
                None => self.params().data is None,
            },
    {
        match &self.params.data {
            Some(t) => Some(t.as_str()),
            None => None,
        }
    }

    /// The timeout of the connection, in seconds.
    pub fn timeout_secs(&self) -> (t: u64)
        ensures
            t == self.timeout(),
    {
        self.timeout
    }

    /// Whether set-up has succeeded.
    pub fn is_initialized(&self) -> (b: bool)
        ensures
            b == self.initialized(),
    {
        self.ready
    }
}

impl Requester for GrpcRequester {
    type Setup = GrpcSetup;

    closed spec fn initialized(&self) -> bool {
        self.ready
    }

    fn initialize(&mut self, setup: GrpcSetup) -> (r: Result<(), RequestError>)
        ensures
            final(self).params() == old(self).params(),
            final(self).timeout() == old(self).timeout(),
            !old(self).initialized() ==> outcome_of(r) == grpc_setup_result(
                old(self).params(),
                setup,
            ),
            final(self).request_size() == if !old(self).initialized() && r is Ok {
                message_octets(setup)
            } else {
                old(self).request_size()
            },
    {
        if self.ready {
            return Ok(());
        }
        let octets = match &setup {
            GrpcSetup::Ready(octets) => *octets,
            _ => 0,
        };
        if let GrpcSetup::ProtoUnreadable(detail) = setup {
            let mut message = join("Failed to load proto '", self.params.proto.as_str());
            message.append("': ");
            message.append(detail.as_str());
            assert(message@ =~= "Failed to load proto '"@ + self.params.proto@ + "': "@ + detail@);
            return Err(RequestError::ConfigError(message));
        }
        let (service, method) = match split_method_name(self.params.method.as_str()) {
            Some(parts) => parts,
            None => {
                let mut message = join(
                    "Failed to get method: invalid format: expected Service.Method or Service/Method, got: '",
                    self.params.method.as_str(),
                );
                message.append("'");
                return Err(RequestError::ConfigError(message));
            },
        };
        match setup {
            GrpcSetup::ServiceUnknown => Err(
                RequestError::ConfigError(
                    join("Failed to get method: service not found: ", service.as_str()),
                ),
            ),
            GrpcSetup::MethodUnknown => Err(
                RequestError::ConfigError(
                    join("Failed to get method: method not found: ", method.as_str()),
                ),
            ),
            GrpcSetup::DataRejected(detail) => Err(
                RequestError::InvalidRequest(join("Failed to build request: ", detail.as_str())),
            ),
            GrpcSetup::AddressRejected(detail) => Err(
                RequestError::ConfigError(join("Invalid URI: ", detail.as_str())),
            ),
            GrpcSetup::ConnectFailed(detail) => Err(
                RequestError::ConnectionError(join("Failed to connect: ", detail.as_str())),
            ),
            GrpcSetup::PathRejected(detail) => Err(
                RequestError::InvalidRequest(join("Invalid path: ", detail.as_str())),
            ),
            GrpcSetup::NotReady(detail) => Err(
                RequestError::ConnectionError(join("Client not ready: ", detail.as_str())),
            ),
            _ => {
                self.request_size = octets;
                self.ready = true;
                Ok(())
            },
        }
    }

    fn request(&self, metrics: &mut Metrics, exchange: Exchange) -> (r: Result<(), RequestError>)
        ensures
            !self.initialized() ==> outcome_of(r) == Err::<(), RequestErrorView>(missing_client())
                && final(metrics)@ == old(metrics)@,
            self.initialized() ==> outcome_of(r) == grpc_result(exchange) && final(metrics)@
                == grpc_metrics(old(metrics)@, self.request_size(), exchange),
    {
        if !self.ready {
            return Err(
                RequestError::InternalError(
                    String::from_str("Requester not initialised: Missing client"),
                ),
            );
        }
        match exchange {
            Exchange::Completed { received, elapsed_micros } => {
                metrics.add_bytes_received(received);
                metrics.add_bytes_sent(self.request_size);
                metrics.record_latency(latency_micros(elapsed_micros));
                Ok(())
            },
            Exchange::Failed(Failure::NotReady(detail)) => Err(
                RequestError::ConnectionError(
                    join("Client not ready (in request): ", detail.as_str()),
                ),
            ),
            Exchange::Failed(failure) => {
                let text = failure.describe();
                Err(RequestError::GrpcError(join("gRPC call failed: ", text.as_str())))
            },
        }
    }
}

} // verus!
