//! What a worker sends: the request parameters of each protocol, and how the
//! command line's values become them.

use crate::fields::{distinct_names, lemma_upsert, upsert, Fields, Pair};
use crate::header::{
    form_field_of_line, header_lookup, header_of_line, lemma_canonical_name_is_canonical,
    parse_form_field, parse_header, Headers, SURE_HEADERS,
};
use crate::text::{join, texts};
use vstd::prelude::*;
use vstd::string::*;

verus! {

/// The verb of an HTTP request.
#[derive(Debug, Clone, Copy, PartialEq, Eq, Structural)]
pub enum HttpMethod {
    Get,
    Post,
    Put,
    Delete,
    Head,
    Options,
    Connect,
    Patch,
    Trace,
}

impl HttpMethod {
    /// The verb as it is written on the wire.
    pub open spec fn text(self) -> Seq<char> {
        match self {
            HttpMethod::Get => seq!['G', 'E', 'T'],
            HttpMethod::Post => seq!['P', 'O', 'S', 'T'],
            HttpMethod::Put => seq!['P', 'U', 'T'],
            HttpMethod::Delete => seq!['D', 'E', 'L', 'E', 'T', 'E'],
            HttpMethod::Head => seq!['H', 'E', 'A', 'D'],
            HttpMethod::Options => seq!['O', 'P', 'T', 'I', 'O', 'N', 'S'],
            HttpMethod::Connect => seq!['C', 'O', 'N', 'N', 'E', 'C', 'T'],
            HttpMethod::Patch => seq!['P', 'A', 'T', 'C', 'H'],
            HttpMethod::Trace => seq!['T', 'R', 'A', 'C', 'E'],
        }
    }

    /// The verb as it is written on the wire.
    pub fn as_str(self) -> (s: &'static str)
        ensures
            s@ == self.text(),
    {
        proof {
            reveal_strlit("GET");
            reveal_strlit("POST");
            reveal_strlit("PUT");
            reveal_strlit("DELETE");
            reveal_strlit("HEAD");
            reveal_strlit("OPTIONS");
            reveal_strlit("CONNECT");
            reveal_strlit("PATCH");
            reveal_strlit("TRACE");
        }
        let s = match self {
            HttpMethod::Get => "GET",
            HttpMethod::Post => "POST",
            HttpMethod::Put => "PUT",
            HttpMethod::Delete => "DELETE",
            HttpMethod::Head => "HEAD",
            HttpMethod::Options => "OPTIONS",
            HttpMethod::Connect => "CONNECT",
            HttpMethod::Patch => "PATCH",
            HttpMethod::Trace => "TRACE",
        };
        assert(s@ =~= self.text());
        s
    }

    /// The verb that a text names, if it names one.
    pub open spec fn of_text(text: Seq<char>) -> Option<HttpMethod> {
        if text == HttpMethod::Get.text() {
            Some(HttpMethod::Get)
        } else if text == HttpMethod::Post.text() {
            Some(HttpMethod::Post)
        } else if text == HttpMethod::Put.text() {
            Some(HttpMethod::Put)
        } else if text == HttpMethod::Delete.text() {
            Some(HttpMethod::Delete)
        } else if text == HttpMethod::Head.text() {
            Some(HttpMethod::Head)
        } else if text == HttpMethod::Options.text() {
            Some(HttpMethod::Options)
        } else if text == HttpMethod::Connect.text() {
            Some(HttpMethod::Connect)
        } else if text == HttpMethod::Patch.text() {
            Some(HttpMethod::Patch)
        } else if text == HttpMethod::Trace.text() {
            Some(HttpMethod::Trace)
        } else {
            None
        }
    }

    /// Reads a verb. Verbs are written in capitals.
    pub fn parse(text: &str) -> (r: Option<HttpMethod>)
        ensures
            r == HttpMethod::of_text(text@),
    {
        let all = [
            HttpMethod::Get,
            HttpMethod::Post,
            HttpMethod::Put,
            HttpMethod::Delete,
            HttpMethod::Head,
            HttpMethod::Options,
            HttpMethod::Connect,
            HttpMethod::Patch,
            HttpMethod::Trace,
        ];
        let mut i: usize = 0;
        while i < 9
            invariant
                i <= 9,
                all@.len() == 9,
                all@[0] == HttpMethod::Get,
                all@[1] == HttpMethod::Post,
                all@[2] == HttpMethod::Put,
                all@[3] == HttpMethod::Delete,
                all@[4] == HttpMethod::Head,
                all@[5] == HttpMethod::Options,
                all@[6] == HttpMethod::Connect,
                all@[7] == HttpMethod::Patch,
                all@[8] == HttpMethod::Trace,
                forall|j: int| 0 <= j < i ==> text@ != (#[trigger] all@[j]).text(),
            decreases 9 - i,
        {
            let m = all[i];
            if crate::fields::str_eq(text, m.as_str()) {
                return Some(m);
            }
            i += 1;
        }
        proof {
            assert(text@ != all@[0].text());
            assert(text@ != all@[1].text());
            assert(text@ != all@[2].text());
            assert(text@ != all@[3].text());
            assert(text@ != all@[4].text());
            assert(text@ != all@[5].text());
            assert(text@ != all@[6].text());
            assert(text@ != all@[7].text());
            assert(text@ != all@[8].text());
        }
        None
    }
}

/// Every verb is read back from its text.
pub proof fn lemma_method_text_roundtrip(m: HttpMethod)
    ensures
        HttpMethod::of_text(m.text()) == Some(m),
{
    assert(HttpMethod::Get.text().len() == 3 && HttpMethod::Get.text()[0] == 'G');
    assert(HttpMethod::Post.text().len() == 4 && HttpMethod::Post.text()[1] == 'O');
    assert(HttpMethod::Put.text().len() == 3 && HttpMethod::Put.text()[0] == 'P');
    assert(HttpMethod::Delete.text().len() == 6);
    assert(HttpMethod::Head.text().len() == 4 && HttpMethod::Head.text()[0] == 'H');
    assert(HttpMethod::Options.text().len() == 7 && HttpMethod::Options.text()[0] == 'O');
    assert(HttpMethod::Connect.text().len() == 7 && HttpMethod::Connect.text()[0] == 'C');
    assert(HttpMethod::Patch.text().len() == 5 && HttpMethod::Patch.text()[0] == 'P');
    assert(HttpMethod::Trace.text().len() == 5 && HttpMethod::Trace.text()[0] == 'T');
}

/// The view of an optional text.
pub open spec fn text_of(o: Option<String>) -> Option<Seq<char>> {
    match o {
        Some(s) => Some(s@),
        None => None,
    }
}

fn clone_text(o: &Option<String>) -> (c: Option<String>)
    ensures
        text_of(c) == text_of(*o),
{
    match o {
        Some(s) => Some(s.clone()),
        None => None,
    }
}

/// What an HTTP worker sends.
#[derive(Debug)]
pub struct HttpParams {
    pub url: String,
    pub method: HttpMethod,
    pub headers: Headers,
    pub body: Option<String>,
    pub form: Fields,
}

pub ghost struct HttpParamsView {
    pub url: Seq<char>,
    pub method: HttpMethod,
    pub headers: Seq<Pair>,
    pub body: Option<Seq<char>>,
    pub form: Seq<Pair>,
}

impl View for HttpParams {
    type V = HttpParamsView;

    open spec fn view(&self) -> HttpParamsView {
        HttpParamsView {
            url: self.url@,
            method: self.method,
            headers: self.headers@,
            body: text_of(self.body),
            form: self.form@,
        }
    }
}

impl HttpParams {
    /// The value of the header `name`, in whatever case the name is written.
    pub fn header(&self, name: &str) -> (r: Option<String>)
        ensures
            match r {
                Some(v) => header_lookup(self@.headers, name@) == Some(v@),
                None => header_lookup(self@.headers, name@) is None,
            },
    {
        self.headers.get(name)
    }

    /// A copy of the parameters.
    pub fn clone(&self) -> (c: Self)
        ensures
            c@ == self@,
    {
        HttpParams {
            url: self.url.clone(),
            method: self.method,
            headers: self.headers.clone(),
            body: clone_text(&self.body),
            form: self.form.clone(),
        }
    }
}

/// What a gRPC worker sends.
#[derive(Debug)]
pub struct GrpcParams {
    pub address: String,
    pub proto: String,
    pub method: String,
    pub data: Option<String>,
}

pub ghost struct GrpcParamsView {
    pub address: Seq<char>,
    pub proto: Seq<char>,
    pub method: Seq<char>,
    pub data: Option<Seq<char>>,
}

impl View for GrpcParams {
    type V = GrpcParamsView;

    open spec fn view(&self) -> GrpcParamsView {
        GrpcParamsView {
            address: self.address@,
            proto: self.proto@,
            method: self.method@,
            data: text_of(self.data),
        }
    }
}

impl GrpcParams {
    pub fn clone(&self) -> (c: Self)
        ensures
            c@ == self@,
    {
        GrpcParams {
            address: self.address.clone(),
            proto: self.proto.clone(),
            method: self.method.clone(),
            data: clone_text(&self.data),
        }
    }
}

/// What a WebSocket worker sends.
#[derive(Debug)]
pub struct WebsocketParams {
    pub url: String,
    pub data: String,
}

pub ghost struct WebsocketParamsView {
    pub url: Seq<char>,
    pub data: Seq<char>,
}

impl View for WebsocketParams {
    type V = WebsocketParamsView;

    open spec fn view(&self) -> WebsocketParamsView {
        WebsocketParamsView { url: self.url@, data: self.data@ }
    }
}

impl WebsocketParams {
    pub fn clone(&self) -> (c: Self)
        ensures
            c@ == self@,
    {
        WebsocketParams { url: self.url.clone(), data: self.data.clone() }
    }
}

/// The request parameters of a run, by protocol.
#[derive(Debug)]
pub enum RequestParams {
    Http(HttpParams),
    Grpc(GrpcParams),
    Websocket(WebsocketParams),
}

pub ghost enum RequestParamsView {
    Http(HttpParamsView),
    Grpc(GrpcParamsView),
    Websocket(WebsocketParamsView),
}

impl View for RequestParams {
    type V = RequestParamsView;

    open spec fn view(&self) -> RequestParamsView {
        match self {
            RequestParams::Http(p) => RequestParamsView::Http(p@),
            RequestParams::Grpc(p) => RequestParamsView::Grpc(p@),
            RequestParams::Websocket(p) => RequestParamsView::Websocket(p@),
        }
    }
}

impl RequestParams {
    /// A copy for one more worker.
    pub fn clone(&self) -> (c: RequestParams)
        ensures
            c@ == self@,
    {
        match self {
            RequestParams::Http(params) => RequestParams::Http(params.clone()),
            RequestParams::Grpc(params) => RequestParams::Grpc(params.clone()),
            RequestParams::Websocket(params) => RequestParams::Websocket(params.clone()),
        }
    }
}

/// The protocol and its values as the command line gives them.
#[derive(Debug)]
#[allow(inconsistent_fields)]
pub enum Command {
    Http { method: HttpMethod, url: String, body: Option<String>, headers: Vec<String>, form: Vec<String> },
    Grpc { address: String, proto: String, method: String, data: Option<String> },
    Websocket { url: String, data: String },
}

/// The headers that a list of header lines gives: each line that stands for
/// a header binds its name, a later line in place of an earlier one.
pub open spec fn headers_of_lines(lines: Seq<String>) -> Seq<Pair>
    decreases lines.len(),
{
    if lines.len() == 0 {
        Seq::empty()
    } else {
        let earlier = headers_of_lines(lines.drop_last());
        match header_of_line(lines.last()@) {
            Some((name, value)) => upsert(earlier, name, value),
            None => earlier,
        }
    }
}

/// The form fields that a list of form lines gives.
pub open spec fn form_of_lines(lines: Seq<String>) -> Seq<Pair>
    decreases lines.len(),
{
    if lines.len() == 0 {
        Seq::empty()
    } else {
        let earlier = form_of_lines(lines.drop_last());
        match form_field_of_line(lines.last()@) {
            Some((name, value)) => upsert(earlier, name, value),
            None => earlier,
        }
    }
}

/// The complaints about the header lines that stand for no header, in order.
pub open spec fn header_complaints(lines: Seq<String>) -> Seq<Seq<char>>
    decreases lines.len(),
{
    if lines.len() == 0 {
        Seq::empty()
    } else {
        let earlier = header_complaints(lines.drop_last());
        if header_of_line(lines.last()@) is None {
            earlier.push("Invalid header: "@ + lines.last()@)
        } else {
            earlier
        }
    }
}

/// The complaints about the form lines that stand for no field, in order.
pub open spec fn form_complaints(lines: Seq<String>) -> Seq<Seq<char>>
    decreases lines.len(),
{
    if lines.len() == 0 {
        Seq::empty()
    } else {
        let earlier = form_complaints(lines.drop_last());
        if form_field_of_line(lines.last()@) is None {
            earlier.push("Invalid form parameter: "@ + lines.last()@)
        } else {
            earlier
        }
    }
}

/// The headers that a list of header lines gives where the map of headers
/// took the header of line `i` exactly where `taken[i]` holds.
pub open spec fn headers_taken(lines: Seq<String>, taken: Seq<bool>) -> Seq<Pair>
    decreases lines.len(),
{
    if lines.len() == 0 {
        Seq::empty()
    } else {
        let earlier = headers_taken(lines.drop_last(), taken.drop_last());
        match header_of_line(lines.last()@) {
            Some((name, value)) => if taken.last() {
                upsert(earlier, name, value)
            } else {
                earlier
            },
            None => earlier,
        }
    }
}

/// The complaints about the header lines that stand for no header or whose
/// header the map did not take, in order.
pub open spec fn header_complaints_taken(lines: Seq<String>, taken: Seq<bool>) -> Seq<Seq<char>>
    decreases lines.len(),
{
    if lines.len() == 0 {
        Seq::empty()
    } else {
        let earlier = header_complaints_taken(lines.drop_last(), taken.drop_last());
        if header_of_line(lines.last()@) is None || !taken.last() {
            earlier.push("Invalid header: "@ + lines.last()@)
        } else {
            earlier
        }
    }
}

/// Whether `taken` is a way in which the map of headers may take the headers
/// of `lines`: it takes every header while it holds fewer than
/// `SURE_HEADERS`.
pub open spec fn may_be_taken(lines: Seq<String>, taken: Seq<bool>) -> bool {
    &&& taken.len() == lines.len()
    &&& forall|i: int|
        0 <= i < lines.len() && headers_taken(lines.take(i), taken.take(i)).len() < SURE_HEADERS
            ==> #[trigger] taken[i]
}

/// Where every header is taken, the lines give the headers and the
/// complaints that they stand for.
pub proof fn lemma_all_taken(lines: Seq<String>, taken: Seq<bool>)
    requires
        taken.len() == lines.len(),
        forall|i: int| 0 <= i < taken.len() ==> #[trigger] taken[i],
    ensures
        headers_taken(lines, taken) == headers_of_lines(lines),
        header_complaints_taken(lines, taken) == header_complaints(lines),
    decreases lines.len(),
{
    if lines.len() > 0 {
        assert(taken.last() == taken[taken.len() - 1]);
        assert forall|i: int| 0 <= i < taken.drop_last().len() implies #[trigger] taken.drop_last()[i] by {
            assert(taken[i]);
        }
        lemma_all_taken(lines.drop_last(), taken.drop_last());
    }
}

/// The request parameters that a command stands for.
pub open spec fn params_of(command: Command) -> RequestParamsView {
    match command {
        Command::Http { method, url, body, headers, form } => RequestParamsView::Http(
            HttpParamsView {
                url: url@,
                method,
                headers: headers_of_lines(headers@),
                body: text_of(body),
                form: form_of_lines(form@),
            },
        ),
        Command::Grpc { address, proto, method, data } => RequestParamsView::Grpc(
            GrpcParamsView { address: address@, proto: proto@, method: method@, data: text_of(data) },
        ),
        Command::Websocket { url, data } => RequestParamsView::Websocket(
            WebsocketParamsView { url: url@, data: data@ },
        ),
    }
}

/// The complaints that a command gives rise to: those about its header
/// lines, then those about its form lines.
pub open spec fn complaints_of(command: Command) -> Seq<Seq<char>> {
    match command {
        Command::Http { method, url, body, headers, form } => header_complaints(headers@)
            + form_complaints(form@),
        _ => Seq::empty(),
    }
}

/// Whether two lists of header lines mean the same, line for line.
pub open spec fn same_headers(a: Seq<String>, b: Seq<String>) -> bool {
    a.len() == b.len() && forall|i: int|
        0 <= i < a.len() ==> header_of_line(#[trigger] a[i]@) == header_of_line(b[i]@)
}

/// Whether two lists of form lines mean the same, line for line.
pub open spec fn same_form(a: Seq<String>, b: Seq<String>) -> bool {
    a.len() == b.len() && forall|i: int|
        0 <= i < a.len() ==> form_field_of_line(#[trigger] a[i]@) == form_field_of_line(b[i]@)
}

/// Header lines that mean the same give the same headers.
pub proof fn lemma_headers_by_meaning(a: Seq<String>, b: Seq<String>)
    requires
        same_headers(a, b),
    ensures
        headers_of_lines(a) == headers_of_lines(b),
    decreases a.len(),
{
    if a.len() > 0 {
        assert(header_of_line(a[a.len() - 1]@) == header_of_line(b[a.len() - 1]@));
        assert forall|i: int| 0 <= i < a.drop_last().len() implies header_of_line(
            #[trigger] a.drop_last()[i]@,
        ) == header_of_line(b.drop_last()[i]@) by {
            assert(header_of_line(a[i]@) == header_of_line(b[i]@));
        }
        lemma_headers_by_meaning(a.drop_last(), b.drop_last());
    }
}

/// Form lines that mean the same give the same form fields.
pub proof fn lemma_form_by_meaning(a: Seq<String>, b: Seq<String>)
    requires
        same_form(a, b),
    ensures
        form_of_lines(a) == form_of_lines(b),
    decreases a.len(),
{
    if a.len() > 0 {
        assert(form_field_of_line(a[a.len() - 1]@) == form_field_of_line(b[a.len() - 1]@));
        assert forall|i: int| 0 <= i < a.drop_last().len() implies form_field_of_line(
            #[trigger] a.drop_last()[i]@,
        ) == form_field_of_line(b.drop_last()[i]@) by {
            assert(form_field_of_line(a[i]@) == form_field_of_line(b[i]@));
        }
        lemma_form_by_meaning(a.drop_last(), b.drop_last());
    }
}

/// Two commands that differ in the white space of their header and form
/// lines alone stand for the same request parameters: what counts is the
/// header or the field that each line stands for.
pub proof fn lemma_params_by_meaning(a: Command, b: Command)
    requires
        a matches Command::Http { method, url, body, headers, form } && b matches Command::Http {
            method: method_b,
            url: url_b,
            body: body_b,
            headers: headers_b,
            form: form_b,
        } && method == method_b && url@ == url_b@ && text_of(body) == text_of(body_b)
            && same_headers(headers@, headers_b@) && same_form(form@, form_b@),
    ensures
        params_of(a) == params_of(b),
{
    match (a, b) {
        (
            Command::Http { method, url, body, headers, form },
            Command::Http {
                method: method_b,
                url: url_b,
                body: body_b,
                headers: headers_b,
                form: form_b,
            },
        ) => {
            lemma_headers_by_meaning(headers@, headers_b@);
            lemma_form_by_meaning(form@, form_b@);
        },
        _ => {},
    }
}

/// Header lines never bind a name twice.
pub proof fn lemma_headers_distinct(lines: Seq<String>)
    ensures
        distinct_names(headers_of_lines(lines)),
    decreases lines.len(),
{
    if lines.len() > 0 {
        lemma_headers_distinct(lines.drop_last());
        match header_of_line(lines.last()@) {
            Some((name, value)) => {
                lemma_upsert(headers_of_lines(lines.drop_last()), name, value);
            },
            None => {},
        }
    }
}

/// Form lines never bind a name twice.
pub proof fn lemma_form_distinct(lines: Seq<String>)
    ensures
        distinct_names(form_of_lines(lines)),
    decreases lines.len(),
{
    if lines.len() > 0 {
        lemma_form_distinct(lines.drop_last());
        match form_field_of_line(lines.last()@) {
            Some((name, value)) => {
                lemma_upsert(form_of_lines(lines.drop_last()), name, value);
            },
            None => {},
        }
    }
}

fn read_headers(lines: &Vec<String>, complaints: &mut Vec<String>) -> (r: (
    Headers,
    Ghost<Seq<bool>>,
))
    ensures
        distinct_names(r.0@),
        may_be_taken(lines@, r.1@),
        r.0@ == headers_taken(lines@, r.1@),
        texts(final(complaints)@) == texts(old(complaints)@) + header_complaints_taken(
            lines@,
            r.1@,
        ),
        lines@.len() <= SURE_HEADERS ==> r.0@ == headers_of_lines(lines@) && texts(
            final(complaints)@,
        ) == texts(old(complaints)@) + header_complaints(lines@),
{
    let mut headers = Headers::new();
    let ghost mut taken: Seq<bool> = Seq::empty();
    let n = lines.len();
    let mut i: usize = 0;
    proof {
        assert(lines@.take(0) =~= Seq::<String>::empty());
        assert(texts(complaints@) + Seq::<Seq<char>>::empty() =~= texts(complaints@));
    }
    while i < n
        invariant
            i <= n,
            n == lines@.len(),
            distinct_names(headers@),
            headers@.len() <= i,
            taken.len() == i,
            may_be_taken(lines@.take(i as int), taken),
            headers@ == headers_taken(lines@.take(i as int), taken),
            texts(complaints@) == texts(old(complaints)@) + header_complaints_taken(
                lines@.take(i as int),
                taken,
            ),
            n <= SURE_HEADERS ==> forall|j: int| 0 <= j < i ==> #[trigger] taken[j],
        decreases n - i,
    {
        let ghost before = complaints@;
        let ghost held = headers@;
        let ghost earlier = taken;
        let bound = match parse_header(lines[i].as_str()) {
            Some((name, value)) => {
                proof {
                    // The name comes back in lower case, which stands for itself.
                    let parts = crate::text::split_at_first(lines@[i as int]@, ':').unwrap();
                    lemma_canonical_name_is_canonical(crate::text::trimmed(parts.0));
                    lemma_upsert(held, name@, value@);
                }
                headers.insert(name.as_str(), value.as_str())
            },
            None => false,
        };
        proof {
            let took = bound || header_of_line(lines@[i as int]@) is None;
            taken = earlier.push(took);
            let now = lines@.take(i as int + 1);
            assert(now.drop_last() =~= lines@.take(i as int));
            assert(now.last() == lines@[i as int]);
            assert(taken.drop_last() =~= earlier);
            assert(taken.last() == took);
            assert forall|j: int|
                0 <= j < now.len() && headers_taken(now.take(j), taken.take(j)).len()
                    < SURE_HEADERS implies #[trigger] taken[j] by {
                if j < i {
                    assert(now.take(j) =~= lines@.take(i as int).take(j));
                    assert(taken.take(j) =~= earlier.take(j));
                    assert(earlier[j]);
                } else {
                    assert(now.take(j) =~= lines@.take(i as int));
                    assert(taken.take(j) =~= earlier);
                }
            }
        }
        if !bound {
            complaints.push(join("Invalid header: ", lines[i].as_str()));
            proof {
                assert(texts(complaints@) =~= texts(before).push(
                    "Invalid header: "@ + lines@[i as int]@,
                ));
                assert(texts(complaints@) =~= texts(old(complaints)@) + header_complaints_taken(
                    lines@.take(i as int + 1),
                    taken,
                ));
            }
        }
        i += 1;
    }
    proof {
        assert(lines@.take(n as int) =~= lines@);
        if n <= SURE_HEADERS {
            lemma_all_taken(lines@, taken);
        }
    }
    (headers, Ghost(taken))
}

fn read_form(lines: &Vec<String>, complaints: &mut Vec<String>) -> (form: Fields)
    ensures
        form@ == form_of_lines(lines@),
        form.wf(),
        texts(final(complaints)@) == texts(old(complaints)@) + form_complaints(lines@),
{
    let mut form = Fields::new();
    let n = lines.len();
    let mut i: usize = 0;
    proof {
        assert(lines@.take(0) =~= Seq::<String>::empty());
        assert(texts(complaints@) + Seq::<Seq<char>>::empty() =~= texts(complaints@));
    }
    while i < n
        invariant
            i <= n,
            n == lines@.len(),
            form@ == form_of_lines(lines@.take(i as int)),
            texts(complaints@) == texts(old(complaints)@) + form_complaints(
                lines@.take(i as int),
            ),
        decreases n - i,
    {
        proof {
            assert(lines@.take(i as int + 1).drop_last() =~= lines@.take(i as int));
            assert(lines@.take(i as int + 1).last() == lines@[i as int]);
        }
        let ghost before = complaints@;
        match parse_form_field(lines[i].as_str()) {
            Some((name, value)) => {
                form.insert(name, value);
            },
            None => {
                complaints.push(join("Invalid form parameter: ", lines[i].as_str()));
                assert(texts(complaints@) =~= texts(before).push(
                    "Invalid form parameter: "@ + lines@[i as int]@,
                ));
                assert(texts(complaints@) =~= texts(old(complaints)@) + form_complaints(
                    lines@.take(i as int + 1),
                ));
            },
        }
        i += 1;
    }
    proof {
        assert(lines@.take(n as int) =~= lines@);
        lemma_form_distinct(lines@);
    }
    form
}

/// Whether the header lines of a command are so few that every header is
/// sure to be taken.
pub open spec fn headers_are_sure(command: Command) -> bool {
    match command {
        Command::Http { method, url, body, headers, form } => headers@.len() <= SURE_HEADERS,
        _ => true,
    }
}

/// The request parameters that a command stands for where the map of
/// headers took the header of line `i` exactly where `taken[i]` holds.
pub open spec fn params_taken(command: Command, taken: Seq<bool>) -> RequestParamsView {
    match command {
        Command::Http { method, url, body, headers, form } => RequestParamsView::Http(
            HttpParamsView {
                url: url@,
                method,
                headers: headers_taken(headers@, taken),
                body: text_of(body),
                form: form_of_lines(form@),
            },
        ),
        _ => params_of(command),
    }
}

/// The complaints that a command gives rise to where the map of headers
/// took the header of line `i` exactly where `taken[i]` holds.
pub open spec fn complaints_taken(command: Command, taken: Seq<bool>) -> Seq<Seq<char>> {
    match command {
        Command::Http { method, url, body, headers, form } => header_complaints_taken(
            headers@,
            taken,
        ) + form_complaints(form@),
        _ => Seq::empty(),
    }
}

/// Whether `taken` is a way in which the map of headers may take the headers
/// of a command.
pub open spec fn command_may_be_taken(command: Command, taken: Seq<bool>) -> bool {
    match command {
        Command::Http { method, url, body, headers, form } => may_be_taken(headers@, taken),
        _ => true,
    }
}

/// Turns the command line's values into request parameters. Header lines are
/// read before form lines. A line that cannot be read is left out, and a
/// complaint about it is returned for the caller to show.
///
/// The headers are kept in a map that may refuse a header once it holds
/// very many; such a header is left out with a complaint too. Up to
/// `SURE_HEADERS` header lines none is refused, and the result is what the
/// command stands for. Beyond that it is what the command stands for with
/// the headers that the map took.
pub fn parse_request_params(command: Command) -> (r: (RequestParams, Vec<String>))
    ensures
        headers_are_sure(command) ==> r.0@ == params_of(command) && texts(r.1@) == complaints_of(
            command,
        ),
        exists|taken: Seq<bool>| #[trigger]
            command_may_be_taken(command, taken) && r.0@ == params_taken(command, taken) && texts(
                r.1@,
            ) == complaints_taken(command, taken),
        r.0 matches RequestParams::Http(p) ==> distinct_names(p@.headers) && p.form.wf(),
{
    let mut complaints: Vec<String> = Vec::new();
    proof {
        assert(texts(complaints@) =~= Seq::<Seq<char>>::empty());
    }
    match command {
        Command::Http { method, url, body, headers, form } => {
            let (header_map, Ghost(taken)) = read_headers(&headers, &mut complaints);
            proof {
                assert(texts(complaints@) =~= header_complaints_taken(headers@, taken));
                if headers@.len() <= SURE_HEADERS {
                    assert(texts(complaints@) =~= header_complaints(headers@));
                }
            }
            let form_fields = read_form(&form, &mut complaints);
            let r = (
                RequestParams::Http(
                    HttpParams { url, method, headers: header_map, body, form: form_fields },
                ),
                complaints,
            );
            proof {
                assert(command_may_be_taken(command, taken) && r.0@ == params_taken(command, taken)
                    && texts(r.1@) == complaints_taken(command, taken));
            }
            r
        },
        Command::Grpc { address, proto, method, data } => {
            let r = (RequestParams::Grpc(GrpcParams { address, proto, method, data }), complaints);
            proof {
                let none = Seq::<bool>::empty();
                assert(command_may_be_taken(command, none) && r.0@ == params_taken(command, none)
                    && texts(r.1@) == complaints_taken(command, none));
            }
            r
        },
        Command::Websocket { url, data } => {
            let r = (RequestParams::Websocket(WebsocketParams { url, data }), complaints);
            proof {
                let none = Seq::<bool>::empty();
                assert(command_may_be_taken(command, none) && r.0@ == params_taken(command, none)
                    && texts(r.1@) == complaints_taken(command, none));
            }
            r
        },
    }
}

} // verus!
