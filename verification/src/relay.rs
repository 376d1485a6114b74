//! The relay itself: one inbound request becomes one outbound request, and
//! whatever comes of the exchange with the origin becomes the answer to the
//! caller. Bodies are not held here; they pass from one side to the other as
//! they arrive.

use vstd::prelude::*;
use vstd::string::StringExecFns;

use crate::error::RelayError;
use crate::error::RelayErrorView;
use crate::header::ascii;
use crate::header::Direction;
use crate::header::Header;
use crate::header::HeaderView;
use crate::target::law_no_query_no_target;
use crate::target::law_target_is_raw_query;
use crate::target::resolve_target;
use crate::target::target_of;
use crate::wire::check_status;
use crate::wire::is_status;
use crate::wire::passed_on;
use crate::wire::sanitize_headers;
use crate::wire::sanitized;

verus! {

/// A request as the inbound server hands it to the relay.
#[derive(Clone, Debug, PartialEq, Eq)]
pub struct InboundRequest {
    /// The method token.
    pub method: String,
    /// The request URI as it was received.
    pub uri: String,
    /// The header fields, in the order in which they were received.
    pub headers: Vec<Header>,
}

/// The mathematical content of an [`InboundRequest`].
pub struct InboundRequestView {
    pub method: Seq<char>,
    pub uri: Seq<char>,
    pub headers: Seq<HeaderView>,
}

impl View for InboundRequest {
    type V = InboundRequestView;

    open spec fn view(&self) -> InboundRequestView {
        InboundRequestView {
            method: self.method@,
            uri: self.uri@,
            headers: self.headers.deep_view(),
        }
    }
}

/// A request as the relay hands it to the outbound client.
#[derive(Clone, Debug, PartialEq, Eq)]
pub struct OutboundRequest {
    /// The method token, as the caller sent it.
    pub method: String,
    /// The absolute URL of the origin.
    pub url: String,
    /// The header fields to send.
    pub headers: Vec<Header>,
}

/// The mathematical content of an [`OutboundRequest`].
pub struct OutboundRequestView {
    pub method: Seq<char>,
    pub url: Seq<char>,
    pub headers: Seq<HeaderView>,
}

impl View for OutboundRequest {
    type V = OutboundRequestView;

    open spec fn view(&self) -> OutboundRequestView {
        OutboundRequestView {
            method: self.method@,
            url: self.url@,
            headers: self.headers.deep_view(),
        }
    }
}

/// The head of the origin's answer, as the outbound client received it.
#[derive(Clone, Debug, PartialEq, Eq)]
pub struct OutboundResponse {
    pub status: u16,
    pub headers: Vec<Header>,
}

/// The mathematical content of an [`OutboundResponse`].
pub struct OutboundResponseView {
    pub status: u16,
    pub headers: Seq<HeaderView>,
}

impl View for OutboundResponse {
    type V = OutboundResponseView;

    open spec fn view(&self) -> OutboundResponseView {
        OutboundResponseView { status: self.status, headers: self.headers.deep_view() }
    }
}

/// Where the body of the relay's answer comes from.
#[derive(Clone, Debug, PartialEq, Eq)]
pub enum ResponseBody {
    /// A text that the relay wrote itself.
    Text(String),
    /// The body of the origin's answer, passed through as it arrives.
    Origin,
}

/// The mathematical content of a [`ResponseBody`].
pub enum ResponseBodyView {
    Text(Seq<char>),
    Origin,
}

impl View for ResponseBody {
    type V = ResponseBodyView;

    open spec fn view(&self) -> ResponseBodyView {
        match self {
            ResponseBody::Text(text) => ResponseBodyView::Text(text@),
            ResponseBody::Origin => ResponseBodyView::Origin,
        }
    }
}

/// The relay's answer to the caller.
#[derive(Clone, Debug, PartialEq, Eq)]
pub struct ProxyResponse {
    pub status: u16,
    pub headers: Vec<Header>,
    pub body: ResponseBody,
}

/// The mathematical content of a [`ProxyResponse`].
pub struct ProxyResponseView {
    pub status: u16,
    pub headers: Seq<HeaderView>,
    pub body: ResponseBodyView,
}

impl View for ProxyResponse {
    type V = ProxyResponseView;

    open spec fn view(&self) -> ProxyResponseView {
        ProxyResponseView {
            status: self.status,
            headers: self.headers.deep_view(),
            body: self.body@,
        }
    }
}

/// What came of the exchange with the origin.
#[derive(Clone, Debug, PartialEq, Eq)]
pub enum Exchange {
    /// The origin answered.
    Answered(OutboundResponse),
    /// The outbound client gave up; the text says why.
    Failed(String),
}

/// The mathematical content of an [`Exchange`].
pub enum ExchangeView {
    Answered(OutboundResponseView),
    Failed(Seq<char>),
}

impl View for Exchange {
    type V = ExchangeView;

    open spec fn view(&self) -> ExchangeView {
        match self {
            Exchange::Answered(response) => ExchangeView::Answered(response@),
            Exchange::Failed(cause) => ExchangeView::Failed(cause@),
        }
    }
}

/// The outbound request that an inbound request stands for: the same method,
/// the destination taken from the URI, and the header set made fit for the
/// origin. A URI without a destination fails before any header is looked at.
pub open spec fn forwarded(request: InboundRequestView) -> Result<
    OutboundRequestView,
    RelayErrorView,
> {
    match target_of(request.uri) {
        None => Err(RelayErrorView::MalformedTarget),
        Some(url) => match sanitized(request.headers, Direction::RequestBound) {
            Err(e) => Err(e),
            Ok(headers) => Ok(OutboundRequestView { method: request.method, url, headers }),
        },
    }
}

/// The answer that the head of an origin's answer stands for: the same
/// status, the header set made fit for the caller, and the origin's body. A
/// status that is none fails before any header is looked at.
pub open spec fn returned(response: OutboundResponseView) -> Result<
    ProxyResponseView,
    RelayErrorView,
> {
    if !is_status(response.status) {
        Err(RelayErrorView::RelayFailure { cause: "invalid status code"@ })
    } else {
        match sanitized(response.headers, Direction::ResponseBound) {
            Err(e) => Err(e),
            Ok(headers) => Ok(
                ProxyResponseView {
                    status: response.status,
                    headers,
                    body: ResponseBodyView::Origin,
                },
            ),
        }
    }
}

/// The header set of the answer that reports `error`. A failure on the
/// relay's side is labelled as plain text.
pub open spec fn report_headers(error: RelayErrorView) -> Seq<HeaderView> {
    match error {
        RelayErrorView::MalformedTarget => seq![],
        _ => seq![
            HeaderView {
                name: ascii("content-type"@),
                value: ascii("text/plain; charset=utf-8"@),
            },
        ],
    }
}

/// The answer that reports `error` to a caller who asked for `request_url`.
pub open spec fn report(error: RelayErrorView, request_url: Seq<char>) -> ProxyResponseView {
    ProxyResponseView {
        status: error.status_code(),
        headers: report_headers(error),
        body: ResponseBodyView::Text(error.description(request_url)),
    }
}

/// The answer that an exchange with the origin ends in: the origin's own
/// where it can be passed on, a report of what went wrong where not.
pub open spec fn conclusion(exchange: ExchangeView) -> ProxyResponseView {
    match exchange {
        ExchangeView::Answered(response) => match returned(response) {
            Ok(answer) => answer,
            Err(e) => report(e, Seq::empty()),
        },
        ExchangeView::Failed(cause) => report(
            RelayErrorView::RelayFailure { cause },
            Seq::empty(),
        ),
    }
}

/// Turns an inbound request into the request to send to the origin.
pub fn outbound_request(request: &InboundRequest) -> (r: Result<OutboundRequest, RelayError>)
    ensures
        match r {
            Ok(out) => forwarded(request@) == Ok::<_, RelayErrorView>(out@),
            Err(e) => forwarded(request@) == Err::<OutboundRequestView, _>(e@),
        },
{
    let url = match resolve_target(request.uri.as_str()) {
        Ok(url) => url,
        Err(e) => {
            return Err(e);
        },
    };
    let headers = match sanitize_headers(request.headers.as_slice(), Direction::RequestBound) {
        Ok(headers) => headers,
        Err(e) => {
            return Err(e);
        },
    };
    Ok(OutboundRequest { method: request.method.clone(), url, headers })
}

/// Turns the head of the origin's answer into the answer for the caller.
pub fn proxy_response(response: &OutboundResponse) -> (r: Result<ProxyResponse, RelayError>)
    ensures
        match r {
            Ok(answer) => returned(response@) == Ok::<_, RelayErrorView>(answer@),
            Err(e) => returned(response@) == Err::<ProxyResponseView, _>(e@),
        },
{
    let status = match check_status(response.status) {
        Ok(status) => status,
        Err(e) => {
            return Err(e);
        },
    };
    let headers = match sanitize_headers(response.headers.as_slice(), Direction::ResponseBound) {
        Ok(headers) => headers,
        Err(e) => {
            return Err(e);
        },
    };
    Ok(ProxyResponse { status, headers, body: ResponseBody::Origin })
}

/// Writes the answer that reports `error` to a caller who asked for
/// `request_url`.
pub fn error_response(error: &RelayError, request_url: &str) -> (answer: ProxyResponse)
    ensures
        answer@ == report(error@, request_url@),
{
    broadcast use vstd::string::is_ascii_spec_bytes;

    let mut headers: Vec<Header> = Vec::new();
    match error {
        RelayError::MalformedTarget => {},
        _ => {
            let name = "content-type".as_bytes();
            let value = "text/plain; charset=utf-8".as_bytes();
            proof {
                reveal_strlit("content-type");
                reveal_strlit("text/plain; charset=utf-8");
                assert(vstd::string::is_ascii("content-type"));
                assert(vstd::string::is_ascii("text/plain; charset=utf-8"));
                assert(name@ =~= ascii("content-type"@));
                assert(value@ =~= ascii("text/plain; charset=utf-8"@));
            }
            headers.push(Header::new(name, value));
        },
    }
    assert(headers.deep_view() =~= report_headers(error@));
    ProxyResponse {
        status: error.status(),
        headers,
        body: ResponseBody::Text(error.message(request_url)),
    }
}

/// Writes the answer that an exchange with the origin ends in.
pub fn conclude(exchange: &Exchange) -> (answer: ProxyResponse)
    ensures
        answer@ == conclusion(exchange@),
{
    match exchange {
        Exchange::Answered(response) => match proxy_response(response) {
            Ok(answer) => answer,
            Err(e) => {
                let answer = error_response(&e, "");
                proof {
                    reveal_strlit("");
                    assert(""@ =~= Seq::<char>::empty());
                }
                answer
            },
        },
        Exchange::Failed(cause) => {
            let error = RelayError::RelayFailure { cause: cause.clone() };
            let answer = error_response(&error, "");
            proof {
                reveal_strlit("");
                assert(""@ =~= Seq::<char>::empty());
            }
            answer
        },
    }
}

/// A status that the origin sent, from 100 to 599, reaches the caller as it
/// is, provided the origin's header set can be passed on.
pub proof fn law_status_passes_through(response: OutboundResponseView)
    requires
        100 <= response.status <= 599,
        sanitized(response.headers, Direction::ResponseBound) is Ok,
    ensures
        returned(response) is Ok,
        returned(response)->Ok_0.status == response.status,
        conclusion(ExchangeView::Answered(response)).status == response.status,
        conclusion(ExchangeView::Answered(response)).body is Origin,
{
}

/// Whatever comes of the exchange, the caller gets an answer with a status
/// that the inbound server can send.
pub proof fn law_every_exchange_is_answered(exchange: ExchangeView)
    ensures
        is_status(conclusion(exchange).status),
{
}

/// A request for a URI with something behind its first question mark goes to
/// the destination written there, character for character, under the method
/// it came with, provided its header set can be passed on.
pub proof fn law_request_goes_where_the_query_says(
    method: Seq<char>,
    path: Seq<char>,
    query: Seq<char>,
    headers: Seq<HeaderView>,
)
    requires
        !path.contains('?'),
        !path.contains('#'),
        !query.contains('#'),
        query.len() > 0,
        sanitized(headers, Direction::RequestBound) is Ok,
    ensures
        forwarded(InboundRequestView { method, uri: path + seq!['?'] + query, headers }) == Ok::<
            _,
            RelayErrorView,
        >(
            OutboundRequestView {
                method,
                url: query,
                headers: passed_on(headers, Direction::RequestBound),
            },
        ),
{
    law_target_is_raw_query(path, query);
}

/// A request for a URI with no question mark, or with nothing behind it, is
/// refused whatever else it holds, and the caller is told so under status
/// 400, in a text that quotes the URL that was asked for.
pub proof fn law_request_without_target_is_refused(
    request: InboundRequestView,
    request_url: Seq<char>,
)
    requires
        !request.uri.contains('?') || exists|path: Seq<char>|
            !path.contains('?') && !path.contains('#') && request.uri == path + seq!['?'],
    ensures
        forwarded(request) == Err::<OutboundRequestView, _>(RelayErrorView::MalformedTarget),
        report(RelayErrorView::MalformedTarget, request_url).status == 400,
        report(RelayErrorView::MalformedTarget, request_url).body == ResponseBodyView::Text(
            "bad url format: "@ + request_url,
        ),
{
    if !request.uri.contains('?') {
        law_no_query_no_target(request.uri);
    } else {
        let path = choose|path: Seq<char>|
            !path.contains('?') && !path.contains('#') && request.uri == path + seq!['?'];
        law_target_is_raw_query(path, Seq::empty());
        assert(path + seq!['?'] + Seq::<char>::empty() =~= path + seq!['?']);
    }
}

} // verus!
