use http_relay::error::HeaderPart;
use http_relay::error::RelayError;
use http_relay::header::Header;
use http_relay::relay::conclude;
use http_relay::relay::error_response;
use http_relay::relay::outbound_request;
use http_relay::relay::proxy_response;
use http_relay::relay::Exchange;
use http_relay::relay::InboundRequest;
use http_relay::relay::OutboundRequest;
use http_relay::relay::OutboundResponse;
use http_relay::relay::ProxyResponse;
use http_relay::relay::ResponseBody;

fn field(name: &str, value: &str) -> Header {
    Header::new(name.as_bytes(), value.as_bytes())
}

fn inbound(method: &str, uri: &str, headers: Vec<Header>) -> InboundRequest {
    InboundRequest { method: method.to_string(), uri: uri.to_string(), headers }
}

fn plain_text() -> Vec<Header> {
    vec![field("content-type", "text/plain; charset=utf-8")]
}

#[test]
fn get_is_relayed_to_the_origin_named_in_the_query() {
    let request = inbound(
        "GET",
        "/proxy?http://origin.test/hello",
        vec![field("Host", "relay.test:8080"), field("Accept", "*/*")],
    );
    assert_eq!(
        outbound_request(&request),
        Ok(OutboundRequest {
            method: "GET".to_string(),
            url: "http://origin.test/hello".to_string(),
            headers: vec![field("accept", "*/*")],
        })
    );
    let origin = OutboundResponse { status: 200, headers: vec![field("Content-Length", "2")] };
    assert_eq!(
        conclude(&Exchange::Answered(origin)),
        ProxyResponse {
            status: 200,
            headers: vec![field("content-length", "2")],
            body: ResponseBody::Origin,
        }
    );
}

#[test]
fn post_keeps_its_fields_but_not_the_callers_host() {
    let request = inbound(
        "POST",
        "/proxy?http://origin.test/echo",
        vec![
            field("host", "relay.test"),
            field("X-Test", "1"),
            field("Content-Type", "application/octet-stream"),
            field("Connection", "keep-alive"),
        ],
    );
    let outbound = outbound_request(&request).unwrap();
    assert_eq!(outbound.method, "POST");
    assert_eq!(outbound.url, "http://origin.test/echo");
    assert_eq!(
        outbound.headers,
        vec![
            field("x-test", "1"),
            field("content-type", "application/octet-stream"),
            field("connection", "keep-alive"),
        ]
    );
    assert!(outbound.headers.iter().all(|h| !h.name.eq_ignore_ascii_case(b"host")));

    let origin = OutboundResponse {
        status: 201,
        headers: vec![
            field("Content-Type", "application/octet-stream"),
            field("Connection", "close"),
            field("X-Origin", "yes"),
            field("Host", "origin.test"),
        ],
    };
    let answer = proxy_response(&origin).unwrap();
    assert_eq!(answer.status, 201);
    assert_eq!(
        answer.headers,
        vec![
            field("content-type", "application/octet-stream"),
            field("x-origin", "yes"),
            field("host", "origin.test"),
        ]
    );
    assert_eq!(answer.body, ResponseBody::Origin);
}

#[test]
fn any_method_token_is_passed_on_as_it_is() {
    for method in ["GET", "get", "PURGE", "M-SEARCH", "", "not a token"] {
        let request = inbound(method, "/proxy?http://origin.test/", vec![]);
        assert_eq!(outbound_request(&request).unwrap().method, method);
    }
}

#[test]
fn request_without_query_is_answered_with_400() {
    let request = inbound("GET", "/proxy", vec![field("Host", "relay.test")]);
    let error = outbound_request(&request).unwrap_err();
    assert_eq!(error, RelayError::MalformedTarget);
    assert_eq!(
        error_response(&error, "http://relay.test/proxy"),
        ProxyResponse {
            status: 400,
            headers: vec![],
            body: ResponseBody::Text("bad url format: http://relay.test/proxy".to_string()),
        }
    );
}

#[test]
fn request_with_empty_query_is_answered_with_400() {
    let request = inbound("DELETE", "/proxy?", vec![]);
    let error = outbound_request(&request).unwrap_err();
    assert_eq!(error, RelayError::MalformedTarget);
    let answer = error_response(&error, "http://relay.test/proxy?");
    assert_eq!(answer.status, 400);
    assert_eq!(
        answer.body,
        ResponseBody::Text("bad url format: http://relay.test/proxy?".to_string())
    );
}

#[test]
fn a_missing_target_is_found_before_a_bad_header() {
    let request = inbound("GET", "/proxy", vec![field("bad name", "v")]);
    assert_eq!(outbound_request(&request), Err(RelayError::MalformedTarget));
}

#[test]
fn request_with_a_field_the_client_cannot_hold_fails() {
    let request = inbound(
        "GET",
        "/proxy?http://origin.test/",
        vec![field("Host", "relay.test"), field("ok", "1"), field("x", "line\nbreak")],
    );
    let error = outbound_request(&request).unwrap_err();
    assert_eq!(error, RelayError::HeaderEncodingError { index: 2, part: HeaderPart::Value });
    assert_eq!(
        error_response(&error, "http://relay.test/proxy?http://origin.test/"),
        ProxyResponse {
            status: 500,
            headers: plain_text(),
            body: ResponseBody::Text("failed to parse header value".to_string()),
        }
    );
}

#[test]
fn unreachable_origin_is_answered_with_500_and_the_cause() {
    let cause = "error sending request for url (http://origin.test/hello)";
    assert_eq!(
        conclude(&Exchange::Failed(cause.to_string())),
        ProxyResponse {
            status: 500,
            headers: plain_text(),
            body: ResponseBody::Text(cause.to_string()),
        }
    );
    // The next exchange is judged on its own.
    let origin = OutboundResponse { status: 200, headers: vec![] };
    assert_eq!(
        conclude(&Exchange::Answered(origin)),
        ProxyResponse { status: 200, headers: vec![], body: ResponseBody::Origin }
    );
}

#[test]
fn every_status_from_100_to_599_passes_through() {
    for status in 100..=599u16 {
        let origin = OutboundResponse { status, headers: vec![field("Via", "o")] };
        let answer = proxy_response(&origin).unwrap();
        assert_eq!(answer.status, status);
        assert_eq!(answer.body, ResponseBody::Origin);
        assert_eq!(conclude(&Exchange::Answered(origin)).status, status);
    }
}

#[test]
fn statuses_up_to_999_pass_through_and_no_others() {
    for status in [600u16, 700, 999] {
        let origin = OutboundResponse { status, headers: vec![] };
        assert_eq!(proxy_response(&origin).unwrap().status, status);
    }
    for status in [0u16, 1, 99, 1000, 1001, u16::MAX] {
        let origin = OutboundResponse { status, headers: vec![field("Via", "o")] };
        assert_eq!(
            proxy_response(&origin),
            Err(RelayError::RelayFailure { cause: "invalid status code".to_string() })
        );
        assert_eq!(
            conclude(&Exchange::Answered(origin)),
            ProxyResponse {
                status: 500,
                headers: plain_text(),
                body: ResponseBody::Text("invalid status code".to_string()),
            }
        );
    }
}

#[test]
fn a_bad_status_is_found_before_a_bad_header() {
    let origin = OutboundResponse { status: 99, headers: vec![field("bad name", "v")] };
    assert_eq!(
        proxy_response(&origin),
        Err(RelayError::RelayFailure { cause: "invalid status code".to_string() })
    );
}

#[test]
fn answer_with_a_field_the_server_cannot_hold_fails() {
    let origin = OutboundResponse {
        status: 200,
        headers: vec![field("Connection", "close"), field("bad name", "v"), field("x", "\n")],
    };
    assert_eq!(
        proxy_response(&origin),
        Err(RelayError::HeaderEncodingError { index: 1, part: HeaderPart::Name })
    );
    assert_eq!(
        conclude(&Exchange::Answered(origin)),
        ProxyResponse {
            status: 500,
            headers: plain_text(),
            body: ResponseBody::Text("invalid HTTP header name".to_string()),
        }
    );
}

#[test]
fn reports_of_failures_are_labelled_as_plain_text() {
    let failure = RelayError::RelayFailure { cause: "timed out".to_string() };
    let answer = error_response(&failure, "http://relay.test/proxy?http://origin.test/");
    assert_eq!(answer.status, 500);
    assert_eq!(answer.headers, plain_text());
    assert_eq!(answer.body, ResponseBody::Text("timed out".to_string()));
}
