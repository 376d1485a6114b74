use http_relay::header::filter_headers;
use http_relay::header::fold_octet;
use http_relay::header::names_match;
use http_relay::header::Direction;
use http_relay::header::Header;

fn field(name: &str, value: &str) -> Header {
    Header::new(name.as_bytes(), value.as_bytes())
}

#[test]
fn new_header_holds_what_it_was_given() {
    let header = Header::new(b"X-Test", b"\x01\xff");
    assert_eq!(header.name, b"X-Test".to_vec());
    assert_eq!(header.value, vec![0x01, 0xff]);
    assert_eq!(header.duplicate(), header);
}

#[test]
fn only_ascii_capitals_are_folded() {
    for b in 0..=255u8 {
        let expected = if b.is_ascii_uppercase() { b + 32 } else { b };
        assert_eq!(fold_octet(b), expected, "octet {}", b);
    }
    assert_eq!(fold_octet(b'A'), b'a');
    assert_eq!(fold_octet(b'Z'), b'z');
    assert_eq!(fold_octet(b'@'), b'@');
    assert_eq!(fold_octet(b'['), b'[');
    assert_eq!(fold_octet(0xc9), 0xc9);
}

#[test]
fn names_are_compared_without_case() {
    assert!(names_match(b"Host", b"host"));
    assert!(names_match(b"hOsT", b"HoSt"));
    assert!(names_match(b"", b""));
    assert!(names_match(b"x-1_y", b"X-1_Y"));
    assert!(!names_match(b"host", b"hosts"));
    assert!(!names_match(b"host", b"hos"));
    assert!(!names_match(b"host", b"hast"));
    assert!(!names_match(b"host", b"post"));
    assert!(!names_match(b"host", b"hosu"));
    // '@' and '`' differ by the same bit as 'A' and 'a', but are no letters.
    assert!(!names_match(b"@", b"`"));
    assert!(!names_match(b"[", b"{"));
}

#[test]
fn each_direction_strips_its_own_field() {
    for name in ["host", "Host", "HOST", "hOST"] {
        assert!(Direction::RequestBound.drops(name.as_bytes()), "{}", name);
        assert!(!Direction::ResponseBound.drops(name.as_bytes()), "{}", name);
    }
    for name in ["connection", "Connection", "CONNECTION", "conNECtion"] {
        assert!(Direction::ResponseBound.drops(name.as_bytes()), "{}", name);
        assert!(!Direction::RequestBound.drops(name.as_bytes()), "{}", name);
    }
}

#[test]
fn hop_by_hop_fields_other_than_the_stripped_one_travel() {
    for name in [
        "keep-alive",
        "transfer-encoding",
        "te",
        "trailers",
        "upgrade",
        "proxy-authenticate",
        "proxy-authorization",
        "hostname",
        "x-host",
        "hos",
        "",
        "connections",
        "host ",
    ] {
        assert!(!Direction::RequestBound.drops(name.as_bytes()), "{}", name);
        assert!(!Direction::ResponseBound.drops(name.as_bytes()), "{}", name);
    }
}

#[test]
fn host_is_stripped_on_the_way_to_the_origin() {
    let headers = vec![
        field("Accept", "*/*"),
        field("Host", "relay.test"),
        field("X-Test", "1"),
        field("User-Agent", "t"),
    ];
    let kept = filter_headers(&headers, Direction::RequestBound);
    assert_eq!(kept, vec![field("Accept", "*/*"), field("X-Test", "1"), field("User-Agent", "t")]);
}

#[test]
fn host_is_stripped_under_any_casing_and_wherever_it_stands() {
    for casing in ["host", "HOST", "Host", "hoST"] {
        for place in 0..4 {
            let mut headers = vec![field("a", "1"), field("b", "2"), field("c", "3")];
            headers.insert(place, field(casing, "relay.test"));
            let kept = filter_headers(&headers, Direction::RequestBound);
            assert_eq!(kept, vec![field("a", "1"), field("b", "2"), field("c", "3")]);
        }
    }
}

#[test]
fn connection_is_stripped_on_the_way_back() {
    let headers = vec![
        field("Content-Type", "text/plain"),
        field("Connection", "keep-alive"),
        field("Content-Length", "2"),
    ];
    let kept = filter_headers(&headers, Direction::ResponseBound);
    assert_eq!(kept, vec![field("Content-Type", "text/plain"), field("Content-Length", "2")]);
}

#[test]
fn the_other_direction_s_field_is_kept() {
    let headers = vec![field("Host", "h"), field("Connection", "close")];
    assert_eq!(
        filter_headers(&headers, Direction::RequestBound),
        vec![field("Connection", "close")]
    );
    assert_eq!(filter_headers(&headers, Direction::ResponseBound), vec![field("Host", "h")]);
}

#[test]
fn repeated_fields_are_kept_one_by_one_in_order() {
    let headers = vec![
        field("Set-Cookie", "a=1"),
        field("Via", "x"),
        field("set-cookie", "b=2"),
        field("connection", "close"),
        field("Set-Cookie", "a=1"),
        field("CONNECTION", "upgrade"),
    ];
    let kept = filter_headers(&headers, Direction::ResponseBound);
    assert_eq!(
        kept,
        vec![
            field("Set-Cookie", "a=1"),
            field("Via", "x"),
            field("set-cookie", "b=2"),
            field("Set-Cookie", "a=1"),
        ]
    );
}

#[test]
fn filtering_keeps_names_and_values_as_they_are() {
    let headers = vec![Header::new(b"X Bad\nName", b"\x00\xff"), Header::new(b"", b"")];
    assert_eq!(filter_headers(&headers, Direction::RequestBound), headers);
}

#[test]
fn filtering_nothing_gives_nothing() {
    assert_eq!(filter_headers(&[], Direction::RequestBound), Vec::<Header>::new());
    assert_eq!(
        filter_headers(&[field("host", "a"), field("Host", "b")], Direction::RequestBound),
        Vec::<Header>::new()
    );
}

#[test]
fn filtering_two_sets_end_to_end_is_filtering_each() {
    let first = vec![field("a", "1"), field("host", "x"), field("b", "2")];
    let second = vec![field("Host", "y"), field("c", "3")];
    let mut joined = first.clone();
    joined.extend(second.clone());
    let mut expected = filter_headers(&first, Direction::RequestBound);
    expected.extend(filter_headers(&second, Direction::RequestBound));
    assert_eq!(filter_headers(&joined, Direction::RequestBound), expected);
}

#[test]
fn stripping_agrees_with_the_servers_comparison_of_names() {
    for name in ["host", "Host", "HOST", "hosts", "hos", "x-host", "connection", "Connection"] {
        let parsed = actix_web::http::header::HeaderName::from_bytes(name.as_bytes()).unwrap();
        assert_eq!(Direction::RequestBound.drops(name.as_bytes()), parsed == "host", "{}", name);
        assert_eq!(
            Direction::ResponseBound.drops(name.as_bytes()),
            parsed == "connection",
            "{}",
            name
        );
    }
}
