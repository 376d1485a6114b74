use http_relay::error::RelayError;
use http_relay::target::resolve_target;

#[test]
fn target_is_the_raw_query() {
    assert_eq!(
        resolve_target("/proxy?http://origin.test/hello"),
        Ok("http://origin.test/hello".to_string())
    );
}

#[test]
fn target_of_an_absolute_uri() {
    assert_eq!(
        resolve_target("http://relay.test:8080/proxy?https://example.com/resource"),
        Ok("https://example.com/resource".to_string())
    );
}

#[test]
fn target_is_not_decoded() {
    let uri = "/proxy?http://origin.test/a%20b?x=1&y=%2F+z";
    assert_eq!(resolve_target(uri), Ok("http://origin.test/a%20b?x=1&y=%2F+z".to_string()));
}

#[test]
fn target_keeps_later_question_marks() {
    assert_eq!(resolve_target("/proxy?a?b??c"), Ok("a?b??c".to_string()));
}

#[test]
fn target_of_any_path_under_the_prefix() {
    assert_eq!(resolve_target("/proxy/deep/er?http://o.test/"), Ok("http://o.test/".to_string()));
    assert_eq!(resolve_target("?x"), Ok("x".to_string()));
}

#[test]
fn target_may_hold_characters_beyond_ascii() {
    assert_eq!(
        resolve_target("/pröxy?http://origin.test/é/日本"),
        Ok("http://origin.test/é/日本".to_string())
    );
}

#[test]
fn uri_without_query_names_no_target() {
    assert_eq!(resolve_target("/proxy"), Err(RelayError::MalformedTarget));
    assert_eq!(resolve_target(""), Err(RelayError::MalformedTarget));
    assert_eq!(resolve_target("/"), Err(RelayError::MalformedTarget));
}

#[test]
fn uri_with_empty_query_names_no_target() {
    assert_eq!(resolve_target("/proxy?"), Err(RelayError::MalformedTarget));
    assert_eq!(resolve_target("?"), Err(RelayError::MalformedTarget));
    assert_eq!(resolve_target("/proxy?#later"), Err(RelayError::MalformedTarget));
}

#[test]
fn fragment_is_no_part_of_the_target() {
    assert_eq!(
        resolve_target("/proxy?http://origin.test/x#section"),
        Ok("http://origin.test/x".to_string())
    );
    assert_eq!(resolve_target("/proxy?a#b#c?d"), Ok("a".to_string()));
}

#[test]
fn question_mark_in_the_fragment_starts_no_query() {
    assert_eq!(resolve_target("/proxy#a?b"), Err(RelayError::MalformedTarget));
    assert_eq!(resolve_target("#?x"), Err(RelayError::MalformedTarget));
}

#[test]
fn long_target_comes_back_whole() {
    let query = "http://origin.test/".to_string() + &"segment/".repeat(2000);
    let uri = format!("/proxy?{}", query);
    assert_eq!(resolve_target(&uri), Ok(query));
}

#[test]
fn target_agrees_with_the_servers_reading_of_the_uri() {
    for uri in [
        "/proxy?http://origin.test/hello",
        "/proxy?https://example.com/resource?a=1&b=2",
        "/proxy",
        "/proxy?",
        "/proxy/deeper?x",
        "http://relay.test:8080/proxy?http://origin.test/a%20b",
        "/proxy?http://origin.test/x#section",
        "/proxy#a?b",
        "/?'quoted'",
        "*",
    ] {
        let parsed: actix_web::http::Uri = uri.parse().unwrap();
        let expected = match parsed.query() {
            Some(query) if !query.is_empty() => Ok(query.to_string()),
            _ => Err(RelayError::MalformedTarget),
        };
        assert_eq!(resolve_target(uri), expected, "{}", uri);
        assert_eq!(resolve_target(&parsed.to_string()), expected, "{}", uri);
    }
}
