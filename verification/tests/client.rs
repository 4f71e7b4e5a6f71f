use retcher::Browser;
use retcher::EngineOptions;
use retcher::FetchErrorKind;
use retcher::FetchOptions;
use retcher::HeaderEntry;
use retcher::Retcher;
use retcher::shape_response;

fn chrome_client() -> Retcher {
    Retcher::new(EngineOptions {
        browser: Some(Browser::Chrome),
        ignore_tls_errors: None,
    })
}

fn entry(name: &str, value: &str) -> HeaderEntry {
    HeaderEntry { name: name.to_string(), value: value.to_string() }
}

#[test]
fn protocol_gate_rejects_ftp() {
    // planning fails before any transport could be involved: the plan is
    // never produced, so there is nothing a transport could be handed
    let client = chrome_client();
    let planned = client.plan_request("ftp://host/".to_string(), None);

    let err = planned.unwrap_err();
    assert_eq!(err.kind, FetchErrorKind::UnsupportedProtocol);
    assert_eq!(err.message, "Unsupported protocol");
}

#[test]
fn unparsable_url_is_rejected() {
    let client = chrome_client();
    let planned = client.plan_request("not a url".to_string(), None);

    let err = planned.unwrap_err();
    assert_eq!(err.kind, FetchErrorKind::InvalidUrl);
    assert_eq!(err.message, "Invalid URL");
}

#[test]
fn plan_carries_normalized_url_and_headers() {
    let client = chrome_client();
    let planned = client.plan_request("http://127.0.0.1:8000/headers".to_string(), None);

    let plan = planned.unwrap();
    assert_eq!(plan.url, "http://127.0.0.1:8000/headers");
    assert_eq!(plan.headers[0].name, "Host");
    assert_eq!(plan.headers[0].value, "127.0.0.1");
    assert_eq!(plan.headers.len(), 7);
}

#[test]
fn plan_applies_custom_headers() {
    let client = chrome_client();
    let options = FetchOptions {
        headers: vec![entry("User-Agent", "Custom-User-Agent!")],
    };
    let planned = client.plan_request("http://127.0.0.1:8000/headers".to_string(), Some(options));

    let plan = planned.unwrap();
    assert_eq!(plan.headers.len(), 7);
    assert_eq!(plan.headers[3].name, "User-Agent");
    assert_eq!(plan.headers[3].value, "Custom-User-Agent!");
}

#[test]
fn https_plan_switches_to_encrypted_profile() {
    let client = chrome_client();
    let planned = client.plan_request("https://www.example.com/".to_string(), None);

    let plan = planned.unwrap();
    assert_eq!(plan.url, "https://www.example.com/");
    assert_eq!(plan.headers[0].name, "sec-ch-ua");
    assert!(plan.headers.iter().all(|h| h.name != "Host"));
}

#[test]
fn successful_response_shape() {
    let response = shape_response(
        200,
        "OK".to_string(),
        vec![entry("content-type", "text/html")],
        "https://www.example.com/".to_string(),
        b"<html></html>".to_vec(),
    );

    assert_eq!(response.ok, true);
    assert_eq!(response.redirected, false);
    assert_eq!(response.status, 200);
    assert_eq!(response.status_text, "OK");
    assert_eq!(response.body_used, true);
    assert_eq!(response.body, Some(b"<html></html>".to_vec()));
    assert_eq!(response.kind, "basic");
    assert_eq!(response.url, "https://www.example.com/");
    assert_eq!(response.headers.len(), 1);
    assert_eq!(response.headers[0].name, "content-type");
}

#[test]
fn redirect_status_is_classified() {
    let response = shape_response(
        301,
        "Moved Permanently".to_string(),
        vec![],
        "http://example.com/".to_string(),
        Vec::new(),
    );

    assert_eq!(response.ok, false);
    assert_eq!(response.redirected, true);
}

#[test]
fn empty_body_is_absent_but_consumed() {
    let response = shape_response(
        204,
        "No Content".to_string(),
        vec![],
        "http://example.com/".to_string(),
        Vec::new(),
    );

    assert_eq!(response.body, None);
    assert_eq!(response.body_used, true);
    assert_eq!(response.ok, true);
}

#[test]
fn duplicate_response_headers_flatten_last_write_wins() {
    let response = shape_response(
        200,
        "OK".to_string(),
        vec![entry("set-cookie", "a=1"), entry("Set-Cookie", "b=2")],
        "http://example.com/".to_string(),
        Vec::new(),
    );

    assert_eq!(response.headers.len(), 1);
    assert_eq!(response.headers[0].name, "set-cookie");
    assert_eq!(response.headers[0].value, "b=2");
}

#[test]
fn status_class_boundaries() {
    let ok_low = shape_response(200, "OK".to_string(), vec![], "http://a/".to_string(), Vec::new());
    let ok_high = shape_response(299, "OK".to_string(), vec![], "http://a/".to_string(), Vec::new());
    let redirect_low =
        shape_response(300, "Multiple Choices".to_string(), vec![], "http://a/".to_string(), Vec::new());
    let client_error =
        shape_response(404, "Not Found".to_string(), vec![], "http://a/".to_string(), Vec::new());

    assert!(ok_low.ok && !ok_low.redirected);
    assert!(ok_high.ok && !ok_high.redirected);
    assert!(!redirect_low.ok && redirect_low.redirected);
    assert!(!client_error.ok && !client_error.redirected);
}

#[test]
fn wire_validation_accepts_planned_headers() {
    let client = chrome_client();
    let plan = client
        .plan_request("http://127.0.0.1:8000/headers".to_string(), None)
        .unwrap();

    assert!(retcher::validate_headers(&plan.headers).is_ok());
}

#[test]
fn malformed_header_name_is_rejected_at_handoff() {
    let bad = vec![entry("not a header name", "x")];
    let err = retcher::validate_headers(&bad).unwrap_err();
    assert_eq!(err.kind, FetchErrorKind::MalformedHeader);
    assert_eq!(err.message, "Malformed header");
}

#[test]
fn malformed_header_value_is_rejected_at_handoff() {
    let bad = vec![entry("x-fine-name", "line\nbreaks are not wire values")];
    let err = retcher::validate_headers(&bad).unwrap_err();
    assert_eq!(err.kind, FetchErrorKind::MalformedHeader);
}

#[test]
fn transport_failures_carry_their_kind() {
    let transport = retcher::FetchError::transport("connection refused".to_string());
    assert_eq!(transport.kind, FetchErrorKind::Transport);
    assert_eq!(transport.message, "connection refused");

    let body = retcher::FetchError::body_read("stream cut short".to_string());
    assert_eq!(body.kind, FetchErrorKind::BodyRead);

    let header = retcher::FetchError::malformed_header("bad name".to_string());
    assert_eq!(header.kind, FetchErrorKind::MalformedHeader);
}
