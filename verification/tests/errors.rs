use aginxbrowser::errors::AppError;

fn answer(msg: &str) -> (u16, String) {
    let (status, body) = AppError::from_message(msg.to_string()).into_response();
    (status, body.error)
}

#[test]
fn timeouts_are_gateway_timeouts() {
    assert_eq!(answer("navigation timeout"), (504, "navigation timeout".to_string()));
    assert_eq!(answer("operation timed out"), (504, "operation timed out".to_string()));
    // Timeout wins over the other classes.
    assert_eq!(answer("connect timeout").0, 504);
}

#[test]
fn unreachable_hosts_are_bad_gateways() {
    assert_eq!(answer("failed to resolve host").0, 502);
    assert_eq!(answer("could not connect").0, 502);
    assert_eq!(answer("dns error").0, 502);
    assert_eq!(answer("dns: invalid selector").0, 502);
}

#[test]
fn malformed_requests_are_bad_requests() {
    assert_eq!(answer("invalid selector: unexpected token").0, 400);
    assert_eq!(answer("relative URL without a base: parse failed").0, 400);
}

#[test]
fn other_errors_are_internal() {
    assert_eq!(answer("element.click() failed").0, 500);
    assert_eq!(answer("").0, 500);
    // Matching is case-sensitive.
    assert_eq!(answer("TIMEOUT").0, 500);
}

#[test]
fn status_codes_of_each_error() {
    assert_eq!(AppError::BadRequest("a".into()).status_code(), 400);
    assert_eq!(AppError::NotFound("b".into()).status_code(), 404);
    assert_eq!(AppError::BadGateway("c".into()).status_code(), 502);
    assert_eq!(AppError::GatewayTimeout("d".into()).status_code(), 504);
    assert_eq!(AppError::Internal("e".into()).status_code(), 500);
    let (status, body) = AppError::NotFound("element not found".into()).into_response();
    assert_eq!(status, 404);
    assert_eq!(body.error, "element not found");
}
