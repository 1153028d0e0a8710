use companion::client::{basic_authorization, prepare_request, response_outcome, ApiError};

#[test]
fn request_targets_loopback_with_basic_auth() {
    let req = prepare_request(2999, "abc", "GET", "/lol-summoner/v1/current-summoner", None).unwrap();
    assert_eq!(req.url, "https://127.0.0.1:2999/lol-summoner/v1/current-summoner");
    assert_eq!(req.authorization, "Basic cmlvdDphYmM=");
    assert_eq!(req.method, "GET");
    assert!(req.body.is_none());
}

#[test]
fn request_body_is_kept_verbatim() {
    let req = prepare_request(1, "p\u{e9}", "PATCH", "/x", Some("{\"a\":1}")).unwrap();
    assert_eq!(req.authorization, "Basic cmlvdDpww6k=");
    assert_eq!(req.body.as_deref(), Some("{\"a\":1}"));
    assert_eq!(req.url, "https://127.0.0.1:1/x");
    assert_eq!(req.method, "PATCH");
}

#[test]
fn invalid_methods_fail_before_sending() {
    assert!(matches!(prepare_request(1, "p", "GE T", "/", None), Err(ApiError::InvalidMethod)));
    assert!(matches!(prepare_request(1, "p", "", "/", None), Err(ApiError::InvalidMethod)));
    assert!(matches!(prepare_request(1, "p", "G\u{e9}T", "/", None), Err(ApiError::InvalidMethod)));
    assert!(prepare_request(1, "p", "CUSTOM-1", "/", None).is_ok());
}

#[test]
fn responses_are_classified_by_status() {
    assert_eq!(response_outcome(200, Some("OK"), "body".to_string()).unwrap(), "body");
    assert_eq!(response_outcome(299, None, "b".to_string()).unwrap(), "b");
    let err = response_outcome(404, Some("Not Found"), "nope".to_string()).unwrap_err();
    assert!(matches!(err, ApiError::Http { status: 404, .. }));
    assert_eq!(err.message(), "LCU API error 404 Not Found: nope");
    let err = response_outcome(199, None, "".to_string()).unwrap_err();
    assert_eq!(err.message(), "LCU API error 199 <unknown status code>: ");
    assert_eq!(ApiError::InvalidMethod.message(), "Invalid HTTP method");
    assert_eq!(ApiError::Transport("refused".to_string()).message(), "refused");
}

#[test]
fn basic_authorization_prefixes_encoded_credentials() {
    assert_eq!(basic_authorization("cmlvdDphYmM="), "Basic cmlvdDphYmM=");
    assert_eq!(basic_authorization(""), "Basic ");
}

#[test]
fn get_example_is_prepared_as_get_with_basic_auth() {
    let req = prepare_request(2999, "pw", "GET", "/lol-summoner/v1/current-summoner", None).unwrap();
    assert_eq!(req.method, "GET");
    assert_eq!(req.url, "https://127.0.0.1:2999/lol-summoner/v1/current-summoner");
    assert_eq!(req.authorization, "Basic cmlvdDpwdw==");
}

#[test]
fn base64_padding_covers_every_remainder() {
    assert_eq!(prepare_request(1, "", "GET", "/", None).unwrap().authorization, "Basic cmlvdDo=");
    assert_eq!(prepare_request(1, "a", "GET", "/", None).unwrap().authorization, "Basic cmlvdDph");
    assert_eq!(prepare_request(1, "ab", "GET", "/", None).unwrap().authorization, "Basic cmlvdDphYg==");
    assert_eq!(prepare_request(1, "?>~", "GET", "/", None).unwrap().authorization, "Basic cmlvdDo/Pn4=");
}
