use sendmail_mcp::auth::check_bearer_token;

#[test]
fn rejects_request_without_authorization_header() {
    let reason = check_bearer_token("secret-token", None).expect("refused");
    assert_eq!(reason.0, "Authorization-Header fehlt");
}

#[test]
fn rejects_wrong_bearer_token() {
    let reason = check_bearer_token("secret-token", Some("Bearer falsches-token")).expect("refused");
    assert_eq!(reason.0, "Bearer-Token stimmt nicht überein");
}

#[test]
fn accepts_correct_bearer_token() {
    assert!(check_bearer_token("secret-token", Some("Bearer secret-token")).is_none());
}

#[test]
fn bearer_check_is_exact() {
    assert!(check_bearer_token("t", Some("bearer t")).is_some());
    assert!(check_bearer_token("t", Some("Bearer t ")).is_some());
    assert!(check_bearer_token("t", Some("t")).is_some());
    assert!(check_bearer_token("", Some("Bearer ")).is_none());
}
