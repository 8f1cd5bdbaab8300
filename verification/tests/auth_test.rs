use arkd_core::auth::{authorize, check_bind, choose_token, unauthorized_body};
use arkd_core::error::Error;
use arkd_core::json::to_text;

fn bearer(token: &str) -> Vec<u8> {
    format!("Bearer {token}").into_bytes()
}

fn passes(loopback: bool, header: Option<&str>, token: Option<&str>) -> bool {
    let h = header.map(bearer);
    authorize(loopback, false, h.as_deref(), token.map(|t| t.as_bytes()))
}

#[test]
fn loopback_passes_without_a_token() {
    assert!(passes(true, None, Some("secret")));
}

#[test]
fn non_loopback_without_header_is_unauthorized() {
    assert!(!passes(false, None, Some("secret")));
}

#[test]
fn non_loopback_with_correct_token_passes() {
    assert!(passes(false, Some("secret"), Some("secret")));
}

#[test]
fn wrong_token_is_unauthorized() {
    assert!(!passes(false, Some("nope"), Some("secret")));
    assert_eq!(to_text(&unauthorized_body()), r#"{"error":"unauthorized"}"#);
}

#[test]
fn without_a_configured_token_remote_peers_are_refused() {
    assert!(!passes(false, Some("secret"), None));
}

#[test]
fn loopback_can_be_made_to_present_the_token() {
    let good = bearer("secret");
    assert!(!authorize(true, true, None, Some(b"secret")));
    assert!(authorize(true, true, Some(&good), Some(b"secret")));
}

#[test]
fn the_scheme_must_be_bearer() {
    assert!(!authorize(false, false, Some(b"Basic secret"), Some(b"secret")));
    assert!(!authorize(false, false, Some(b"Bearer"), Some(b"secret")));
    assert!(!authorize(false, false, Some(b"Bearer secret\n"), Some(b"secret")));
}

#[test]
fn the_environment_token_beats_the_file() {
    assert_eq!(
        choose_token(Some("env".to_string()), Some("file\n".to_string())).as_deref(),
        Some("env")
    );
    assert_eq!(choose_token(None, Some("  file \n".to_string())).as_deref(), Some("file"));
    assert_eq!(choose_token(None, Some(" \n".to_string())), None);
    assert_eq!(choose_token(None, None), None);
}

#[test]
fn a_public_bind_needs_a_token() {
    let err = check_bind(false, false).unwrap_err();
    assert!(matches!(err, Error::Config(_)));
    assert!(err.message().contains("ARKD_TOKEN"));
    assert!(check_bind(false, true).is_ok());
    assert!(check_bind(true, false).is_ok());
}
