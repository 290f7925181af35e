use dockerbeam::connection_handler::{
    checked_domain, host_domain, root_certificate, server_domain, server_error_text, ServerError,
};
use rustls_pki_types::ServerName;

#[test]
fn domain_of_a_websocket_url() {
    assert_eq!(server_domain("wss://signal.example.com:8443/ws").unwrap(), "signal.example.com");
    assert_eq!(server_domain("ws://127.0.0.1:9000").unwrap(), "127.0.0.1");
}

#[test]
fn not_a_url() {
    assert!(matches!(server_domain("not a url"), Err(ServerError::Url(_))));
    assert!(matches!(server_domain(""), Err(ServerError::Url(_))));
}

#[test]
fn url_without_host() {
    assert!(matches!(server_domain("unix:/run/foo.socket"), Err(ServerError::NoDomain)));
}

#[test]
fn host_that_is_no_server_name() {
    assert!(matches!(server_domain("http://[::1]/"), Err(ServerError::InvalidServerName)));
}

#[test]
fn domain_steps_on_given_results() {
    assert!(matches!(host_domain(Ok(None)), Err(ServerError::NoDomain)));
    assert_eq!(host_domain(Ok(Some("a.b".to_string()))).unwrap(), "a.b");
    assert!(matches!(host_domain(Err(url::ParseError::EmptyHost)), Err(ServerError::Url(url::ParseError::EmptyHost))));
    let ok = ServerName::try_from("a.b".to_string());
    assert_eq!(checked_domain("a.b".to_string(), ok).unwrap(), "a.b");
    let bad = ServerName::try_from("a b".to_string());
    assert!(matches!(checked_domain("a b".to_string(), bad), Err(ServerError::InvalidServerName)));
}

#[test]
fn root_certificate_from_pem() {
    let pem = b"-----BEGIN CERTIFICATE-----\nAAEC\n-----END CERTIFICATE-----\n";
    assert_eq!(root_certificate(pem).unwrap(), vec![0u8, 1, 2]);
    assert!(matches!(root_certificate(b"nothing here"), Err(ServerError::Pem(_))));
}

#[test]
fn error_texts() {
    assert_eq!(server_error_text(&ServerError::NoDomain).as_deref(), Some("Invalid domain in URL"));
    assert_eq!(server_error_text(&ServerError::InvalidServerName).as_deref(), Some("Invalid server name"));
    assert_eq!(server_error_text(&ServerError::Url(url::ParseError::EmptyHost)), None);
}
