use pgwire::connect::{effective_port, ssl_first_step, ssl_response_step, unix_socket_path, NegotiationError, SslMode, SslStep};

#[test]
fn socket_path_for_default_port() {
    assert_eq!(unix_socket_path("/tmp/.s.PGSQL", 5432), "/tmp/.s.PGSQL/.s.PGSQL.5432");
}

#[test]
fn socket_path_joins_with_one_separator() {
    assert_eq!(unix_socket_path("/var/run/postgresql/", 5433), "/var/run/postgresql/.s.PGSQL.5433");
    assert_eq!(unix_socket_path("", 7), ".s.PGSQL.7");
    assert_eq!(unix_socket_path("/r", 0), "/r/.s.PGSQL.0");
    assert_eq!(unix_socket_path("/é", 65535), "/é/.s.PGSQL.65535");
}

#[test]
fn default_port() {
    assert_eq!(effective_port(None), 5432);
    assert_eq!(effective_port(Some(6000)), 6000);
}

#[test]
fn first_steps() {
    assert_eq!(ssl_first_step(SslMode::Disable, false), SslStep::UsePlain);
    assert_eq!(ssl_first_step(SslMode::Disable, true), SslStep::UsePlain);
    assert_eq!(ssl_first_step(SslMode::Prefer, false), SslStep::SendRequest);
    assert_eq!(ssl_first_step(SslMode::Require, false), SslStep::SendRequest);
    assert_eq!(ssl_first_step(SslMode::Prefer, true), SslStep::UsePlain);
    assert_eq!(ssl_first_step(SslMode::Require, true), SslStep::Fail(NegotiationError::BadResponse));
}

#[test]
fn prefer_and_n_gives_plain() {
    assert_eq!(ssl_response_step(SslMode::Prefer, b'N'), SslStep::UsePlain);
}

#[test]
fn s_leads_to_handshake() {
    assert_eq!(ssl_response_step(SslMode::Prefer, b'S'), SslStep::Handshake);
    assert_eq!(ssl_response_step(SslMode::Require, b'S'), SslStep::Handshake);
}

#[test]
fn require_and_n_fails() {
    assert_eq!(ssl_response_step(SslMode::Require, b'N'), SslStep::Fail(NegotiationError::NoSslSupport));
}

#[test]
fn unexpected_answer_fails_in_every_mode() {
    for mode in [SslMode::Disable, SslMode::Prefer, SslMode::Require] {
        assert_eq!(ssl_response_step(mode, b'X'), SslStep::Fail(NegotiationError::BadResponse));
    }
}
