use tdi::callback::{
    AccessCode, AuthorizationResult, LoopbackCallbackServer, STATUS_CREATED, STATUS_NOT_FOUND,
};
use tdi::errors::{ProtocolFault, TdiError};
use tdi::exchange::{build_token_request, interpret_exchange, ExchangeOutcome};
use tdi::orchestrator::{AuthorizationOrchestrator, LoginAction, LoginEvent, LoginStage};
use tdi::session::{build_authorize_url, default_session};

fn count_occurrences(haystack: &[u8], needle: &[u8]) -> usize {
    if needle.is_empty() || haystack.len() < needle.len() {
        return 0;
    }
    (0..=haystack.len() - needle.len())
        .filter(|&i| &haystack[i..i + needle.len()] == needle)
        .count()
}

#[test]
fn authorize_url_carries_each_scope_once_and_the_encoded_redirect() {
    let s = default_session();
    let url = build_authorize_url(&s);
    let url_s = String::from_utf8(url.clone()).unwrap();
    assert!(url_s.starts_with("https://login.live.com/oauth20_authorize.srf?"));
    assert_eq!(count_occurrences(&url, b"tasks.readwrite"), 1);
    // `tasks.read` also occurs as a prefix of `tasks.readwrite`
    assert_eq!(count_occurrences(&url, b"tasks.read"), 2);
    assert_eq!(count_occurrences(&url, b"user.read"), 1);
    assert_eq!(
        count_occurrences(&url, b"redirect_uri=http%3A%2F%2Flocalhost%3A8000%2Fredirect"),
        1
    );
    assert_eq!(count_occurrences(&url, b"response_type=code"), 1);
    assert_eq!(
        count_occurrences(&url, b"scope=tasks.readwrite%20tasks.read%20user.read"),
        1
    );
}

#[test]
fn callback_with_code_delivers_exactly_one_code_result() {
    let mut server = LoopbackCallbackServer::start();
    assert!(!server.done());
    let resp = server.handle_request(b"redirect", b"code=ABC");
    assert_eq!(resp.status, STATUS_CREATED);
    assert!(server.done());
    // the listener is no longer reachable: a further request changes nothing
    let again = server.handle_request(b"redirect", b"code=OTHER");
    assert_eq!(again.status, STATUS_NOT_FOUND);
    let first = server.take_result();
    assert_eq!(first, Some(AuthorizationResult::Code(b"ABC".to_vec())));
    let second = server.take_result();
    assert_eq!(second, None);
}

#[test]
fn callback_code_is_percent_decoded() {
    let mut server = LoopbackCallbackServer::start();
    let resp = server.handle_request(b"redirect", b"code=A%2FB%20C");
    assert_eq!(resp.status, STATUS_CREATED);
    assert_eq!(
        server.take_result(),
        Some(AuthorizationResult::Code(b"A/B C".to_vec()))
    );
}

#[test]
fn callback_without_code_delivers_exactly_one_error_result() {
    let mut server = LoopbackCallbackServer::start();
    let resp = server.handle_request(b"redirect", b"error=access_denied");
    assert_eq!(resp.status, STATUS_NOT_FOUND);
    assert!(server.done());
    match server.take_result() {
        Some(AuthorizationResult::Error(_)) => {}
        other => panic!("expected one error result, got {:?}", other),
    }
    assert_eq!(server.take_result(), None);
}

#[test]
fn callback_ignores_other_paths() {
    let mut server = LoopbackCallbackServer::start();
    let resp = server.handle_request(b"favicon.ico", b"code=ABC");
    assert_eq!(resp.status, STATUS_NOT_FOUND);
    assert!(!server.done());
    assert_eq!(server.take_result(), None);
    // the slot is still free for the real redirect
    let resp = server.handle_request(b"redirect", b"code=ABC");
    assert_eq!(resp.status, STATUS_CREATED);
    assert_eq!(
        server.take_result(),
        Some(AuthorizationResult::Code(b"ABC".to_vec()))
    );
}

#[test]
fn access_code_of_query_requires_the_code_parameter() {
    assert_eq!(
        tdi::callback::access_code_of_query(b"code=XYZ"),
        Some(AccessCode { code: b"XYZ".to_vec() })
    );
    assert_eq!(tdi::callback::access_code_of_query(b"state=1"), None);
}

#[test]
fn token_request_body_carries_grant_code_and_redirect() {
    let s = default_session();
    let body = build_token_request(&s, &b"XYZ".to_vec());
    assert_eq!(
        body,
        b"grant_type=authorization_code&client_id=&redirect_uri=http%3A%2F%2Flocalhost%3A8000%2Fredirect&code=XYZ".to_vec()
    );
}

#[test]
fn exchange_network_failure_is_retryable_class() {
    let scopes = vec![b"user.read".to_vec()];
    let r = interpret_exchange(
        ExchangeOutcome::NetworkFailure(b"connection refused".to_vec()),
        &scopes,
    );
    assert_eq!(
        r,
        Err(TdiError::TokenExchangeNetwork(b"connection refused".to_vec()))
    );
}

#[test]
fn exchange_bad_status_is_protocol_error() {
    let scopes = vec![b"user.read".to_vec()];
    let r = interpret_exchange(
        ExchangeOutcome::Response(500, b"{}".to_vec()),
        &scopes,
    );
    assert_eq!(
        r,
        Err(TdiError::TokenExchangeProtocol(ProtocolFault::HttpStatus(500)))
    );
}

#[test]
fn exchange_malformed_body_is_distinguished() {
    let scopes = vec![b"user.read".to_vec()];
    let r = interpret_exchange(
        ExchangeOutcome::Response(200, b"not json at all".to_vec()),
        &scopes,
    );
    assert_eq!(
        r,
        Err(TdiError::TokenExchangeProtocol(ProtocolFault::MalformedBody))
    );
    let r = interpret_exchange(
        ExchangeOutcome::Response(200, b"{\"token_type\":\"Bearer\"}".to_vec()),
        &scopes,
    );
    assert_eq!(
        r,
        Err(TdiError::TokenExchangeProtocol(ProtocolFault::MalformedBody))
    );
}

#[test]
fn exchange_success_yields_the_token_with_session_scopes() {
    let scopes = vec![b"tasks.read".to_vec(), b"user.read".to_vec()];
    let r = interpret_exchange(
        ExchangeOutcome::Response(
            200,
            b"{\"access_token\":\"T1\",\"token_type\":\"Bearer\",\"expires_in\":3600}".to_vec(),
        ),
        &scopes,
    );
    let token = r.expect("a well-formed success response yields a token");
    assert_eq!(token.access_token, b"T1".to_vec());
    assert_eq!(token.token_type, b"Bearer".to_vec());
    assert_eq!(token.expires_in, Some(3600));
    assert_eq!(token.scopes, scopes);
}

#[test]
fn login_times_out_without_a_callback_and_writes_nothing() {
    let mut orch = AuthorizationOrchestrator::new(default_session());
    let first = orch.step(LoginEvent::LoginRequested);
    assert!(matches!(first, LoginAction::OpenBrowser(_)));
    assert_eq!(orch.stage, LoginStage::AwaitingRedirect);
    let second = orch.step(LoginEvent::CallbackTimedOut);
    assert_eq!(second, LoginAction::StopListening);
    assert_eq!(orch.stage, LoginStage::Failed(TdiError::CallbackTimeout));
    // the failure is terminal: nothing is ever written afterwards
    let after = orch.step(LoginEvent::CredentialWritten(true));
    assert_eq!(after, LoginAction::Wait);
    assert_eq!(orch.stage, LoginStage::Failed(TdiError::CallbackTimeout));
}

#[test]
fn login_with_callback_and_stub_endpoint_persists_the_token() {
    let mut orch = AuthorizationOrchestrator::new(default_session());
    let first = orch.step(LoginEvent::LoginRequested);
    match first {
        LoginAction::OpenBrowser(url) => {
            assert!(String::from_utf8(url).unwrap().contains("response_type=code"))
        }
        other => panic!("expected a browser launch, got {:?}", other),
    }
    let second = orch.step(LoginEvent::CallbackDelivered(AuthorizationResult::Code(
        b"XYZ".to_vec(),
    )));
    match second {
        LoginAction::ExchangeCode(body) => {
            assert!(String::from_utf8(body).unwrap().ends_with("code=XYZ"))
        }
        other => panic!("expected a token exchange, got {:?}", other),
    }
    assert_eq!(orch.stage, LoginStage::ExchangingToken);
    let stub = b"{\"access_token\":\"T1\",\"token_type\":\"Bearer\"}".to_vec();
    let third = orch.step(LoginEvent::ExchangeCompleted(ExchangeOutcome::Response(
        200, stub,
    )));
    match third {
        LoginAction::WriteCredential(doc) => {
            let doc_s = String::from_utf8(doc).unwrap();
            assert!(doc_s.contains("\"access_token\":\"T1\""));
            assert!(doc_s.contains("\"token_type\":\"Bearer\""));
        }
        other => panic!("expected a credential write, got {:?}", other),
    }
    assert_eq!(orch.stage, LoginStage::Persisting);
    let fourth = orch.step(LoginEvent::CredentialWritten(true));
    assert_eq!(fourth, LoginAction::Wait);
    assert_eq!(orch.stage, LoginStage::Authenticated);
}

#[test]
fn provider_error_in_redirect_fails_the_login() {
    let mut orch = AuthorizationOrchestrator::new(default_session());
    orch.step(LoginEvent::LoginRequested);
    let action = orch.step(LoginEvent::CallbackDelivered(AuthorizationResult::Error(
        b"consent denied".to_vec(),
    )));
    assert_eq!(action, LoginAction::Wait);
    assert_eq!(
        orch.stage,
        LoginStage::Failed(TdiError::ProviderRedirect(b"consent denied".to_vec()))
    );
}

#[test]
fn failed_credential_write_is_a_store_error() {
    let mut orch = AuthorizationOrchestrator::new(default_session());
    orch.step(LoginEvent::LoginRequested);
    orch.step(LoginEvent::CallbackDelivered(AuthorizationResult::Code(
        b"XYZ".to_vec(),
    )));
    orch.step(LoginEvent::ExchangeCompleted(ExchangeOutcome::Response(
        200,
        b"{\"access_token\":\"T1\",\"token_type\":\"Bearer\"}".to_vec(),
    )));
    let action = orch.step(LoginEvent::CredentialWritten(false));
    assert_eq!(action, LoginAction::Wait);
    assert_eq!(orch.stage, LoginStage::Failed(TdiError::CredentialStore));
}

#[test]
fn token_request_body_carries_the_secret_only_when_configured() {
    let mut s = default_session();
    s.client_secret = b"s3cr3t".to_vec();
    let body = build_token_request(&s, &b"XYZ".to_vec());
    assert_eq!(
        body,
        b"grant_type=authorization_code&client_id=&client_secret=s3cr3t&redirect_uri=http%3A%2F%2Flocalhost%3A8000%2Fredirect&code=XYZ".to_vec()
    );
}
