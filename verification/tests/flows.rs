use oauth2_core::authorization::{authorization, RequestQuery as AuthQuery};
use oauth2_core::check_access;
use oauth2_core::configure_server;
use oauth2_core::error::WebError;
use oauth2_core::token::{token, GrantType, RequestQuery as TokenQuery};
use oauth2_core::{ClientRegistry, OAuth2Server, PermittedClient, ServerConfig};

fn registry_with(clients: &[(&str, &str, &str)]) -> ClientRegistry {
    let mut registry = ClientRegistry::new();
    for (id, secret, redirect) in clients {
        let ok = registry.register(
            id.to_string(),
            PermittedClient {
                client_secret: secret.to_string(),
                redirect_uri: redirect.to_string(),
            },
        );
        assert!(ok);
    }
    registry
}

fn server_with(clients: &[(&str, &str, &str)]) -> OAuth2Server {
    configure_server(ServerConfig {
        database_path: "oauth.db".to_string(),
        permitted_clients: registry_with(clients),
    })
}

fn auth_query(client_id: &str, redirect_uri: &str, state: &str, response_type: &str) -> AuthQuery {
    AuthQuery {
        client_id: client_id.to_string(),
        redirect_uri: redirect_uri.to_string(),
        state: state.to_string(),
        response_type: response_type.to_string(),
    }
}

fn code_query(client_id: &str, secret: &str, code: &str, redirect_uri: &str) -> TokenQuery {
    TokenQuery {
        client_id: client_id.to_string(),
        client_secret: secret.to_string(),
        grant_type: GrantType::AuthorizationCode,
        code: Some(code.to_string()),
        redirect_uri: Some(redirect_uri.to_string()),
        refresh_token: None,
    }
}

fn refresh_query(client_id: &str, secret: &str, refresh_token: &str) -> TokenQuery {
    TokenQuery {
        client_id: client_id.to_string(),
        client_secret: secret.to_string(),
        grant_type: GrantType::RefreshToken,
        code: None,
        redirect_uri: None,
        refresh_token: Some(refresh_token.to_string()),
    }
}

/// Pull the `code` value out of a redirect target of the shape
/// `<uri>?code=<code>&state=<state>`.
fn code_from_target(target: &str) -> String {
    let after = target.split("?code=").nth(1).expect("redirect carries a code");
    after.split("&state=").next().expect("redirect carries a state").to_string()
}

#[test]
fn authorization_unknown_client_writes_nothing() {
    let mut server = server_with(&[("c1", "s1", "https://app/cb")]);
    let q = auth_query("ghost", "https://app/cb", "xyz", "code");
    let r = authorization(&mut server, &q, 1_000);
    assert!(matches!(r, Err(WebError::UnknownClient)));
    assert_eq!(server.store.pending_authorizations.len(), 0);
}

#[test]
fn authorization_redirect_mismatch_trailing_slash() {
    let mut server = server_with(&[("c1", "s1", "https://app/cb")]);
    let q = auth_query("c1", "https://app/cb/", "xyz", "code");
    let r = authorization(&mut server, &q, 1_000);
    assert!(matches!(r, Err(WebError::RedirectUriMismatch)));
    assert_eq!(server.store.pending_authorizations.len(), 0);
}

#[test]
fn authorization_redirect_mismatch_case() {
    let mut server = server_with(&[("c1", "s1", "https://app/cb")]);
    let q = auth_query("c1", "https://APP/cb", "xyz", "code");
    let r = authorization(&mut server, &q, 1_000);
    assert!(matches!(r, Err(WebError::RedirectUriMismatch)));
}

#[test]
fn authorization_response_type_mismatch() {
    let mut server = server_with(&[("c1", "s1", "https://app/cb")]);
    let q = auth_query("c1", "https://app/cb", "xyz", "token");
    let r = authorization(&mut server, &q, 1_000);
    assert!(matches!(r, Err(WebError::ResponseTypeMismatch)));
    assert_eq!(server.store.pending_authorizations.len(), 0);
}

#[test]
fn authorization_success_shape() {
    let mut server = server_with(&[("c1", "s1", "https://app/cb")]);
    let q = auth_query("c1", "https://app/cb", "xyz", "code");
    let now = 1_000_000;
    let redirect = authorization(&mut server, &q, now).expect("authorization succeeds");
    let target = redirect.target();
    assert!(target.starts_with("https://app/cb?code="));
    assert!(target.ends_with("&state=xyz"));
    let code = code_from_target(target);
    assert_eq!(code.len(), 32);
    assert!(code.chars().all(|c| c.is_ascii_alphanumeric()));
    assert_eq!(server.store.pending_authorizations.len(), 1);
    let pending = &server.store.pending_authorizations[0];
    assert_eq!(pending.client_id, "c1");
    assert_eq!(pending.authorization_code, code);
    assert_eq!(pending.redirect_uri, "https://app/cb");
    assert_eq!(pending.expires_at, now + 600);
}

#[test]
fn authorization_state_is_percent_encoded() {
    let mut server = server_with(&[("c1", "s1", "https://app/cb")]);
    let q = auth_query("c1", "https://app/cb", "a b&c", "code");
    let redirect = authorization(&mut server, &q, 1_000).expect("authorization succeeds");
    assert!(redirect.target().ends_with("&state=a%20b%26c"));
}

#[test]
fn exchange_roundtrip_and_replay() {
    let mut server = server_with(&[("c1", "s1", "https://app/cb")]);
    let now = 1_000_000;
    let q = auth_query("c1", "https://app/cb", "xyz", "code");
    let redirect = authorization(&mut server, &q, now).expect("authorization succeeds");
    let code = code_from_target(redirect.target());

    let tq = code_query("c1", "s1", &code, "https://app/cb");
    let body = token(&mut server, &tq, now).expect("exchange succeeds");
    assert_eq!(body.token_type, "Bearer");
    assert_eq!(body.expires_in, 3600);
    assert_eq!(body.access_token.len(), 32);
    let refresh = body.refresh_token.clone().expect("initial exchange returns a refresh token");
    assert_eq!(refresh.len(), 32);

    // the token is live right away, a never-issued string is not
    assert!(check_access(&server, &body.access_token, now));
    assert!(!check_access(&server, "neverissuedneverissuedneverissue", now));

    // the pending authorization was consumed: a replay fails
    assert_eq!(server.store.pending_authorizations.len(), 0);
    let replay = token(&mut server, &tq, now);
    assert!(matches!(replay, Err(WebError::InvalidGrant)));
}

#[test]
fn exchange_expired_code_rejected() {
    let mut server = server_with(&[("c1", "s1", "https://app/cb")]);
    let now = 1_000_000;
    let q = auth_query("c1", "https://app/cb", "xyz", "code");
    let redirect = authorization(&mut server, &q, now).expect("authorization succeeds");
    let code = code_from_target(redirect.target());

    let tq = code_query("c1", "s1", &code, "https://app/cb");
    // exactly at the expiry instant the code is no longer valid
    let r = token(&mut server, &tq, now + 600);
    assert!(matches!(r, Err(WebError::InvalidGrant)));
    assert_eq!(server.store.access_tokens.len(), 0);
}

#[test]
fn exchange_just_before_expiry_succeeds() {
    let mut server = server_with(&[("c1", "s1", "https://app/cb")]);
    let now = 1_000_000;
    let q = auth_query("c1", "https://app/cb", "xyz", "code");
    let redirect = authorization(&mut server, &q, now).expect("authorization succeeds");
    let code = code_from_target(redirect.target());

    let tq = code_query("c1", "s1", &code, "https://app/cb");
    let body = token(&mut server, &tq, now + 599).expect("exchange succeeds");
    assert_eq!(body.expires_in, 3600);
}

#[test]
fn exchange_wrong_secret_rejected() {
    let mut server = server_with(&[("c1", "s1", "https://app/cb")]);
    let now = 1_000_000;
    let q = auth_query("c1", "https://app/cb", "xyz", "code");
    let redirect = authorization(&mut server, &q, now).expect("authorization succeeds");
    let code = code_from_target(redirect.target());

    let tq = code_query("c1", "wrong", &code, "https://app/cb");
    let r = token(&mut server, &tq, now);
    assert!(matches!(r, Err(WebError::InvalidGrant)));
    // the code is still pending: only a successful exchange consumes it
    assert_eq!(server.store.pending_authorizations.len(), 1);
}

#[test]
fn exchange_unknown_client_rejected() {
    let mut server = server_with(&[("c1", "s1", "https://app/cb")]);
    let tq = code_query("ghost", "s1", "somecode", "https://app/cb");
    let r = token(&mut server, &tq, 1_000);
    assert!(matches!(r, Err(WebError::InvalidGrant)));
}

#[test]
fn exchange_missing_code_is_bad_request() {
    let mut server = server_with(&[("c1", "s1", "https://app/cb")]);
    let tq = TokenQuery {
        client_id: "c1".to_string(),
        client_secret: "s1".to_string(),
        grant_type: GrantType::AuthorizationCode,
        code: None,
        redirect_uri: Some("https://app/cb".to_string()),
        refresh_token: None,
    };
    let r = token(&mut server, &tq, 1_000);
    assert!(matches!(r, Err(WebError::BadRequest)));
}

#[test]
fn exchange_missing_redirect_is_bad_request() {
    let mut server = server_with(&[("c1", "s1", "https://app/cb")]);
    let tq = TokenQuery {
        client_id: "c1".to_string(),
        client_secret: "s1".to_string(),
        grant_type: GrantType::AuthorizationCode,
        code: Some("somecode".to_string()),
        redirect_uri: None,
        refresh_token: None,
    };
    let r = token(&mut server, &tq, 1_000);
    assert!(matches!(r, Err(WebError::BadRequest)));
}

#[test]
fn exchange_code_of_other_client_rejected() {
    let mut server = server_with(&[("c1", "s1", "https://app/cb"), ("c2", "s2", "https://two/cb")]);
    let now = 1_000_000;
    let q = auth_query("c1", "https://app/cb", "xyz", "code");
    let redirect = authorization(&mut server, &q, now).expect("authorization succeeds");
    let code = code_from_target(redirect.target());

    let tq = code_query("c2", "s2", &code, "https://app/cb");
    let r = token(&mut server, &tq, now);
    assert!(matches!(r, Err(WebError::InvalidGrant)));
}

#[test]
fn exchange_redirect_mismatch_rejected() {
    let mut server = server_with(&[("c1", "s1", "https://app/cb")]);
    let now = 1_000_000;
    let q = auth_query("c1", "https://app/cb", "xyz", "code");
    let redirect = authorization(&mut server, &q, now).expect("authorization succeeds");
    let code = code_from_target(redirect.target());

    let tq = code_query("c1", "s1", &code, "https://app/cb/");
    let r = token(&mut server, &tq, now);
    assert!(matches!(r, Err(WebError::InvalidGrant)));
}

#[test]
fn refresh_flow_mints_new_access_token() {
    let mut server = server_with(&[("c1", "s1", "https://app/cb")]);
    let now = 1_000_000;
    let q = auth_query("c1", "https://app/cb", "xyz", "code");
    let redirect = authorization(&mut server, &q, now).expect("authorization succeeds");
    let code = code_from_target(redirect.target());
    let body = token(&mut server, &code_query("c1", "s1", &code, "https://app/cb"), now)
        .expect("exchange succeeds");
    let refresh = body.refresh_token.clone().expect("refresh token issued");

    let later = now + 10_000;
    let rq = refresh_query("c1", "s1", &refresh);
    let second = token(&mut server, &rq, later).expect("refresh succeeds");
    assert_eq!(second.token_type, "Bearer");
    assert_eq!(second.expires_in, 3600);
    assert!(second.refresh_token.is_none());
    assert_ne!(second.access_token, body.access_token);
    assert!(check_access(&server, &second.access_token, later));
    // the first token has meanwhile expired, the stored state decides
    assert!(!check_access(&server, &body.access_token, later));
    // the refresh token is never rotated: it still works
    let third = token(&mut server, &rq, later).expect("refresh again succeeds");
    assert!(check_access(&server, &third.access_token, later));
}

#[test]
fn refresh_with_wrong_client_rejected() {
    let mut server = server_with(&[("c1", "s1", "https://app/cb"), ("c2", "s2", "https://two/cb")]);
    let now = 1_000_000;
    let q = auth_query("c1", "https://app/cb", "xyz", "code");
    let redirect = authorization(&mut server, &q, now).expect("authorization succeeds");
    let code = code_from_target(redirect.target());
    let body = token(&mut server, &code_query("c1", "s1", &code, "https://app/cb"), now)
        .expect("exchange succeeds");
    let refresh = body.refresh_token.clone().expect("refresh token issued");

    // the secret of c2 is correct, the refresh token belongs to c1: rejected
    let rq = refresh_query("c2", "s2", &refresh);
    let r = token(&mut server, &rq, now);
    assert!(matches!(r, Err(WebError::InvalidGrant)));
}

#[test]
fn refresh_with_unknown_token_rejected() {
    let mut server = server_with(&[("c1", "s1", "https://app/cb")]);
    let rq = refresh_query("c1", "s1", "nosuchrefreshtokennosuchrefresh1");
    let r = token(&mut server, &rq, 1_000);
    assert!(matches!(r, Err(WebError::InvalidGrant)));
}

#[test]
fn refresh_missing_token_is_bad_request() {
    let mut server = server_with(&[("c1", "s1", "https://app/cb")]);
    let rq = TokenQuery {
        client_id: "c1".to_string(),
        client_secret: "s1".to_string(),
        grant_type: GrantType::RefreshToken,
        code: None,
        redirect_uri: None,
        refresh_token: None,
    };
    let r = token(&mut server, &rq, 1_000);
    assert!(matches!(r, Err(WebError::BadRequest)));
}

#[test]
fn multiple_codes_per_client_stay_outstanding() {
    let mut server = server_with(&[("c1", "s1", "https://app/cb")]);
    let now = 1_000_000;
    let q = auth_query("c1", "https://app/cb", "one", "code");
    let first = authorization(&mut server, &q, now).expect("authorization succeeds");
    let q2 = auth_query("c1", "https://app/cb", "two", "code");
    let second = authorization(&mut server, &q2, now).expect("authorization succeeds");
    assert_eq!(server.store.pending_authorizations.len(), 2);
    let code1 = code_from_target(first.target());
    let code2 = code_from_target(second.target());
    // both codes redeem, each exactly once
    token(&mut server, &code_query("c1", "s1", &code1, "https://app/cb"), now)
        .expect("first code redeems");
    token(&mut server, &code_query("c1", "s1", &code2, "https://app/cb"), now)
        .expect("second code redeems");
    assert_eq!(server.store.pending_authorizations.len(), 0);
}
