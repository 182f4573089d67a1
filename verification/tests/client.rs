//! Client behaviour: callback parsing, device ids, the authorize URL, the
//! exchange forms and headers, and the coordinated refresh.
use std::cell::Cell;

use base64::Engine;
use rspotify::auth_code_pkce::{AuthCodePkceSpotify, TokenRequest};
use rspotify::forms::{token_request_headers, AuthFlowKind};
use rspotify::pkce::code_challenge_s256;
use rspotify::token::{Token, TokenResponse};
use rspotify::ClientError;
use rspotify::{Config, Credentials, OAuth};

fn sample_creds() -> Credentials {
    Credentials {
        id: String::from("id"),
        secret: String::from("secret"),
    }
}

fn oauth_with_state(state: &str) -> OAuth {
    OAuth {
        redirect_uri: String::from("http://localhost:8888/callback"),
        state: String::from(state),
        scope: vec![String::from("user-read")],
        proxies: None,
    }
}

#[test]
fn test_parse_response_code() {
    let url = "http://localhost:8888/callback?code=AQD0yXvFEOvw&state=sN#_=_";
    let spotify = AuthCodePkceSpotify::new(sample_creds(), oauth_with_state("sN"));
    let code = spotify.parse_response_code(url).unwrap();
    assert_eq!(code, "AQD0yXvFEOvw");
}

#[test]
fn test_append_device_id_without_question_mark() {
    let path = "me/player/play";
    let device_id = Some("fdafdsadfa");
    let spotify = AuthCodePkceSpotify::new(sample_creds(), oauth_with_state("sN"));
    let new_path = spotify.append_device_id(path, device_id);
    assert_eq!(new_path, "me/player/play?device_id=fdafdsadfa");
}

#[test]
fn test_append_device_id_with_question_mark() {
    let path = "me/player/shuffle?state=true";
    let device_id = Some("fdafdsadfa");
    let spotify = AuthCodePkceSpotify::new(sample_creds(), oauth_with_state("sN"));
    let new_path = spotify.append_device_id(path, device_id);
    assert_eq!(
        new_path,
        "me/player/shuffle?state=true&device_id=fdafdsadfa"
    );
}

#[test]
fn state_mismatch_is_rejected() {
    let url = "http://localhost:8888/callback?code=AQD0yXvFEOvw&state=sN#_=_";
    let spotify = AuthCodePkceSpotify::new(sample_creds(), oauth_with_state("other"));
    assert_eq!(spotify.parse_response_code(url), None);
    let no_state = "http://localhost:8888/callback?code=AQD0yXvFEOvw";
    assert_eq!(spotify.parse_response_code(no_state), None);
    let no_query = "http://localhost:8888/callback";
    assert_eq!(spotify.parse_response_code(no_query), None);
}

#[test]
fn pkce_challenge_matches_rfc_7636_vector() {
    let challenge = code_challenge_s256("dBjftJeZ4CVP-mB92K27uhbUJU1p1r_wW1gFWFOEjXk");
    assert_eq!(challenge, "E9Melhoa2OwvFrEMTJguCHaoeK1t8URWbuGJSstw-cM");
}

#[test]
fn authorize_url_carries_challenge_and_no_secret() {
    let mut spotify = AuthCodePkceSpotify::new(sample_creds(), oauth_with_state("sN"));
    let url = spotify.get_authorize_url().unwrap();
    assert!(url.starts_with("https://accounts.spotify.com/authorize?"));
    let verifier = spotify.verifier.clone().unwrap();
    assert_eq!(verifier.chars().count(), 43);
    let challenge = code_challenge_s256(&verifier);
    assert!(url.contains(&format!("code_challenge={}", challenge)));
    assert!(url.contains("code_challenge_method=S256"));
    assert!(url.contains("client_id=id"));
    assert!(url.contains("state=sN"));
    assert!(!url.contains("client_secret"));
    assert!(!url.contains("secret"));
}

#[test]
fn non_pkce_exchanges_carry_basic_auth() {
    let creds = sample_creds();
    let headers = token_request_headers(&AuthFlowKind::AuthorizationCode, &creds);
    assert_eq!(headers.len(), 1);
    assert_eq!(headers[0].0, "Authorization");
    let expected = format!(
        "Basic {}",
        base64::engine::general_purpose::STANDARD.encode("id:secret")
    );
    assert_eq!(headers[0].1, expected);
    let cc = token_request_headers(&AuthFlowKind::ClientCredentials, &creds);
    assert_eq!(cc.len(), 1);
    let pkce = token_request_headers(&AuthFlowKind::AuthorizationCodePkce, &creds);
    assert!(pkce.is_empty());
}

#[test]
fn client_credentials_form_has_no_refresh_material() {
    let form = rspotify::forms::client_credentials_form();
    assert_eq!(
        form,
        vec![(String::from("grant_type"), String::from("client_credentials"))]
    );
}

fn expired_refreshable_token(now: i64) -> Token {
    Token {
        access_token: String::from("abc"),
        expires_in: 3600,
        expires_at: Some(now - 10),
        refresh_token: Some(String::from("rtok")),
        scope: vec![String::from("user-read")],
    }
}

#[test]
fn coordinator_refreshes_expired_token_once() {
    let now: i64 = 1_700_000_000;
    let client = AuthCodePkceSpotify::with_config(
        sample_creds(),
        oauth_with_state("sN"),
        Config::default(),
    );
    client.token.replace(Some(expired_refreshable_token(now)));

    let calls = Cell::new(0u32);
    let seen_refresh_token = Cell::new(false);
    let fetch = |req: TokenRequest| -> Result<TokenResponse, ClientError> {
        calls.set(calls.get() + 1);
        assert_eq!(req.url, "https://accounts.spotify.com/api/token");
        assert!(req.headers.is_empty());
        seen_refresh_token.set(
            req.form
                .iter()
                .any(|p| p.0 == "refresh_token" && p.1 == "rtok"),
        );
        assert!(req
            .form
            .iter()
            .any(|p| p.0 == "grant_type" && p.1 == "refresh_token"));
        Ok(TokenResponse {
            access_token: String::from("def"),
            expires_in: 3600,
            refresh_token: None,
            scope: vec![String::from("user-read")],
        })
    };

    let stored = client.get_token(now, fetch).unwrap().unwrap();
    assert_eq!(calls.get(), 1);
    assert!(seen_refresh_token.get());
    assert_eq!(stored.access_token, "def");
    assert_eq!(stored.refresh_token, Some(String::from("rtok")));
    assert_eq!(stored.expires_at, Some(now + 3600));

    // A second pass sees a fresh token and performs no second exchange.
    let again = client.get_token(now, fetch).unwrap().unwrap();
    assert_eq!(calls.get(), 1);
    assert_eq!(again.access_token, "def");
}

#[test]
fn coordinator_leaves_valid_token_alone() {
    let now: i64 = 1_700_000_000;
    let client = AuthCodePkceSpotify::new(sample_creds(), oauth_with_state("sN"));
    let mut valid = expired_refreshable_token(now);
    valid.expires_at = Some(now + 1000);
    client.token.replace(Some(valid));
    let fetch = |_req: TokenRequest| -> Result<TokenResponse, ClientError> {
        panic!("no exchange may happen for a valid token");
    };
    let out = client.get_token(now, fetch).unwrap().unwrap();
    assert_eq!(out.access_token, "abc");
}

#[test]
fn coordinator_ignores_terminal_token() {
    let now: i64 = 1_700_000_000;
    let client = AuthCodePkceSpotify::new(sample_creds(), oauth_with_state("sN"));
    let mut terminal = expired_refreshable_token(now);
    terminal.refresh_token = None;
    client.token.replace(Some(terminal));
    let fetch = |_req: TokenRequest| -> Result<TokenResponse, ClientError> {
        panic!("an expired token without refresh token is never auto-recovered");
    };
    let out = client.get_token(now, fetch).unwrap().unwrap();
    assert_eq!(out.access_token, "abc");
    assert!(out.is_expired_at(now));
}

#[test]
fn coordinator_respects_disabled_refreshing() {
    let now: i64 = 1_700_000_000;
    let mut config = Config::default();
    config.token_refreshing = false;
    let client =
        AuthCodePkceSpotify::with_config(sample_creds(), oauth_with_state("sN"), config);
    client.token.replace(Some(expired_refreshable_token(now)));
    let fetch = |_req: TokenRequest| -> Result<TokenResponse, ClientError> {
        panic!("refreshing is disabled");
    };
    let out = client.get_token(now, fetch).unwrap().unwrap();
    assert_eq!(out.access_token, "abc");
}

#[test]
fn transport_errors_propagate_and_keep_token() {
    let now: i64 = 1_700_000_000;
    let client = AuthCodePkceSpotify::new(sample_creds(), oauth_with_state("sN"));
    client.token.replace(Some(expired_refreshable_token(now)));
    let fetch = |_req: TokenRequest| -> Result<TokenResponse, ClientError> {
        Err(ClientError::Http(String::from("boom")))
    };
    match client.get_token(now, fetch) {
        Err(ClientError::Http(msg)) => assert_eq!(msg, "boom"),
        _ => panic!("expected the transport error through"),
    }
    let still = client.token.read_token().unwrap();
    assert_eq!(still.access_token, "abc");
}

#[test]
fn reauth_step_refreshes_exactly_per_decision() {
    let now: i64 = 1_700_000_000;
    let fetch = |req: TokenRequest| -> Result<TokenResponse, ClientError> {
        assert!(req.headers.is_empty());
        Ok(TokenResponse {
            access_token: String::from("def"),
            expires_in: 3600,
            refresh_token: None,
            scope: vec![String::from("user-read")],
        })
    };
    let (next, failure) = rspotify::auth_code_pkce::reauth_step(
        true,
        Some(expired_refreshable_token(now)),
        now,
        fetch,
    );
    assert!(failure.is_none());
    let stored = next.unwrap();
    assert_eq!(stored.access_token, "def");
    assert_eq!(stored.refresh_token, Some(String::from("rtok")));
    assert_eq!(stored.expires_at, Some(now + 3600));

    let untouched = |_req: TokenRequest| -> Result<TokenResponse, ClientError> {
        panic!("no refresh is due");
    };
    let (kept, ok) = rspotify::auth_code_pkce::reauth_step(false, Some(stored), now, untouched);
    assert!(ok.is_none());
    assert_eq!(kept.unwrap().access_token, "def");
}

#[test]
fn failed_refresh_keeps_slot_and_reports_transport_error() {
    let now: i64 = 1_700_000_000;
    let fetch = |_req: TokenRequest| -> Result<TokenResponse, ClientError> {
        Err(ClientError::Http(String::from("unreachable host")))
    };
    let (kept, failure) = rspotify::auth_code_pkce::reauth_step(
        true,
        Some(expired_refreshable_token(now)),
        now,
        fetch,
    );
    assert_eq!(kept.unwrap().access_token, "abc");
    match failure {
        Some(ClientError::Http(msg)) => assert_eq!(msg, "unreachable host"),
        _ => panic!("expected the transport error"),
    }
}

#[test]
fn request_token_needs_a_verifier() {
    let client = AuthCodePkceSpotify::new(sample_creds(), oauth_with_state("sN"));
    let fetch = |_req: TokenRequest| -> Result<TokenResponse, ClientError> {
        panic!("no exchange without a verifier");
    };
    match client.request_token("somecode", 0, fetch) {
        Err(ClientError::InvalidAuth(_)) => {}
        _ => panic!("expected an invalid-auth error"),
    }
}

#[test]
fn request_token_sends_verifier_and_stores() {
    let now: i64 = 1_700_000_000;
    let mut client = AuthCodePkceSpotify::new(sample_creds(), oauth_with_state("sN"));
    client.get_authorize_url().unwrap();
    let verifier = client.verifier.clone().unwrap();
    let fetch = |req: TokenRequest| -> Result<TokenResponse, ClientError> {
        assert!(req.headers.is_empty());
        assert!(req
            .form
            .iter()
            .any(|p| p.0 == "grant_type" && p.1 == "authorization_code"));
        assert!(req.form.iter().any(|p| p.0 == "code" && p.1 == "somecode"));
        assert!(req
            .form
            .iter()
            .any(|p| p.0 == "code_verifier" && p.1 == verifier));
        assert!(!req.form.iter().any(|p| p.1 == "secret"));
        Ok(TokenResponse {
            access_token: String::from("first"),
            expires_in: 3600,
            refresh_token: Some(String::from("rt1")),
            scope: vec![String::from("user-read")],
        })
    };
    client.request_token("somecode", now, fetch).unwrap();
    let stored = client.token.read_token().unwrap();
    assert_eq!(stored.access_token, "first");
    assert_eq!(stored.refresh_token, Some(String::from("rt1")));
    assert_eq!(stored.expires_at, Some(now + 3600));
}

#[test]
fn refetch_token_reattaches_refresh_token() {
    let now: i64 = 2_000_000_000;
    let client = AuthCodePkceSpotify::new(sample_creds(), oauth_with_state("sN"));
    let fetch = |_req: TokenRequest| -> Result<TokenResponse, ClientError> {
        Ok(TokenResponse {
            access_token: String::from("def"),
            expires_in: 60,
            refresh_token: None,
            scope: vec![],
        })
    };
    let t = client.refetch_token("rtok", now, fetch).unwrap();
    assert_eq!(t.access_token, "def");
    assert_eq!(t.refresh_token, Some(String::from("rtok")));
    assert_eq!(t.expires_at, Some(now + 60));
}

#[test]
fn from_token_holds_the_token() {
    let t = expired_refreshable_token(1000);
    let client = AuthCodePkceSpotify::from_token(t);
    let held = client.token.read_token().unwrap();
    assert_eq!(held.access_token, "abc");
    assert_eq!(client.get_creds().id, "");
}

#[test]
fn client_credentials_flow_never_yields_refresh() {
    let now: i64 = 1_700_000_000;
    let client = rspotify::client_creds::ClientCredsSpotify::new(sample_creds());
    let expected_auth = format!(
        "Basic {}",
        base64::engine::general_purpose::STANDARD.encode("id:secret")
    );
    let fetch = |req: TokenRequest| -> Result<TokenResponse, ClientError> {
        assert_eq!(req.url, "https://accounts.spotify.com/api/token");
        assert_eq!(req.headers.len(), 1);
        assert_eq!(req.headers[0].0, "Authorization");
        assert_eq!(req.headers[0].1, expected_auth);
        assert_eq!(
            req.form,
            vec![(String::from("grant_type"), String::from("client_credentials"))]
        );
        Ok(TokenResponse {
            access_token: String::from("cc"),
            expires_in: 3600,
            refresh_token: Some(String::from("server-sent-one-anyway")),
            scope: vec![],
        })
    };
    client.request_client_token(now, fetch).unwrap();
    let stored = client.token.read_token().unwrap();
    assert_eq!(stored.access_token, "cc");
    assert_eq!(stored.refresh_token, None);
    assert!(!stored.can_reauth());
}

#[test]
fn bearer_header_carries_access_token() {
    let t = expired_refreshable_token(0);
    let header = rspotify::forms::bearer_header(&t);
    assert_eq!(header.0, "Authorization");
    assert_eq!(header.1, "Bearer abc");
}

#[test]
fn getters_hand_back_configuration() {
    let client = AuthCodePkceSpotify::new(sample_creds(), oauth_with_state("sN"));
    assert_eq!(client.get_creds().id, "id");
    assert_eq!(client.get_oauth().state, "sN");
    assert_eq!(client.get_config().pagination_chunks, 50);
}
