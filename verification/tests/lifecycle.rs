//! Token, cache and builder behaviour.
use rspotify::token::{Token, TokenBuilder, TokenResponse, token_from_response};
use rspotify::cache::token_to_cache_json;
use rspotify::ClientError;

fn sample_token() -> Token {
    Token {
        access_token: String::from("abc"),
        expires_in: 3600,
        expires_at: Some(1_700_000_000),
        refresh_token: Some(String::from("rtok")),
        scope: vec![String::from("user-read"), String::from("playlist-modify")],
    }
}

#[test]
fn expired_when_no_expiry() {
    let mut t = sample_token();
    t.expires_at = None;
    assert!(t.is_expired());
    assert!(t.is_expired_at(0));
    assert!(t.is_expired_at(i64::MAX));
}

#[test]
fn expired_iff_now_strictly_past() {
    let t = sample_token();
    assert!(t.is_expired_at(1_700_000_001));
    assert!(!t.is_expired_at(1_700_000_000));
    assert!(!t.is_expired_at(1_600_000_000));
}

#[test]
fn can_reauth_iff_refresh_token() {
    let mut t = sample_token();
    assert!(t.can_reauth());
    t.refresh_token = None;
    assert!(!t.can_reauth());
}

#[test]
fn cache_roundtrip_preserves_all_fields() {
    let t = sample_token();
    let blob = token_to_cache_json(&t).unwrap();
    let b = TokenBuilder::from_cache_str(&blob);
    assert_eq!(b.access_token, Some(String::from("abc")));
    assert_eq!(b.expires_in, Some(3600));
    assert_eq!(b.expires_at, Some(Some(1_700_000_000)));
    assert_eq!(b.refresh_token, Some(Some(String::from("rtok"))));
    assert_eq!(
        b.scope,
        Some(vec![String::from("user-read"), String::from("playlist-modify")])
    );
    let loaded = b.build().unwrap();
    assert_eq!(loaded.access_token, t.access_token);
    assert_eq!(loaded.expires_in, t.expires_in);
    assert_eq!(loaded.expires_at, t.expires_at);
    assert_eq!(loaded.refresh_token, t.refresh_token);
    assert_eq!(loaded.scope, t.scope);
}

#[test]
fn cache_roundtrip_null_fields() {
    let t = Token {
        access_token: String::from("abc"),
        expires_in: 0,
        expires_at: None,
        refresh_token: None,
        scope: vec![],
    };
    let blob = token_to_cache_json(&t).unwrap();
    let b = TokenBuilder::from_cache_str(&blob);
    assert_eq!(b.access_token, Some(String::from("abc")));
    assert_eq!(b.expires_in, Some(0));
    assert_eq!(b.expires_at, Some(None));
    assert_eq!(b.refresh_token, Some(None));
    assert_eq!(b.scope, Some(vec![]));
}

#[test]
fn cache_blob_is_valid_json() {
    let t = sample_token();
    let blob = token_to_cache_json(&t).unwrap();
    let v: serde_json::Value = serde_json::from_str(&blob).unwrap();
    assert_eq!(v.get("access_token").unwrap().as_str().unwrap(), "abc");
    assert_eq!(v.get("expires_in").unwrap().as_i64().unwrap(), 3600);
    assert_eq!(v.get("refresh_token").unwrap().as_str().unwrap(), "rtok");
    assert_eq!(
        v.get("scope").unwrap().as_str().unwrap(),
        "user-read playlist-modify"
    );
    let at = v.get("expires_at").unwrap().as_str().unwrap();
    let parsed = chrono::DateTime::parse_from_rfc3339(at).unwrap();
    assert_eq!(parsed.timestamp(), 1_700_000_000);
}

#[test]
fn invalid_json_yields_empty_builder() {
    let b = TokenBuilder::from_cache_str("this is not json {");
    assert_eq!(b.access_token, None);
    assert_eq!(b.expires_in, None);
    assert_eq!(b.expires_at, None);
    assert_eq!(b.refresh_token, None);
    assert_eq!(b.scope, None);
    assert!(b.build().is_err());
    let b2 = TokenBuilder::from_cache_str("");
    assert_eq!(b2.access_token, None);
}

#[test]
fn awkward_strings_are_escaped_and_round_trip() {
    let mut t = sample_token();
    t.access_token = String::from("has a \" quote, a \\ backslash and a \t tab");
    t.refresh_token = Some(String::from("line\nbreak"));
    let blob = token_to_cache_json(&t).unwrap();
    let v: serde_json::Value = serde_json::from_str(&blob).unwrap();
    assert_eq!(
        v.get("access_token").unwrap().as_str().unwrap(),
        "has a \" quote, a \\ backslash and a \t tab"
    );
    assert_eq!(v.get("refresh_token").unwrap().as_str().unwrap(), "line\nbreak");
    let b = rspotify::token::TokenBuilder::from_cache_str(&blob);
    assert_eq!(b.access_token, Some(t.access_token.clone()));
    assert_eq!(b.refresh_token, Some(t.refresh_token.clone()));
}

#[test]
fn negative_window_round_trips() {
    let mut t = sample_token();
    t.expires_in = -75;
    let blob = token_to_cache_json(&t).unwrap();
    let v: serde_json::Value = serde_json::from_str(&blob).unwrap();
    assert_eq!(v.get("expires_in").unwrap().as_i64().unwrap(), -75);
    let b = rspotify::token::TokenBuilder::from_cache_str(&blob);
    assert_eq!(b.expires_in, Some(-75));
}

#[test]
fn pre_epoch_expiry_round_trips() {
    let mut t = sample_token();
    t.expires_at = Some(-1);
    let blob = token_to_cache_json(&t).unwrap();
    let b = TokenBuilder::from_cache_str(&blob);
    assert_eq!(b.expires_at, Some(Some(-1)));
    let mut oldest = sample_token();
    oldest.expires_at = Some(-62_135_596_800);
    let blob2 = token_to_cache_json(&oldest).unwrap();
    let b2 = TokenBuilder::from_cache_str(&blob2);
    assert_eq!(b2.expires_at, Some(Some(-62_135_596_800)));
}

#[test]
fn uncacheable_token_gives_cache_file_error() {
    let mut far = sample_token();
    far.expires_at = Some(i64::MAX);
    match token_to_cache_json(&far) {
        Err(ClientError::CacheFile(_)) => {}
        other => panic!("expected a cache file error, got {:?}", other.is_ok()),
    }
    let mut dup = sample_token();
    dup.scope = vec![String::from("user-read"), String::from("user-read")];
    match token_to_cache_json(&dup) {
        Err(ClientError::CacheFile(_)) => {}
        other => panic!("expected a cache file error, got {:?}", other.is_ok()),
    }
}

#[test]
fn builder_without_access_token_fails() {
    let b = TokenBuilder::default();
    match b.build() {
        Err(ClientError::InvalidAuth(_)) => {}
        _ => panic!("expected an invalid-auth error"),
    }
}

#[test]
fn builder_defaults() {
    let b = TokenBuilder {
        access_token: Some(String::from("x")),
        expires_in: None,
        expires_at: None,
        refresh_token: None,
        scope: None,
    };
    let t = b.build().unwrap();
    assert_eq!(t.expires_in, 0);
    assert!(t.expires_at.is_some());
    assert_eq!(t.refresh_token, None);
    assert!(t.scope.is_empty());
}

#[test]
fn response_without_refresh_token_keeps_old_one() {
    let resp = TokenResponse {
        access_token: String::from("def"),
        expires_in: 3600,
        refresh_token: None,
        scope: vec![],
    };
    let t = token_from_response(resp, 1000, Some(String::from("rtok")));
    assert_eq!(t.access_token, "def");
    assert_eq!(t.refresh_token, Some(String::from("rtok")));
    assert_eq!(t.expires_at, Some(4600));
    let resp2 = TokenResponse {
        access_token: String::from("ghi"),
        expires_in: 60,
        refresh_token: Some(String::from("rotated")),
        scope: vec![],
    };
    let t2 = token_from_response(resp2, 1000, Some(String::from("rtok")));
    assert_eq!(t2.refresh_token, Some(String::from("rotated")));
}

#[test]
fn credentials_builder_requires_both_fields() {
    let ok = rspotify::CredentialsBuilder {
        id: Some(String::from("id")),
        secret: Some(String::from("secret")),
    }
    .build()
    .unwrap();
    assert_eq!(ok.id, "id");
    assert_eq!(ok.secret, "secret");
    let missing = rspotify::CredentialsBuilder {
        id: Some(String::from("id")),
        secret: None,
    };
    assert!(missing.build().is_err());
}

#[test]
fn oauth_builder_generates_state() {
    let o = rspotify::OAuthBuilder {
        redirect_uri: Some(String::from("http://localhost/callback")),
        state: None,
        scope: None,
        proxies: None,
    }
    .build()
    .unwrap();
    assert_eq!(o.state.chars().count(), 16);
    assert!(o.scope.is_empty());
    let missing = rspotify::OAuthBuilder {
        redirect_uri: None,
        state: None,
        scope: None,
        proxies: None,
    };
    assert!(missing.build().is_err());
}

#[test]
fn config_defaults() {
    let c = rspotify::Config::default();
    assert_eq!(c.prefix, "https://api.spotify.com/v1/");
    assert_eq!(c.cache_path, ".spotify_token_cache.json");
    assert_eq!(c.pagination_chunks, 50);
    assert!(c.token_refreshing);
}

#[test]
fn random_strings_have_requested_length() {
    let a = rspotify::generate_random_string(16).unwrap();
    let b = rspotify::generate_random_string(16).unwrap();
    assert_eq!(a.chars().count(), 16);
    assert_eq!(b.chars().count(), 16);
    assert_ne!(a, b);
    assert!(a.chars().all(|c| c.is_ascii_alphanumeric()));
}

#[test]
fn decimal_rendering_and_parsing() {
    assert_eq!(rspotify::text::u64_to_string(0), "0");
    assert_eq!(rspotify::text::u64_to_string(12345), "12345");
    assert_eq!(
        rspotify::text::u64_to_string(u64::MAX),
        "18446744073709551615"
    );
    assert_eq!(rspotify::text::parse_u64("12345,", 0), Some((12345, 5)));
    assert_eq!(rspotify::text::parse_u64("0,", 0), Some((0, 1)));
    assert_eq!(rspotify::text::parse_u64("0042", 0), None);
    assert_eq!(rspotify::text::parse_u64("18446744073709551615", 0), Some((u64::MAX, 20)));
    assert_eq!(rspotify::text::parse_u64("18446744073709551616", 0), None);
    assert_eq!(rspotify::text::parse_u64("x1", 0), None);
}

#[test]
fn split_and_join() {
    let joined = rspotify::text::join_space(&vec![String::from("a"), String::from("bc")]);
    assert_eq!(joined, "a bc");
    assert_eq!(rspotify::text::join_space(&vec![]), "");
    let pieces = rspotify::text::split_str("a  bc", ' ');
    assert_eq!(
        pieces,
        vec![String::from("a"), String::from(""), String::from("bc")]
    );
}
