//! The wire shapes of the OAuth exchanges: the query parameters of the
//! authorize redirect, the form bodies posted to the token endpoint, and the
//! Basic authorization header that the non-PKCE flows carry.
use vstd::prelude::*;
use base64::Engine;
use vstd::string::StrSliceExecFns;
use vstd::string::StringExecFns;

use crate::Credentials;
use crate::OAuth;
use crate::text::spec_join;
use crate::pkce::spec_sha256;
use crate::pkce::spec_base64url;

verus! {

/// The Spotify authorization endpoint.
pub const AUTHORIZE_URL: &'static str = "https://accounts.spotify.com/authorize";

/// The Spotify token endpoint.
pub const TOKEN_URL: &'static str = "https://accounts.spotify.com/api/token";

/// The view of a parameter list: pairs of character sequences.
pub open spec fn form_view(f: Seq<(String, String)>) -> Seq<(Seq<char>, Seq<char>)> {
    f.map_values(|p: (String, String)| (p.0@, p.1@))
}

/// The standard base64 rendering of a byte sequence, as base64 computes it
/// with its `STANDARD` engine.
pub uninterp spec fn spec_base64(bytes: Seq<u8>) -> Seq<char>;

/// Relies on base64's `Engine::encode` with the `STANDARD` engine: the
/// rendering depends on the input bytes alone.
#[verifier::external_body]
fn base64_standard(input: &Vec<u8>) -> (r: String)
    ensures
        r@ == spec_base64(input@),
{
    base64::engine::general_purpose::STANDARD.encode(input.as_slice())
}

/// The rendering that the url crate gives a base URL extended with query
/// pairs, through `Url::parse_with_params`.
pub uninterp spec fn spec_url_with_params(
    base: Seq<char>,
    params: Seq<(Seq<char>, Seq<char>)>,
) -> Seq<char>;

/// Relies on url's `Url::parse_with_params` and its `Url`-to-`String`
/// conversion: the rendering depends on the base and the pairs alone, and
/// the call errs only when the base itself fails to parse, which the
/// authorize endpoint, a plain absolute URL, never does; the error is that
/// parse's rendering of why the base was refused.
#[verifier::external_body]
pub(crate) fn url_with_params(base: &str, params: &Vec<(String, String)>) -> (r: Result<String, String>)
    ensures
        (r matches Ok(u) ==> u@ == spec_url_with_params(base@, form_view(params@))),
        (base@ == AUTHORIZE_URL@ ==> r is Ok),
{
    let pairs = params.iter().map(|p| (p.0.as_str(), p.1.as_str()));
    match url::Url::parse_with_params(base, pairs) {
        Ok(u) => Ok(String::from(u)),
        Err(e) => Err(format!("{}", e)),
    }
}

/// The `Authorization: Basic base64(id:secret)` header carried by the
/// non-PKCE exchanges.
pub fn basic_auth_header(creds: &Credentials) -> (r: (String, String))
    ensures
        r.0@ == "Authorization"@,
        r.1@ == "Basic "@ + spec_base64(
            vstd::utf8::encode_utf8(creds.id@ + seq![':'] + creds.secret@),
        ),
{
    let mut joined = creds.id.clone();
    joined.append(":");
    joined.append(creds.secret.as_str());
    proof {
        reveal_strlit(":");
        assert(joined@ =~= creds.id@ + seq![':'] + creds.secret@);
    }
    let bytes = joined.as_str().as_bytes_vec();
    let encoded = base64_standard(&bytes);
    let mut value = String::from_str("Basic ");
    value.append(encoded.as_str());
    (String::from_str("Authorization"), value)
}

/// The authorize-redirect query parameters for the PKCE flow. The client
/// secret is never among them: only the public client id, the redirect
/// target, the requested scopes, the anti-forgery state and the code
/// challenge travel.
pub fn authorize_params_pkce(creds: &Credentials, oauth: &OAuth, challenge: &str) -> (r: Vec<
    (String, String),
>)
    ensures
        form_view(r@) == seq![
            ("client_id"@, creds.id@),
            ("response_type"@, "code"@),
            ("redirect_uri"@, oauth.redirect_uri@),
            ("scope"@, spec_join(oauth.scope.deep_view(), ' ')),
            ("state"@, oauth.state@),
            ("code_challenge_method"@, "S256"@),
            ("code_challenge"@, challenge@),
        ],
{
    let scopes = crate::text::join_space(&oauth.scope);
    let mut r: Vec<(String, String)> = Vec::new();
    r.push((String::from_str("client_id"), creds.id.clone()));
    r.push((String::from_str("response_type"), String::from_str("code")));
    r.push((String::from_str("redirect_uri"), oauth.redirect_uri.clone()));
    r.push((String::from_str("scope"), scopes));
    r.push((String::from_str("state"), oauth.state.clone()));
    r.push((String::from_str("code_challenge_method"), String::from_str("S256")));
    r.push((String::from_str("code_challenge"), challenge.to_owned()));
    proof {
        assert(form_view(r@) =~= seq![
            ("client_id"@, creds.id@),
            ("response_type"@, "code"@),
            ("redirect_uri"@, oauth.redirect_uri@),
            ("scope"@, spec_join(oauth.scope.deep_view(), ' ')),
            ("state"@, oauth.state@),
            ("code_challenge_method"@, "S256"@),
            ("code_challenge"@, challenge@),
        ]);
    }
    r
}

/// No query parameter of the PKCE authorize URL is named `client_secret`:
/// the flow exists so that public clients never transmit one.
pub proof fn lemma_authorize_params_no_secret(
    creds: Credentials,
    oauth: OAuth,
    challenge: Seq<char>,
    params: Seq<(Seq<char>, Seq<char>)>,
)
    requires
        params == seq![
            ("client_id"@, creds.id@),
            ("response_type"@, "code"@),
            ("redirect_uri"@, oauth.redirect_uri@),
            ("scope"@, spec_join(oauth.scope.deep_view(), ' ')),
            ("state"@, oauth.state@),
            ("code_challenge_method"@, "S256"@),
            ("code_challenge"@, challenge),
        ],
    ensures
        forall|i: int| 0 <= i < params.len() ==> (#[trigger] params[i]).0 != "client_secret"@,
{
    reveal_strlit("client_id");
    reveal_strlit("response_type");
    reveal_strlit("redirect_uri");
    reveal_strlit("scope");
    reveal_strlit("state");
    reveal_strlit("code_challenge_method");
    reveal_strlit("code_challenge");
    reveal_strlit("client_secret");
    let secret_key = "client_secret"@;
    assert(secret_key.len() == 13);
    assert(("client_id"@).len() == 9);
    assert(("redirect_uri"@).len() == 12);
    assert(("scope"@).len() == 5);
    assert(("state"@).len() == 5);
    assert(("code_challenge_method"@).len() == 21);
    assert(("code_challenge"@).len() == 14);
    assert(("response_type"@)[0] == 'r' && secret_key[0] == 'c');
    assert(("response_type"@) != secret_key);
    assert forall|i: int| 0 <= i < params.len() implies (#[trigger] params[i]).0 != secret_key by {
        assert(params.len() == 7);
        assert(params[0].0 == "client_id"@);
        assert(params[1].0 == "response_type"@);
        assert(params[2].0 == "redirect_uri"@);
        assert(params[3].0 == "scope"@);
        assert(params[4].0 == "state"@);
        assert(params[5].0 == "code_challenge_method"@);
        assert(params[6].0 == "code_challenge"@);
    }
}

/// The form body exchanging an authorization code for a token in the PKCE
/// flow: the code verifier stands where other flows put the client secret.
pub fn request_token_form_pkce(oauth: &OAuth, code: &str, verifier: &str) -> (r: Vec<
    (String, String),
>)
    ensures
        form_view(r@) == seq![
            ("grant_type"@, "authorization_code"@),
            ("redirect_uri"@, oauth.redirect_uri@),
            ("code"@, code@),
            ("scope"@, spec_join(oauth.scope.deep_view(), ' ')),
            ("state"@, oauth.state@),
            ("code_verifier"@, verifier@),
        ],
{
    let scopes = crate::text::join_space(&oauth.scope);
    let mut r: Vec<(String, String)> = Vec::new();
    r.push((String::from_str("grant_type"), String::from_str("authorization_code")));
    r.push((String::from_str("redirect_uri"), oauth.redirect_uri.clone()));
    r.push((String::from_str("code"), code.to_owned()));
    r.push((String::from_str("scope"), scopes));
    r.push((String::from_str("state"), oauth.state.clone()));
    r.push((String::from_str("code_verifier"), verifier.to_owned()));
    proof {
        assert(form_view(r@) =~= seq![
            ("grant_type"@, "authorization_code"@),
            ("redirect_uri"@, oauth.redirect_uri@),
            ("code"@, code@),
            ("scope"@, spec_join(oauth.scope.deep_view(), ' ')),
            ("state"@, oauth.state@),
            ("code_verifier"@, verifier@),
        ]);
    }
    r
}

/// The form body exchanging a refresh token for a fresh access token.
pub fn refresh_token_form(refresh_token: &str) -> (r: Vec<(String, String)>)
    ensures
        form_view(r@) == seq![
            ("refresh_token"@, refresh_token@),
            ("grant_type"@, "refresh_token"@),
        ],
{
    let mut r: Vec<(String, String)> = Vec::new();
    r.push((String::from_str("refresh_token"), refresh_token.to_owned()));
    r.push((String::from_str("grant_type"), String::from_str("refresh_token")));
    proof {
        assert(form_view(r@) =~= seq![
            ("refresh_token"@, refresh_token@),
            ("grant_type"@, "refresh_token"@),
        ]);
    }
    r
}

/// The form body of the client-credentials exchange, which carries no user
/// context and never yields a refresh token.
pub fn client_credentials_form() -> (r: Vec<(String, String)>)
    ensures
        form_view(r@) == seq![("grant_type"@, "client_credentials"@)],
{
    let mut r: Vec<(String, String)> = Vec::new();
    r.push((String::from_str("grant_type"), String::from_str("client_credentials")));
    proof {
        assert(form_view(r@) =~= seq![("grant_type"@, "client_credentials"@)]);
    }
    r
}

/// The `Authorization: Bearer <access token>` header with which a caller
/// makes an authenticated request.
pub fn bearer_header(token: &crate::token::Token) -> (r: (String, String))
    ensures
        r.0@ == "Authorization"@,
        r.1@ == "Bearer "@ + token.access_token@,
{
    let mut value = String::from_str("Bearer ");
    value.append(token.access_token.as_str());
    (String::from_str("Authorization"), value)
}

/// Which authorization flow a token request belongs to.
pub enum AuthFlowKind {
    /// Standard authorization-code flow.
    AuthorizationCode,
    /// Authorization-code flow with PKCE.
    AuthorizationCodePkce,
    /// Client-credentials flow.
    ClientCredentials,
}

/// The headers a token-endpoint request carries: the non-PKCE flows
/// authenticate with `Authorization: Basic base64(id:secret)`, the PKCE flow
/// sends none, because its proof key replaces the client secret.
pub fn token_request_headers(kind: &AuthFlowKind, creds: &Credentials) -> (r: Vec<
    (String, String),
>)
    ensures
        (kind is AuthorizationCodePkce ==> form_view(r@) == Seq::<(Seq<char>, Seq<char>)>::empty()),
        (!(kind is AuthorizationCodePkce) ==> form_view(r@) == seq![
            (
                "Authorization"@,
                "Basic "@ + spec_base64(
                    vstd::utf8::encode_utf8(creds.id@ + seq![':'] + creds.secret@),
                ),
            ),
        ]),
{
    let mut r: Vec<(String, String)> = Vec::new();
    match kind {
        AuthFlowKind::AuthorizationCodePkce => {
            proof {
                assert(form_view(r@) =~= Seq::<(Seq<char>, Seq<char>)>::empty());
            }
        },
        _ => {
            let header = basic_auth_header(creds);
            r.push(header);
            proof {
                assert(form_view(r@) =~= seq![
                    (
                        "Authorization"@,
                        "Basic "@ + spec_base64(
                            vstd::utf8::encode_utf8(creds.id@ + seq![':'] + creds.secret@),
                        ),
                    ),
                ]);
            }
        },
    }
    r
}

} // verus!
