//! The client-credentials flow: a single exchange authenticated with the
//! Basic header, no user context, and no refresh capability — a token
//! obtained this way can never be silently refreshed, so `can_reauth` is
//! always false on it.
use vstd::prelude::*;

use crate::ClientError;
use crate::ClientResult;
use crate::Config;
use crate::Credentials;
use crate::auth_code_pkce::TokenRequest;
use crate::forms::AuthFlowKind;
use crate::forms::TOKEN_URL;
use crate::forms::client_credentials_form;
use crate::forms::form_view;
use crate::forms::spec_base64;
use crate::forms::token_request_headers;
use crate::store::TokenStore;
use crate::token::Token;
use crate::token::TokenResponse;
use crate::token::spec_expiry;
use crate::token::token_from_response;

verus! {

/// The client-credentials exchange request: a POST to the token endpoint
/// carrying the Basic authorization header and the client-credentials form.
pub open spec fn spec_client_creds_request(req: TokenRequest, creds: Credentials) -> bool {
    &&& req.url@ == TOKEN_URL@
    &&& form_view(req.headers@) == seq![
        (
            "Authorization"@,
            "Basic "@ + spec_base64(
                vstd::utf8::encode_utf8(creds.id@ + seq![':'] + creds.secret@),
            ),
        ),
    ]
    &&& form_view(req.form@) == seq![("grant_type"@, "client_credentials"@)]
}

/// The token stored after a client-credentials exchange at instant `now`:
/// the reply's fields, an expiry of `now` plus the window, and never a
/// refresh token, whatever the server replied — this flow cannot refresh.
pub fn client_token_from_response(resp: TokenResponse, now: i64) -> (t: Token)
    ensures
        t.access_token@ == resp.access_token@,
        t.expires_in == resp.expires_in,
        t.expires_at == Some(spec_expiry(now as int, resp.expires_in as int) as i64),
        t@.refresh_token is None,
        t@.scope == resp.scope.deep_view(),
{
    let mut t = token_from_response(resp, now, None);
    t.refresh_token = None;
    t
}

/// The client-credentials client: client id and secret alone, no authorize
/// step, no refresh.
pub struct ClientCredsSpotify {
    pub creds: Credentials,
    pub config: Config,
    pub token: TokenStore,
}

impl ClientCredsSpotify {
    /// A client from its credentials, with the default configuration and an
    /// empty token store.
    pub fn new(creds: Credentials) -> (r: Self)
        ensures
            r.creds == creds,
            r.config.token_refreshing,
    {
        ClientCredsSpotify { creds, config: Config::default(), token: TokenStore::new(None) }
    }

    /// Same as [`Self::new`], with an explicit configuration.
    pub fn with_config(creds: Credentials, config: Config) -> (r: Self)
        ensures
            r.creds == creds,
            r.config == config,
    {
        ClientCredsSpotify { creds, config, token: TokenStore::new(None) }
    }

    /// Performs the single client-credentials exchange through the
    /// transport: a form POST carrying `grant_type=client_credentials`,
    /// authenticated with the Basic header, and stores the
    /// [`client_token_from_response`] token wholesale, which never carries a
    /// refresh token. Every failure is the transport's own, for the stated
    /// request.
    pub fn request_client_token<F: Fn(TokenRequest) -> Result<TokenResponse, ClientError>>(
        &self,
        now: i64,
        fetch: F,
    ) -> (r: ClientResult<()>)
        requires
            forall|req: TokenRequest| call_requires(fetch, (req,)),
        ensures
            (r is Ok ==> exists|req: TokenRequest, resp: TokenResponse|
                spec_client_creds_request(req, self.creds) && #[trigger] call_ensures(
                    fetch,
                    (req,),
                    Ok::<TokenResponse, ClientError>(resp),
                )),
            (r matches Err(e) ==> exists|req: TokenRequest|
                spec_client_creds_request(req, self.creds) && #[trigger] call_ensures(
                    fetch,
                    (req,),
                    Err::<TokenResponse, ClientError>(e),
                )),
    {
        let headers = token_request_headers(&AuthFlowKind::ClientCredentials, &self.creds);
        let form = client_credentials_form();
        let req = TokenRequest { url: TOKEN_URL.to_owned(), headers, form };
        let ghost greq = req;
        match fetch(req) {
            Ok(resp) => {
                let ghost gresp = resp;
                let fresh = client_token_from_response(resp, now);
                self.token.replace(Some(fresh));
                proof {
                    assert(call_ensures(fetch, (greq,), Ok::<TokenResponse, ClientError>(gresp)));
                }
                Ok(())
            },
            Err(e) => {
                let ghost ge = e;
                proof {
                    assert(call_ensures(fetch, (greq,), Err::<TokenResponse, ClientError>(ge)));
                }
                Err(e)
            },
        }
    }
}

} // verus!
