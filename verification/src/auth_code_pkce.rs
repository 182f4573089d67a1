//! The Authorization Code + PKCE client: it owns the credentials, the OAuth
//! parameters, the configuration and the token store, builds the authorize
//! URL and the token-endpoint requests, and runs the check-and-maybe-refresh
//! coordination under the store's exclusive lock. The transport is a
//! collaborator: callers hand in a function that performs one token-endpoint
//! POST and returns the reply's plain values.
use vstd::prelude::*;
use vstd::string::StrSliceExecFns;
use vstd::string::StringExecFns;

use crate::ClientError;
use crate::ClientResult;
use crate::Config;
use crate::Credentials;
use crate::OAuth;
use crate::forms::AUTHORIZE_URL;
use crate::forms::AuthFlowKind;
use crate::forms::TOKEN_URL;
use crate::forms::authorize_params_pkce;
use crate::forms::form_view;
use crate::forms::refresh_token_form;
use crate::forms::request_token_form_pkce;
use crate::forms::spec_url_with_params;
use crate::forms::token_request_headers;
use crate::forms::url_with_params;
use crate::pkce::code_challenge_s256;
use crate::pkce::spec_base64url;
use crate::pkce::spec_sha256;
use crate::store::TokenStore;
use crate::store::clone_opt_token;
use crate::store::spec_opt_view;
use crate::text::eat_lit;
use crate::text::find_char;
use crate::text::spec_find;
use crate::text::spec_has_at;
use crate::text::spec_join;
use crate::text::spec_split;
use crate::text::split_str;
use crate::token::Token;
use crate::token::TokenResponse;
use crate::token::TokenView;
use crate::token::spec_expiry;
use crate::token::token_from_response;

verus! {

/// One token-endpoint request, ready for the transport: the endpoint, the
/// headers and the form body.
pub struct TokenRequest {
    pub url: String,
    pub headers: Vec<(String, String)>,
    pub form: Vec<(String, String)>,
}

/// What the coordinator decides on a stored token at instant `now`: the
/// refresh token to exchange, or nothing. A refresh happens exactly when
/// refreshing is enabled, a token is present, it is expired, and it carries
/// a refresh token.
pub open spec fn spec_reauth_decision(
    token_refreshing: bool,
    t: Option<TokenView>,
    now: int,
) -> Option<Seq<char>> {
    match t {
        None => None,
        Some(tv) => {
            if token_refreshing && (match tv.expires_at {
                None => true,
                Some(x) => now > x,
            }) && tv.refresh_token is Some {
                Some(tv.refresh_token->0)
            } else {
                None
            }
        },
    }
}

/// How a token stored after a refresh at instant `now` relates to the
/// server's reply and to the refresh token `rt` that was exchanged: the
/// reply's fields are taken wholesale, the expiry is `now` plus the window,
/// and a reply without a rotated refresh token keeps `rt`.
pub open spec fn spec_refreshed_view(
    tv: TokenView,
    resp: TokenResponse,
    now: int,
    rt: Seq<char>,
) -> bool {
    &&& tv.access_token == resp.access_token@
    &&& tv.expires_in == resp.expires_in as int
    &&& tv.expires_at == Some(spec_expiry(now, resp.expires_in as int))
    &&& tv.refresh_token == (match resp.refresh_token {
        Some(x) => Some(x@),
        None => Some(rt),
    })
    &&& tv.scope == resp.scope.deep_view()
}

/// The refresh request that the coordinator hands the transport for `rt`:
/// a POST to the token endpoint, no headers (the PKCE flow carries no
/// client secret), and the refresh form body.
pub open spec fn spec_refresh_request(req: TokenRequest, rt: Seq<char>) -> bool {
    &&& req.url@ == TOKEN_URL@
    &&& form_view(req.headers@) == Seq::<(Seq<char>, Seq<char>)>::empty()
    &&& form_view(req.form@) == seq![("refresh_token"@, rt), ("grant_type"@, "refresh_token"@)]
}

/// The code-exchange request of the PKCE flow: a POST to the token
/// endpoint with no headers (the code verifier stands where other flows put
/// the client secret) and the authorization-code form body.
pub open spec fn spec_code_exchange_request(
    req: TokenRequest,
    oauth: OAuth,
    code: Seq<char>,
    verifier: Seq<char>,
) -> bool {
    &&& req.url@ == TOKEN_URL@
    &&& form_view(req.headers@) == Seq::<(Seq<char>, Seq<char>)>::empty()
    &&& form_view(req.form@) == seq![
        ("grant_type"@, "authorization_code"@),
        ("redirect_uri"@, oauth.redirect_uri@),
        ("code"@, code),
        ("scope"@, spec_join(oauth.scope.deep_view(), ' ')),
        ("state"@, oauth.state@),
        ("code_verifier"@, verifier),
    ]
}

/// The outcome of one coordinated pass over the store observed as `pre`:
/// either nothing was to be done and the token stands as it was, or the
/// transport was called once with the refresh request and the stored token
/// is built from its reply.
pub open spec fn spec_reauth_outcome<F: Fn(TokenRequest) -> Result<
    TokenResponse,
    ClientError,
>>(
    fetch: F,
    token_refreshing: bool,
    pre: Option<TokenView>,
    now: int,
    out: Option<TokenView>,
) -> bool {
    match spec_reauth_decision(token_refreshing, pre, now) {
        None => out == pre,
        Some(rt) => exists|req: TokenRequest, resp: TokenResponse|
            {
                &&& spec_refresh_request(req, rt)
                &&& #[trigger] call_ensures(fetch, (req,), Ok::<TokenResponse, ClientError>(resp))
                &&& out matches Some(tv) && spec_refreshed_view(tv, resp, now, rt)
            },
    }
}

/// A token that is not yet expired is never refreshed: the decision is to
/// do nothing, whatever the configuration.
pub proof fn lemma_valid_token_not_refreshed(token_refreshing: bool, tv: TokenView, now: int)
    requires
        tv.expires_at matches Some(x) && now <= x,
    ensures
        spec_reauth_decision(token_refreshing, Some(tv), now) is None,
{
}

/// A refresh at `now` that granted a positive validity window leaves a token
/// on which every later pass up to the new expiry decides no further
/// refresh. Together with the exclusive lock held from the expiry check
/// through the store update, concurrent requests against one expired
/// refreshable token trigger at most one exchange: the first pass stores a
/// fresh token, and every pass that observes it does nothing.
pub proof fn lemma_refresh_at_most_once(
    token_refreshing: bool,
    tv: TokenView,
    resp: TokenResponse,
    now: int,
    now2: int,
    rt: Seq<char>,
)
    requires
        spec_refreshed_view(tv, resp, now, rt),
        resp.expires_in >= 1,
        now + resp.expires_in <= i64::MAX,
        now2 <= now + resp.expires_in,
    ensures
        spec_reauth_decision(token_refreshing, Some(tv), now2) is None,
{
}

/// The Authorization Code Flow with Proof Key for Code Exchange (PKCE)
/// client. It differs from the plain authorization-code client in that a
/// locally generated code verifier and its hashed challenge replace the
/// client secret, so the secret never travels.
pub struct AuthCodePkceSpotify {
    pub creds: Credentials,
    pub oauth: OAuth,
    pub config: Config,
    /// The single mutable slot shared by concurrent requests.
    pub token: TokenStore,
    /// The PKCE code verifier generated for the authorize URL; it is kept
    /// here because only its hash travels in the authorize step, while the
    /// verifier itself must be sent in the token exchange.
    pub verifier: Option<String>,
}

impl AuthCodePkceSpotify {
    /// A client from a pair of client credentials and OAuth information,
    /// with the default configuration and an empty token store.
    pub fn new(creds: Credentials, oauth: OAuth) -> (r: Self)
        ensures
            r.creds == creds,
            r.oauth == oauth,
            r.config.prefix@ == crate::DEFAULT_API_PREFIX@,
            r.config.cache_path@ == crate::DEFAULT_CACHE_PATH@,
            r.config.pagination_chunks == crate::DEFAULT_PAGINATION_CHUNKS,
            r.config.token_refreshing,
            r.verifier is None,
    {
        AuthCodePkceSpotify {
            creds,
            oauth,
            config: Config::default(),
            token: TokenStore::new(None),
            verifier: None,
        }
    }

    /// A client from an already granted token. Once that token expires,
    /// requests fail: the client credentials are not known here.
    pub fn from_token(token: Token) -> (r: Self)
        ensures
            r.creds.id@ == Seq::<char>::empty(),
            r.creds.secret@ == Seq::<char>::empty(),
            r.oauth.redirect_uri@ == Seq::<char>::empty(),
            r.oauth.state@ == Seq::<char>::empty(),
            r.oauth.scope.deep_view() == Seq::<Seq<char>>::empty(),
            r.oauth.proxies is None,
            r.config.prefix@ == crate::DEFAULT_API_PREFIX@,
            r.config.cache_path@ == crate::DEFAULT_CACHE_PATH@,
            r.config.pagination_chunks == crate::DEFAULT_PAGINATION_CHUNKS,
            r.config.token_refreshing,
            r.verifier is None,
    {
        let scope: Vec<String> = Vec::new();
        proof {
            assert(scope.deep_view() =~= Seq::<Seq<char>>::empty());
        }
        AuthCodePkceSpotify {
            creds: Credentials { id: String::new(), secret: String::new() },
            oauth: OAuth {
                redirect_uri: String::new(),
                state: String::new(),
                scope,
                proxies: None,
            },
            config: Config::default(),
            token: TokenStore::new(Some(token)),
            verifier: None,
        }
    }

    /// Same as [`Self::new`], with an explicit configuration.
    pub fn with_config(creds: Credentials, oauth: OAuth, config: Config) -> (r: Self)
        ensures
            r.creds == creds,
            r.oauth == oauth,
            r.config == config,
            r.verifier is None,
    {
        AuthCodePkceSpotify { creds, oauth, config, token: TokenStore::new(None), verifier: None }
    }

    /// The client's credentials.
    pub fn get_creds(&self) -> (r: &Credentials)
        ensures
            *r == self.creds,
    {
        &self.creds
    }

    /// The client's OAuth parameters.
    pub fn get_oauth(&self) -> (r: &OAuth)
        ensures
            *r == self.oauth,
    {
        &self.oauth
    }

    /// The client's configuration.
    pub fn get_config(&self) -> (r: &Config)
        ensures
            *r == self.config,
    {
        &self.config
    }

    /// The URL that authorizes this client, as the first step of the flow:
    /// it carries the client id, the response type, the redirect URI, the
    /// scopes, the anti-forgery state, and the `S256` challenge of a freshly
    /// generated 43-character code verifier, which the client retains for
    /// the exchange step. The client secret is not among the parameters.
    pub fn get_authorize_url(&mut self) -> (r: ClientResult<String>)
        ensures
            old(self).creds == final(self).creds,
            old(self).oauth == final(self).oauth,
            old(self).config == final(self).config,
            (r is Err ==> final(self).verifier == old(self).verifier),
            (r matches Err(e) ==> e is Io),
            (r matches Ok(u) ==> final(self).verifier matches Some(v) && v@.len() == 43 && u@
                == spec_url_with_params(
                AUTHORIZE_URL@,
                seq![
                    ("client_id"@, old(self).creds.id@),
                    ("response_type"@, "code"@),
                    ("redirect_uri"@, old(self).oauth.redirect_uri@),
                    ("scope"@, spec_join(old(self).oauth.scope.deep_view(), ' ')),
                    ("state"@, old(self).oauth.state@),
                    ("code_challenge_method"@, "S256"@),
                    (
                        "code_challenge"@,
                        spec_base64url(spec_sha256(vstd::utf8::encode_utf8(v@))),
                    ),
                ],
            )),
    {
        let verifier = crate::generate_random_string(43)?;
        let challenge = code_challenge_s256(verifier.as_str());
        let params = authorize_params_pkce(&self.creds, &self.oauth, challenge.as_str());
        match url_with_params(AUTHORIZE_URL, &params) {
            Ok(u) => {
                self.verifier = Some(verifier);
                Ok(u)
            },
            Err(e) => Err(ClientError::ParseUrl(e)),
        }
    }

    /// Exchanges an authorization code for a token through the transport,
    /// and stores the token wholesale. Fails without touching the transport
    /// when no code verifier is retained, that is, when no authorize URL was
    /// generated by this client; with a verifier retained, every failure is
    /// the transport's own, for the stated exchange request.
    pub fn request_token<F: Fn(TokenRequest) -> Result<TokenResponse, ClientError>>(
        &self,
        code: &str,
        now: i64,
        fetch: F,
    ) -> (r: ClientResult<()>)
        requires
            forall|req: TokenRequest| call_requires(fetch, (req,)),
        ensures
            (self.verifier is None ==> (r matches Err(e) && e is InvalidAuth)),
            (r is Ok ==> self.verifier is Some && exists|req: TokenRequest, resp: TokenResponse|
                spec_code_exchange_request(req, self.oauth, code@, self.verifier->0@)
                    && #[trigger] call_ensures(
                    fetch,
                    (req,),
                    Ok::<TokenResponse, ClientError>(resp),
                )),
            (self.verifier is Some ==> (r matches Err(e) ==> exists|req: TokenRequest|
                spec_code_exchange_request(req, self.oauth, code@, self.verifier->0@)
                    && #[trigger] call_ensures(
                    fetch,
                    (req,),
                    Err::<TokenResponse, ClientError>(e),
                ))),
    {
        let verifier = match &self.verifier {
            Some(v) => v,
            None => {
                return Err(
                    ClientError::InvalidAuth(
                        String::from_str("no code verifier: generate the authorize URL first"),
                    ),
                );
            },
        };
        let headers = token_request_headers(&AuthFlowKind::AuthorizationCodePkce, &self.creds);
        let form = request_token_form_pkce(&self.oauth, code, verifier.as_str());
        let req = TokenRequest { url: TOKEN_URL.to_owned(), headers, form };
        let ghost greq = req;
        match fetch(req) {
            Ok(resp) => {
                let ghost gresp = resp;
                let fresh = token_from_response(resp, now, None);
                self.token.replace(Some(fresh));
                proof {
                    assert(call_ensures(fetch, (greq,), Ok::<TokenResponse, ClientError>(gresp)));
                }
                Ok(())
            },
            Err(e) => {
                let ghost ge = e;
                proof {
                    assert(call_ensures(fetch, (greq,), Err::<TokenResponse, ClientError>(ge)));
                }
                Err(e)
            },
        }
    }

    /// Exchanges a refresh token for a fresh token through the transport,
    /// without storing it. The reply may omit a rotated refresh token; the
    /// one just exchanged is then re-attached, so the returned token can
    /// always be refreshed again. Every failure is the transport's own, for
    /// the stated refresh request.
    pub fn refetch_token<F: Fn(TokenRequest) -> Result<TokenResponse, ClientError>>(
        &self,
        refresh_token: &str,
        now: i64,
        fetch: F,
    ) -> (r: ClientResult<Token>)
        requires
            forall|req: TokenRequest| call_requires(fetch, (req,)),
        ensures
            (r matches Ok(t) ==> exists|req: TokenRequest, resp: TokenResponse|
                {
                    &&& spec_refresh_request(req, refresh_token@)
                    &&& #[trigger] call_ensures(
                        fetch,
                        (req,),
                        Ok::<TokenResponse, ClientError>(resp),
                    )
                    &&& spec_refreshed_view(t@, resp, now as int, refresh_token@)
                }),
            (r matches Err(e) ==> exists|req: TokenRequest|
                spec_refresh_request(req, refresh_token@) && #[trigger] call_ensures(
                    fetch,
                    (req,),
                    Err::<TokenResponse, ClientError>(e),
                )),
    {
        let headers = token_request_headers(&AuthFlowKind::AuthorizationCodePkce, &self.creds);
        let form = refresh_token_form(refresh_token);
        let req = TokenRequest { url: TOKEN_URL.to_owned(), headers, form };
        let ghost greq = req;
        match fetch(req) {
            Ok(resp) => {
                let ghost gresp = resp;
                let fresh = token_from_response(resp, now, Some(refresh_token.to_owned()));
                proof {
                    assert(call_ensures(fetch, (greq,), Ok::<TokenResponse, ClientError>(gresp)));
                }
                Ok(fresh)
            },
            Err(e) => {
                let ghost ge = e;
                proof {
                    assert(call_ensures(fetch, (greq,), Err::<TokenResponse, ClientError>(ge)));
                }
                Err(e)
            },
        }
    }

    /// Exchanges a refresh token and stores the result wholesale; every
    /// failure is the transport's own, for the stated refresh request.
    pub fn refresh_token<F: Fn(TokenRequest) -> Result<TokenResponse, ClientError>>(
        &self,
        refresh_token: &str,
        now: i64,
        fetch: F,
    ) -> (r: ClientResult<()>)
        requires
            forall|req: TokenRequest| call_requires(fetch, (req,)),
        ensures
            (r is Ok ==> exists|req: TokenRequest, resp: TokenResponse|
                spec_refresh_request(req, refresh_token@) && #[trigger] call_ensures(
                    fetch,
                    (req,),
                    Ok::<TokenResponse, ClientError>(resp),
                )),
            (r matches Err(e) ==> exists|req: TokenRequest|
                spec_refresh_request(req, refresh_token@) && #[trigger] call_ensures(
                    fetch,
                    (req,),
                    Err::<TokenResponse, ClientError>(e),
                )),
    {
        let fresh = self.refetch_token(refresh_token, now, fetch)?;
        self.token.replace(Some(fresh));
        Ok(())
    }

    /// The coordinated pass run before every authenticated request: under
    /// the store's exclusive lock, held from the expiry check through the
    /// store update, it runs [`reauth_step`] on the stored token and stores
    /// the step's result wholesale. Returns the token in effect when the
    /// lock was released; every failure is the transport's own, for a
    /// refresh request.
    pub fn get_token<F: Fn(TokenRequest) -> Result<TokenResponse, ClientError>>(
        &self,
        now: i64,
        fetch: F,
    ) -> (r: ClientResult<Option<Token>>)
        requires
            forall|req: TokenRequest| call_requires(fetch, (req,)),
        ensures
            (r matches Ok(out) ==> exists|pre: Option<TokenView>|
                #[trigger] spec_reauth_outcome(
                    fetch,
                    self.config.token_refreshing,
                    pre,
                    now as int,
                    spec_opt_view(out),
                )),
            (r matches Err(e) ==> exists|req: TokenRequest, rt: Seq<char>|
                #[trigger] spec_refresh_request(req, rt) && call_ensures(
                    fetch,
                    (req,),
                    Err::<TokenResponse, ClientError>(e),
                )),
            (!self.config.token_refreshing ==> r is Ok),
    {
        let (current, handle) = self.token.begin();
        let ghost gpre = current;
        let (next, failure) = reauth_step(self.config.token_refreshing, current, now, fetch);
        let out = clone_opt_token(&next);
        TokenStore::finish(handle, next);
        match failure {
            None => {
                proof {
                    assert(spec_reauth_outcome(
                        fetch,
                        self.config.token_refreshing,
                        spec_opt_view(gpre),
                        now as int,
                        spec_opt_view(out),
                    ));
                }
                Ok(out)
            },
            Some(e) => Err(e),
        }
    }

    /// The coordinated pass alone, discarding the token; see
    /// [`Self::get_token`].
    pub fn auto_reauth<F: Fn(TokenRequest) -> Result<TokenResponse, ClientError>>(
        &self,
        now: i64,
        fetch: F,
    ) -> (r: ClientResult<()>)
        requires
            forall|req: TokenRequest| call_requires(fetch, (req,)),
        ensures
            (r is Ok ==> exists|pre: Option<TokenView>, out: Option<TokenView>|
                #[trigger] spec_reauth_outcome(
                    fetch,
                    self.config.token_refreshing,
                    pre,
                    now as int,
                    out,
                )),
            (r matches Err(e) ==> exists|req: TokenRequest, rt: Seq<char>|
                #[trigger] spec_refresh_request(req, rt) && call_ensures(
                    fetch,
                    (req,),
                    Err::<TokenResponse, ClientError>(e),
                )),
            (!self.config.token_refreshing ==> r is Ok),
    {
        match self.get_token(now, fetch) {
            Ok(_) => Ok(()),
            Err(e) => Err(e),
        }
    }
}

/// One coordinated step on an observed slot value `pre`, at instant `now`:
/// it decides per [`spec_reauth_decision`] and performs at most one refresh
/// exchange through `fetch`. The first component is the slot's next value:
/// `pre` itself, unchanged, when no refresh is due or the exchange failed,
/// and the wholesale replacement built from the reply when it succeeded.
/// The second component is the transport's error, if any. The locked shell
/// around this step is [`AuthCodePkceSpotify::get_token`]; the step itself
/// carries the coordinator's exact contract.
pub fn reauth_step<F: Fn(TokenRequest) -> Result<TokenResponse, ClientError>>(
    token_refreshing: bool,
    pre: Option<Token>,
    now: i64,
    fetch: F,
) -> (r: (Option<Token>, Option<ClientError>))
    requires
        forall|req: TokenRequest| call_requires(fetch, (req,)),
    ensures
        (spec_reauth_decision(token_refreshing, spec_opt_view(pre), now as int) is None ==> r.0
            == pre && r.1 is None),
        (match r.1 {
            None => spec_reauth_outcome(
                fetch,
                token_refreshing,
                spec_opt_view(pre),
                now as int,
                spec_opt_view(r.0),
            ),
            Some(e) => {
                &&& r.0 == pre
                &&& spec_reauth_decision(token_refreshing, spec_opt_view(pre), now as int)
                    matches Some(rt) && exists|req: TokenRequest|
                    #[trigger] spec_refresh_request(req, rt) && call_ensures(
                        fetch,
                        (req,),
                        Err::<TokenResponse, ClientError>(e),
                    )
            },
        }),
{
    let decision = reauth_decision(token_refreshing, &pre, now);
    match decision {
        None => (pre, None),
        Some(rt) => {
            let headers: Vec<(String, String)> = Vec::new();
            proof {
                assert(form_view(headers@) =~= Seq::<(Seq<char>, Seq<char>)>::empty());
            }
            let form = refresh_token_form(rt.as_str());
            let req = TokenRequest { url: TOKEN_URL.to_owned(), headers, form };
            let ghost greq = req;
            match fetch(req) {
                Ok(resp) => {
                    let ghost gresp = resp;
                    let fresh = token_from_response(resp, now, Some(rt));
                    proof {
                        assert(call_ensures(
                            fetch,
                            (greq,),
                            Ok::<TokenResponse, ClientError>(gresp),
                        ));
                        assert(spec_reauth_outcome(
                            fetch,
                            token_refreshing,
                            spec_opt_view(pre),
                            now as int,
                            spec_opt_view(Some(fresh)),
                        ));
                    }
                    (Some(fresh), None)
                },
                Err(e) => {
                    let ghost ge = e;
                    proof {
                        assert(call_ensures(
                            fetch,
                            (greq,),
                            Err::<TokenResponse, ClientError>(ge),
                        ));
                    }
                    (pre, Some(e))
                },
            }
        },
    }
}

/// Whether `p` is a `key=value` pair for `key`.
pub open spec fn spec_is_kv(p: Seq<char>, key: Seq<char>) -> bool {
    p.len() >= key.len() + 1 && p.subrange(0, key.len() as int) == key && p[key.len() as int]
        == '='
}

/// The value of the first `key=value` pair among `pairs`, if any.
pub open spec fn spec_lookup(pairs: Seq<Seq<char>>, key: Seq<char>) -> Option<Seq<char>>
    decreases pairs.len(),
{
    if pairs.len() == 0 {
        None
    } else if spec_is_kv(pairs[0], key) {
        Some(pairs[0].subrange(key.len() as int + 1, pairs[0].len() as int))
    } else {
        spec_lookup(pairs.drop_first(), key)
    }
}

/// The query pairs of a callback URL: everything between the first `?` and
/// the fragment, split on `&`. `None` when there is no query.
pub open spec fn spec_callback_pairs(url: Seq<char>) -> Option<Seq<Seq<char>>> {
    let cut = url.subrange(0, spec_find(url, '#'));
    let q = spec_find(cut, '?');
    if q == cut.len() {
        None
    } else {
        Some(spec_split(cut.subrange(q + 1, cut.len() as int), '&'))
    }
}

/// The code accepted from a callback URL: present exactly when the URL has
/// a query with a `code` parameter and a `state` parameter equal to the
/// expected anti-forgery state.
pub open spec fn spec_response_code(url: Seq<char>, expected_state: Seq<char>) -> Option<
    Seq<char>,
> {
    match spec_callback_pairs(url) {
        None => None,
        Some(pairs) => match (spec_lookup(pairs, "code"@), spec_lookup(pairs, "state"@)) {
            (Some(code), Some(st)) => if st == expected_state {
                Some(code)
            } else {
                None
            },
            _ => None,
        },
    }
}

/// An anti-forgery mismatch is a failure, never a parsed code: whenever the
/// callback's `state` parameter is absent or differs from the expected
/// state, no code is accepted.
pub proof fn lemma_state_mismatch_rejected(url: Seq<char>, expected_state: Seq<char>)
    requires
        (match spec_callback_pairs(url) {
            None => true,
            Some(pairs) => spec_lookup(pairs, "state"@) != Some(expected_state),
        }),
    ensures
        spec_response_code(url, expected_state) is None,
{
}

/// The value of the first `key=value` pair among `pairs`, per
/// [`spec_lookup`].
fn lookup_param(pairs: &Vec<String>, key: &str) -> (r: Option<String>)
    ensures
        (match (r, spec_lookup(pairs.deep_view(), key@)) {
            (Some(v), Some(sv)) => v@ == sv,
            (None, None) => true,
            _ => false,
        }),
{
    let mut i: usize = 0;
    proof {
        assert(pairs.deep_view().skip(0) =~= pairs.deep_view());
    }
    while i < pairs.len()
        invariant
            0 <= i <= pairs.len(),
            spec_lookup(pairs.deep_view(), key@) == spec_lookup(
                pairs.deep_view().skip(i as int),
                key@,
            ),
        decreases pairs.len() - i,
    {
        let p = &pairs[i];
        let plen = p.as_str().unicode_len();
        let klen = key.unicode_len();
        proof {
            let tail = pairs.deep_view().skip(i as int);
            assert(tail[0] == pairs.deep_view()[i as int]);
            assert(tail.drop_first() =~= pairs.deep_view().skip(i + 1));
        }
        if let Some(e) = eat_lit(p.as_str(), 0, key) {
            if e < plen && p.as_str().get_char(e) == '=' {
                proof {
                    assert(spec_is_kv(p@, key@));
                }
                return Some(p.as_str().substring_char(klen + 1, plen).to_owned());
            }
        }
        proof {
            assert(!spec_is_kv(pairs.deep_view()[i as int], key@)) by {
                if spec_is_kv(p@, key@) {
                    assert(spec_has_at(p@, 0, key@));
                }
            }
        }
        i += 1;
    }
    proof {
        assert(pairs.deep_view().skip(pairs.len() as int) =~= Seq::<Seq<char>>::empty());
    }
    None
}

impl AuthCodePkceSpotify {
    /// Parses the code out of the URL where the authorization redirect
    /// landed, per [`spec_response_code`]: the `state` parameter must equal
    /// this client's anti-forgery state, or nothing is accepted.
    pub fn parse_response_code(&self, url: &str) -> (r: Option<String>)
        ensures
            (match (r, spec_response_code(url@, self.oauth.state@)) {
                (Some(c), Some(sc)) => c@ == sc,
                (None, None) => true,
                _ => false,
            }),
    {
        proof {
            assert(url@.subrange(0, url@.len() as int) =~= url@);
        }
        let hash = find_char(url, 0, '#');
        let cut = url.substring_char(0, hash);
        proof {
            assert(cut@ == url@.subrange(0, spec_find(url@, '#')));
            assert(cut@.subrange(0, cut@.len() as int) =~= cut@);
        }
        let cutlen = cut.unicode_len();
        let q = find_char(cut, 0, '?');
        if q == cutlen {
            return None;
        }
        let query = cut.substring_char(q + 1, cutlen);
        let pairs = split_str(query, '&');
        let code = lookup_param(&pairs, "code");
        let state = lookup_param(&pairs, "state");
        match (code, state) {
            (Some(c), Some(st)) => {
                if st == self.oauth.state {
                    Some(c)
                } else {
                    None
                }
            },
            _ => None,
        }
    }

    /// Appends a device id to an endpoint path, after `?` when the path has
    /// no query yet and after `&` when it has one.
    pub fn append_device_id(&self, path: &str, device_id: Option<&str>) -> (r: String)
        ensures
            r@ == spec_append_device_id(
                path@,
                (match device_id {
                    Some(d) => Some(d@),
                    None => None,
                }),
            ),
    {
        let mut out = path.to_owned();
        if let Some(d) = device_id {
            proof {
                reveal_strlit("?device_id=");
                reveal_strlit("&device_id=");
                assert(path@.subrange(0, path@.len() as int) =~= path@);
            }
            let q = find_char(path, 0, '?');
            if q < path.unicode_len() {
                out.append("&device_id=");
            } else {
                out.append("?device_id=");
            }
            out.append(d);
            proof {
                assert(out@ =~= spec_append_device_id(path@, Some(d@)));
            }
        }
        out
    }
}

/// A path with a device id appended: after `&` when the path already has a
/// query, after `?` otherwise; a path without a device id stands unchanged.
pub open spec fn spec_append_device_id(path: Seq<char>, device_id: Option<Seq<char>>) -> Seq<
    char,
> {
    match device_id {
        None => path,
        Some(d) => if spec_find(path, '?') < path.len() {
            path + "&device_id="@ + d
        } else {
            path + "?device_id="@ + d
        },
    }
}

/// The coordinator's decision on the stored value, per
/// [`spec_reauth_decision`]: the refresh token to exchange, if a refresh is
/// due.
fn reauth_decision(token_refreshing: bool, t: &Option<Token>, now: i64) -> (r: Option<String>)
    ensures
        (match spec_reauth_decision(token_refreshing, spec_opt_view(*t), now as int) {
            Some(rt) => r matches Some(x) && x@ == rt,
            None => r is None,
        }),
{
    match t {
        None => None,
        Some(tok) => {
            if token_refreshing && tok.is_expired_at(now) && tok.can_reauth() {
                match &tok.refresh_token {
                    Some(x) => Some(x.clone()),
                    None => None,
                }
            } else {
                None
            }
        },
    }
}

} // verus!

