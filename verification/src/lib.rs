//! OAuth 2.0 token lifecycle management for the Spotify Web API: acquiring,
//! caching, validating and refreshing bearer tokens across the authorization
//! flows, so that callers never handle expiry themselves.
use vstd::prelude::*;
use vstd::string::StrSliceExecFns;
use vstd::string::StringExecFns;

pub mod auth_code_pkce;
pub mod cache;
pub mod client_creds;
pub mod clock;
pub mod forms;
pub mod pkce;
pub mod store;
pub mod text;
pub mod token;

verus! {

/// Possible errors returned from the client.
#[derive(Debug, Clone, PartialEq, Eq)]
pub enum ClientError {
    /// The authentication isn't configured properly.
    InvalidAuth(String),
    /// Malformed JSON, from the server or from the cache file.
    ParseJson(String),
    /// The URL could not be parsed or built.
    ParseUrl(String),
    /// Opaque passthrough from the HTTP transport collaborator.
    Http(String),
    /// Input/output failure while touching the cache file.
    Io(String),
    /// Domain-specific cache file failure, e.g. an unserializable token.
    CacheFile(String),
}

pub type ClientResult<T> = Result<T, ClientError>;

/// The default API prefix.
pub const DEFAULT_API_PREFIX: &'static str = "https://api.spotify.com/v1/";

/// The default cache file path, a dotfile in the working directory.
pub const DEFAULT_CACHE_PATH: &'static str = ".spotify_token_cache.json";

/// The default pagination chunk size.
pub const DEFAULT_PAGINATION_CHUNKS: u32 = 50;

/// Configuration of a client.
pub struct Config {
    /// The API prefix, [`DEFAULT_API_PREFIX`] by default.
    pub prefix: String,
    /// The cache file path, [`DEFAULT_CACHE_PATH`] by default.
    pub cache_path: String,
    /// How many items each automatically paginated request asks for.
    pub pagination_chunks: u32,
    /// Whether an expired, refreshable token is refreshed automatically
    /// before a request; enabled by default.
    pub token_refreshing: bool,
}

impl Default for Config {
    /// The default configuration: default prefix and cache path, chunks of
    /// [`DEFAULT_PAGINATION_CHUNKS`], token refreshing enabled.
    fn default() -> (r: Self)
        ensures
            r.prefix@ == DEFAULT_API_PREFIX@,
            r.cache_path@ == DEFAULT_CACHE_PATH@,
            r.pagination_chunks == DEFAULT_PAGINATION_CHUNKS,
            r.token_refreshing,
    {
        Config {
            prefix: DEFAULT_API_PREFIX.to_owned(),
            cache_path: DEFAULT_CACHE_PATH.to_owned(),
            pagination_chunks: DEFAULT_PAGINATION_CHUNKS,
            token_refreshing: true,
        }
    }
}

/// Relies on getrandom's `getrandom`: fills a buffer with random bytes;
/// nothing can be promised of their values, only of the count.
#[verifier::external_body]
fn random_bytes(len: usize) -> (r: Result<Vec<u8>, ClientError>)
    ensures
        (r matches Ok(b) ==> b@.len() == len),
        (r matches Err(e) ==> e is Io),
{
    let mut buf = vec![0u8; len];
    match getrandom::getrandom(&mut buf) {
        Ok(()) => Ok(buf),
        Err(e) => Err(ClientError::Io(format!("{}", e))),
    }
}

/// The 62-character alphabet random strings draw from.
pub open spec fn spec_alphabet() -> Seq<char> {
    "abcdefghijklmnopqrstuvwxyzABCDEFGHIJKLMNOPQRSTUVWXYZ0123456789"@
}

/// An ASCII letter or digit.
pub open spec fn spec_is_alphanumeric(c: char) -> bool {
    ||| 97 <= (c as u32) <= 122
    ||| 65 <= (c as u32) <= 90
    ||| 48 <= (c as u32) <= 57
}

/// The alphabet holds 62 characters, every one a letter or a digit.
pub proof fn lemma_alphabet_alphanumeric()
    ensures
        spec_alphabet().len() == 62,
        forall|k: int| 0 <= k < 62 ==> spec_is_alphanumeric(#[trigger] spec_alphabet()[k]),
{
    reveal_strlit("abcdefghijklmnopqrstuvwxyzABCDEFGHIJKLMNOPQRSTUVWXYZ0123456789");
}

/// Maps each byte to an alphabet character by its residue; the verified
/// half of random-string generation, so that what depends on the drawn
/// bytes is exactly pinned for every value of them.
pub fn alphanumeric_string_from(bytes: &Vec<u8>) -> (r: String)
    ensures
        r@.len() == bytes@.len(),
        forall|i: int|
            0 <= i < r@.len() ==> r@[i] == spec_alphabet()[(bytes@[i] % 62) as int],
        forall|i: int| 0 <= i < r@.len() ==> spec_is_alphanumeric(#[trigger] r@[i]),
{
    let alphabet = "abcdefghijklmnopqrstuvwxyzABCDEFGHIJKLMNOPQRSTUVWXYZ0123456789";
    proof {
        lemma_alphabet_alphanumeric();
    }
    let mut s = String::new();
    let mut i: usize = 0;
    while i < bytes.len()
        invariant
            0 <= i <= bytes.len(),
            alphabet@ == spec_alphabet(),
            alphabet@.len() == 62,
            s@.len() == i,
            forall|j: int| 0 <= j < i ==> s@[j] == spec_alphabet()[(bytes@[j] % 62) as int],
        decreases bytes.len() - i,
    {
        let k = (bytes[i] % 62) as usize;
        let ch = alphabet.substring_char(k, k + 1);
        s.append(ch);
        i += 1;
    }
    proof {
        assert forall|i: int| 0 <= i < s@.len() implies spec_is_alphanumeric(
            #[trigger] s@[i],
        ) by {
            assert(s@[i] == spec_alphabet()[(bytes@[i] % 62) as int]);
        }
    }
    s
}

/// Generates `length` random characters of the 62-character alphanumeric
/// alphabet; fails, with an I/O error, only when the system's randomness
/// source does.
pub fn generate_random_string(length: usize) -> (r: ClientResult<String>)
    ensures
        (r matches Ok(s) ==> s@.len() == length && forall|i: int|
            0 <= i < s@.len() ==> spec_is_alphanumeric(#[trigger] s@[i])),
        (r matches Err(e) ==> e is Io),
{
    let bytes = random_bytes(length)?;
    Ok(alphanumeric_string_from(&bytes))
}

/// Client credentials: the application's identity at the token endpoint.
/// Immutable after construction and never written to the cache.
pub struct Credentials {
    pub id: String,
    pub secret: String,
}

/// Partial credentials, as gathered from the environment.
pub struct CredentialsBuilder {
    pub id: Option<String>,
    pub secret: Option<String>,
}

impl Default for CredentialsBuilder {
    /// The empty builder state.
    fn default() -> (r: Self)
        ensures
            r.id is None,
            r.secret is None,
    {
        CredentialsBuilder { id: None, secret: None }
    }
}

impl CredentialsBuilder {
    /// Validating constructor: fails exactly when the id or the secret is
    /// missing.
    pub fn build(self) -> (r: ClientResult<Credentials>)
        ensures
            r is Ok <==> (self.id is Some && self.secret is Some),
            (r matches Ok(c) ==> c.id@ == self.id->0@ && c.secret@ == self.secret->0@),
            (r matches Err(e) ==> e is InvalidAuth),
    {
        match (self.id, self.secret) {
            (Some(id), Some(secret)) => Ok(Credentials { id, secret }),
            _ => Err(
                ClientError::InvalidAuth(String::from_str("client id or secret is missing")),
            ),
        }
    }
}

/// The OAuth parameters of the user-authorized flows: where the callback
/// lands, the anti-forgery state, and the requested scopes. Immutable after
/// construction.
pub struct OAuth {
    pub redirect_uri: String,
    /// Compared against the `state` of the redirect callback before a code
    /// is accepted; generated randomly when not supplied.
    pub state: String,
    pub scope: Vec<String>,
    pub proxies: Option<String>,
}

/// Partial OAuth parameters.
pub struct OAuthBuilder {
    pub redirect_uri: Option<String>,
    pub state: Option<String>,
    pub scope: Option<Vec<String>>,
    pub proxies: Option<Option<String>>,
}

impl Default for OAuthBuilder {
    /// The empty builder state.
    fn default() -> (r: Self)
        ensures
            r.redirect_uri is None,
            r.state is None,
            r.scope is None,
            r.proxies is None,
    {
        OAuthBuilder { redirect_uri: None, state: None, scope: None, proxies: None }
    }
}

impl OAuthBuilder {
    /// Validating constructor: fails when the redirect URI is missing, or
    /// when no state was supplied and the randomness source fails while one
    /// is generated; the generated state has 16 characters.
    pub fn build(self) -> (r: ClientResult<OAuth>)
        ensures
            (self.redirect_uri is None ==> (r matches Err(e) && e is InvalidAuth)),
            (self.redirect_uri is Some && self.state is Some ==> r is Ok),
            (r matches Ok(o) ==> {
                &&& o.redirect_uri@ == self.redirect_uri->0@
                &&& (self.state matches Some(st) ==> o.state@ == st@)
                &&& (self.state is None ==> o.state@.len() == 16)
                &&& o.scope.deep_view() == (match self.scope {
                    Some(sc) => sc.deep_view(),
                    None => Seq::<Seq<char>>::empty(),
                })
                &&& o.proxies == (match self.proxies {
                    Some(p) => p,
                    None => None::<String>,
                })
            }),
    {
        let redirect_uri = match self.redirect_uri {
            Some(u) => u,
            None => {
                return Err(ClientError::InvalidAuth(String::from_str("no redirect URI")));
            },
        };
        let state = match self.state {
            Some(st) => st,
            None => generate_random_string(16)?,
        };
        let scope = match self.scope {
            Some(sc) => sc,
            None => {
                let v: Vec<String> = Vec::new();
                proof {
                    assert(v.deep_view() =~= Seq::<Seq<char>>::empty());
                }
                v
            },
        };
        Ok(
            OAuth {
                redirect_uri,
                state,
                scope,
                proxies: (match self.proxies {
                    Some(p) => p,
                    None => None,
                }),
            },
        )
    }
}

} // verus!
