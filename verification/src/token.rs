//! The credential value object: an access token with its expiry, optional
//! refresh token and granted scopes, together with the builder used for
//! best-effort cache loading and the refresh-response handling.
use vstd::prelude::*;
use vstd::string::StrSliceExecFns;
use vstd::string::StringExecFns;

use crate::ClientError;
use crate::ClientResult;
use crate::clock::MAX_CACHED_INSTANT;
use crate::clock::MIN_CACHED_INSTANT;
use crate::clock::now_ts;

verus! {

/// The mathematical shape of a [`Token`]: instants as integers, strings as
/// character sequences.
#[verifier::ext_equal]
pub struct TokenView {
    pub access_token: Seq<char>,
    pub expires_in: int,
    pub expires_at: Option<int>,
    pub refresh_token: Option<Seq<char>>,
    pub scope: Seq<Seq<char>>,
}

/// An access token as granted by the token endpoint.
pub struct Token {
    /// The opaque bearer credential provided in subsequent calls.
    pub access_token: String,
    /// The validity window in seconds, as reported by the server.
    pub expires_in: i64,
    /// The absolute expiry instant, in seconds since the Unix epoch; a token
    /// without one is treated as already expired, failing closed.
    pub expires_at: Option<i64>,
    /// The credential that can be sent in place of an authorization code;
    /// present only for the authorization-code family of flows.
    pub refresh_token: Option<String>,
    /// The granted scopes; order never matters.
    pub scope: Vec<String>,
}

impl View for Token {
    type V = TokenView;

    open spec fn view(&self) -> TokenView {
        TokenView {
            access_token: self.access_token@,
            expires_in: self.expires_in as int,
            expires_at: (match self.expires_at {
                Some(t) => Some(t as int),
                None => None,
            }),
            refresh_token: (match self.refresh_token {
                Some(ref r) => Some(r@),
                None => None,
            }),
            scope: self.scope.deep_view(),
        }
    }
}

/// Scope entries that survive the whitespace-joined wire and cache
/// rendering: non-empty, space-free and, as a set deserves, pairwise
/// distinct.
pub open spec fn spec_wf_scopes(ss: Seq<Seq<char>>) -> bool {
    &&& forall|i: int| 0 <= i < ss.len() ==> (#[trigger] ss[i]).len() >= 1
    &&& forall|i: int, j: int|
        0 <= i < ss.len() && 0 <= j < ss[i].len() ==> #[trigger] ss[i][j] != ' '
    &&& forall|i: int, j: int| 0 <= i < j < ss.len() ==> ss[i] != ss[j]
}

impl Token {
    /// A token the cache blob can carry: an expiry instant within the
    /// RFC 3339 rendering's range, and scope entries the space-joined scope
    /// string keeps apart. The strings themselves are unconstrained; the
    /// blob escapes them.
    pub open spec fn wf(self) -> bool {
        &&& (match self.expires_at {
            Some(t) => MIN_CACHED_INSTANT <= t <= MAX_CACHED_INSTANT,
            None => true,
        })
        &&& spec_wf_scopes(self.scope.deep_view())
    }

    /// Whether the token is stale at the instant `now`: an absent expiry
    /// counts as expired (fail-closed), a present one is expired once `now`
    /// is strictly past it.
    pub open spec fn spec_is_expired(self, now: int) -> bool {
        match self.expires_at {
            None => true,
            Some(t) => now > t,
        }
    }

    /// Expiry check against a caller-provided instant.
    pub fn is_expired_at(&self, now: i64) -> (r: bool)
        ensures
            r == self.spec_is_expired(now as int),
    {
        match self.expires_at {
            None => true,
            Some(t) => now > t,
        }
    }

    /// Expiry check against the current instant; a token without an expiry
    /// is always reported expired, whatever the clock reads.
    pub fn is_expired(&self) -> (r: bool)
        ensures
            self.expires_at is None ==> r,
    {
        let now = now_ts();
        self.is_expired_at(now)
    }

    /// Whether the token can be refreshed without re-running the full
    /// authorization flow: exactly when a refresh token is present.
    pub fn can_reauth(&self) -> (r: bool)
        ensures
            r == (self.refresh_token is Some),
    {
        self.refresh_token.is_some()
    }

    /// Runtime check for [`Token::wf`].
    pub fn is_wf(&self) -> (r: bool)
        ensures
            r == self.wf(),
    {
        match self.expires_at {
            Some(t) => {
                if t < MIN_CACHED_INSTANT || t > MAX_CACHED_INSTANT {
                    return false;
                }
            },
            None => {},
        }
        let mut i: usize = 0;
        while i < self.scope.len()
            invariant
                0 <= i <= self.scope.len(),
                forall|k: int| 0 <= k < i ==> (#[trigger] self.scope.deep_view()[k]).len() >= 1,
                forall|k: int, j: int|
                    0 <= k < i && 0 <= j < self.scope.deep_view()[k].len()
                        ==> #[trigger] self.scope.deep_view()[k][j] != ' ',
                forall|k: int, j: int|
                    0 <= k < j < i ==> self.scope.deep_view()[k] != self.scope.deep_view()[j],
            decreases self.scope.len() - i,
        {
            let piece = &self.scope[i];
            if piece.as_str().is_empty() {
                return false;
            }
            let plen = piece.as_str().unicode_len();
            let mut j: usize = 0;
            while j < plen
                invariant
                    0 <= j <= plen,
                    plen == piece@.len(),
                    piece@ == self.scope.deep_view()[i as int],
                    i < self.scope.len(),
                    forall|m: int| 0 <= m < j ==> #[trigger] piece@[m] != ' ',
                decreases plen - j,
            {
                if piece.as_str().get_char(j) == ' ' {
                    return false;
                }
                j += 1;
            }
            let mut k: usize = 0;
            while k < i
                invariant
                    0 <= k <= i < self.scope.len(),
                    piece@ == self.scope.deep_view()[i as int],
                    forall|m: int|
                        0 <= m < k ==> self.scope.deep_view()[m] != self.scope.deep_view()[i as int],
                decreases i - k,
            {
                if piece.eq(&self.scope[k]) {
                    proof {
                        assert(self.scope.deep_view()[k as int] == self.scope.deep_view()[i as int]);
                    }
                    return false;
                }
                k += 1;
            }
            i += 1;
        }
        true
    }
}

impl Clone for Token {
    /// A clone agrees with the original on every field.
    fn clone(&self) -> (r: Self)
        ensures
            r@ == self@,
            r.expires_in == self.expires_in,
            r.expires_at == self.expires_at,
    {
        let mut scope: Vec<String> = Vec::new();
        let mut i: usize = 0;
        while i < self.scope.len()
            invariant
                0 <= i <= self.scope.len(),
                scope.len() == i,
                forall|k: int| 0 <= k < i ==> scope@[k] == self.scope@[k],
            decreases self.scope.len() - i,
        {
            let piece = self.scope[i].clone();
            assert(piece == self.scope@[i as int]);
            scope.push(piece);
            i += 1;
        }
        proof {
            assert(scope@ =~= self.scope@);
            assert(scope.deep_view() =~= self.scope.deep_view());
        }
        let r = Token {
            access_token: self.access_token.clone(),
            expires_in: self.expires_in,
            expires_at: self.expires_at,
            refresh_token: (match self.refresh_token {
                Some(ref t) => Some(t.clone()),
                None => None,
            }),
            scope,
        };
        proof {
            assert(r@ =~= self@);
        }
        r
    }
}

/// The plain values carried by a successful token-endpoint reply: the
/// transport hands these to the library, which decides everything else.
pub struct TokenResponse {
    pub access_token: String,
    pub expires_in: i64,
    pub refresh_token: Option<String>,
    pub scope: Vec<String>,
}

/// `now + delta` clamped into `i64`.
pub open spec fn spec_expiry(now: int, delta: int) -> int {
    if now + delta > i64::MAX {
        i64::MAX as int
    } else if now + delta < i64::MIN {
        i64::MIN as int
    } else {
        now + delta
    }
}

/// Builds the token stored after an exchange at instant `now`. The reply may
/// omit the refresh token (servers need not rotate it); the caller's previous
/// one is then re-attached so later refreshes stay possible.
pub fn token_from_response(resp: TokenResponse, now: i64, fallback_refresh: Option<String>) -> (r:
    Token)
    ensures
        r.access_token@ == resp.access_token@,
        r.expires_in == resp.expires_in,
        r.expires_at == Some(spec_expiry(now as int, resp.expires_in as int) as i64),
        r@.refresh_token == (match (resp.refresh_token, fallback_refresh) {
            (Some(t), _) => Some(t@),
            (None, Some(t)) => Some(t@),
            (None, None) => None::<Seq<char>>,
        }),
        r@.scope == resp.scope.deep_view(),
{
    let expires_at = match now.checked_add(resp.expires_in) {
        Some(v) => v,
        None => {
            if resp.expires_in >= 0 {
                i64::MAX
            } else {
                i64::MIN
            }
        },
    };
    let refresh_token = match resp.refresh_token {
        Some(t) => Some(t),
        None => fallback_refresh,
    };
    Token {
        access_token: resp.access_token,
        expires_in: resp.expires_in,
        expires_at: Some(expires_at),
        refresh_token,
        scope: resp.scope,
    }
}

/// Partial token state gathered from the cache; every field is optional and
/// missing ones fall back to defaults when the token is built.
pub struct TokenBuilder {
    pub access_token: Option<String>,
    pub expires_in: Option<i64>,
    pub expires_at: Option<Option<i64>>,
    pub refresh_token: Option<Option<String>>,
    pub scope: Option<Vec<String>>,
}

impl Default for TokenBuilder {
    /// The empty builder state: nothing recorded.
    fn default() -> (r: Self)
        ensures
            r.access_token is None,
            r.expires_in is None,
            r.expires_at is None,
            r.refresh_token is None,
            r.scope is None,
    {
        TokenBuilder {
            access_token: None,
            expires_in: None,
            expires_at: None,
            refresh_token: None,
            scope: None,
        }
    }
}

impl TokenBuilder {
    /// Validating constructor: fails exactly when no access token was
    /// recorded; a missing validity window defaults to zero seconds and a
    /// missing expiry defaults to the current instant, both fail-closed.
    pub fn build(self) -> (r: ClientResult<Token>)
        ensures
            r is Ok <==> self.access_token is Some,
            (r matches Err(e) ==> e is InvalidAuth),
            (r matches Ok(t) ==> {
                &&& t.access_token@ == self.access_token->0@
                &&& t.expires_in == (match self.expires_in {
                    Some(e) => e,
                    None => 0,
                })
                &&& (self.expires_at matches Some(a) ==> t.expires_at == a)
                &&& (self.expires_at is None ==> t.expires_at is Some)
                &&& t.refresh_token == (match self.refresh_token {
                    Some(rt) => rt,
                    None => None::<String>,
                })
                &&& t@.scope == (match self.scope {
                    Some(s) => s.deep_view(),
                    None => Seq::<Seq<char>>::empty(),
                })
            }),
    {
        let access_token = match self.access_token {
            Some(a) => a,
            None => {
                return Err(
                    ClientError::InvalidAuth(String::from_str("no access token to build from")),
                );
            },
        };
        let expires_at = match self.expires_at {
            Some(a) => a,
            None => Some(now_ts()),
        };
        let scope = match self.scope {
            Some(s) => s,
            None => {
                let v: Vec<String> = Vec::new();
                proof {
                    assert(v.deep_view() =~= Seq::<Seq<char>>::empty());
                }
                v
            },
        };
        Ok(
            Token {
                access_token,
                expires_in: (match self.expires_in {
                    Some(e) => e,
                    None => 0,
                }),
                expires_at,
                refresh_token: (match self.refresh_token {
                    Some(rt) => rt,
                    None => None,
                }),
                scope,
            },
        )
    }
}

} // verus!
