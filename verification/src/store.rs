//! The token store: a single slot holding the client's optional token,
//! guarded by a verified reader-writer lock. Many concurrent readers or one
//! exclusive writer, never both; the coordinator holds the write side from
//! its expiry check through the store update, so at most one refresh
//! exchange is in flight per client.
use vstd::prelude::*;
use vstd::rwlock::RwLock;
use vstd::rwlock::WriteHandle;

use crate::token::Token;

verus! {

/// The slot accepts every token value; what is stored is constrained by the
/// coordinator's contracts, not by the lock.
pub open spec fn any_token() -> spec_fn(Option<Token>) -> bool {
    |v: Option<Token>| true
}

/// A single-slot container of the client's token with read/write mutual
/// exclusion.
pub struct TokenStore {
    lock: RwLock<Option<Token>, spec_fn(Option<Token>) -> bool>,
}

/// Clones an optional token; the clone agrees with the original field by
/// field.
pub fn clone_opt_token(t: &Option<Token>) -> (r: Option<Token>)
    ensures
        spec_opt_view(r) == spec_opt_view(*t),
{
    match t {
        Some(tok) => Some(tok.clone()),
        None => None,
    }
}

/// The view of an optional token.
pub open spec fn spec_opt_view(t: Option<Token>) -> Option<crate::token::TokenView> {
    match t {
        Some(tok) => Some(tok@),
        None => None,
    }
}

impl TokenStore {
    #[verifier::type_invariant]
    spec fn wf(&self) -> bool {
        self.lock.pred() == any_token()
    }

    /// A store holding `t`.
    pub fn new(t: Option<Token>) -> TokenStore {
        TokenStore { lock: RwLock::new(t, Ghost(any_token())) }
    }

    /// A clone of the currently stored token, taken under a read lock. The
    /// lock exposes no specification view of its contents, so nothing can
    /// be promised of the value read; the coordinator's checkable contract
    /// lives in the step it runs under the write lock instead.
    pub fn read_token(&self) -> Option<Token> {
        let handle = self.lock.acquire_read();
        let r = clone_opt_token(handle.borrow());
        handle.release_read();
        r
    }

    /// Replaces the stored token wholesale, under the write lock; as with
    /// [`Self::read_token`], the lock's contents admit no specification
    /// clause here.
    pub fn replace(&self, t: Option<Token>) {
        proof {
            use_type_invariant(self);
        }
        let (_, handle) = self.lock.acquire_write();
        handle.release_write(t);
    }

    /// Takes the write lock, handing back the stored value and the handle;
    /// the caller holds exclusive access until it calls [`Self::finish`].
    pub(crate) fn begin(&self) -> (r: (
        Option<Token>,
        WriteHandle<'_, Option<Token>, spec_fn(Option<Token>) -> bool>,
    ))
        ensures
            forall|v: Option<Token>| (r.1.rwlock()).inv(v),
    {
        proof {
            use_type_invariant(self);
        }
        self.lock.acquire_write()
    }

    /// Releases the write lock, storing `t`.
    pub(crate) fn finish(
        handle: WriteHandle<'_, Option<Token>, spec_fn(Option<Token>) -> bool>,
        t: Option<Token>,
    )
        requires
            forall|v: Option<Token>| (handle.rwlock()).inv(v),
    {
        handle.release_write(t);
    }
}

} // verus!
