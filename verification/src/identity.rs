//! Who is making a request.
//!
//! Resolving a request's identity yields an `Identity` that keeps every
//! outcome apart: a session, no session cookie at all, or the reason the
//! cookie could not be turned into a session. How severe a missing identity
//! is, the caller decides: `optional` for an endpoint that merely wants one,
//! `required` for an endpoint that cannot go on without.

use vstd::prelude::*;
use crate::cache::{CacheReply, CacheRequest, CacheState, RequestView, SessionCache};
use crate::cookies::{token_in, Cookies};
use crate::record::Session;
use crate::session::{
    cache_key, finish_lookup, get_in, lookup_outcome, lookup_request, SessionError, SessionToken,
};

verus! {

/// The outcome of resolving a request's identity.
#[derive(Debug, Clone, Copy, PartialEq, Eq, Structural)]
pub enum Identity {
    /// The request carries a token for this live session.
    Authenticated(Session),
    /// The request carries no session cookie.
    Unauthenticated,
    /// The request carries a session cookie that gave no session.
    Failed(SessionError),
}

/// The failure of an endpoint that needs an identity and got none. It does
/// not say why, so that nothing about the cause reaches the client.
#[derive(Debug, Clone, Copy, PartialEq, Eq, Structural)]
pub struct AuthenticationRequired;

/// What resolving an identity does first.
#[derive(Debug, Clone, PartialEq, Eq)]
pub enum IdentityStep {
    /// The identity is known without asking the cache.
    Done(Identity),
    /// The cache must be asked for the session's entry.
    Ask(CacheRequest),
}

/// The identity that a lookup's outcome stands for.
pub open spec fn identity_of(outcome: Result<Session, SessionError>) -> Identity {
    match outcome {
        Ok(session) => Identity::Authenticated(session),
        Err(e) => Identity::Failed(e),
    }
}

/// The identity of a request with the cookies `cookies`, resolved in the
/// cache `c`.
pub open spec fn identity_in(cookies: Map<Seq<char>, Seq<char>>, c: CacheState) -> Identity {
    match token_in(cookies) {
        Ok(Some(id)) => identity_of(get_in(c, id as int)),
        Ok(None) => Identity::Unauthenticated,
        Err(e) => Identity::Failed(e),
    }
}

impl Identity {
    /// The session, for a caller to whom a missing identity is no failure.
    pub open spec fn spec_optional(self) -> Option<Session> {
        match self {
            Identity::Authenticated(session) => Some(session),
            _ => None,
        }
    }

    /// The session, for a caller that cannot go on without one.
    pub open spec fn spec_required(self) -> Result<Session, AuthenticationRequired> {
        match self {
            Identity::Authenticated(session) => Ok(session),
            _ => Err(AuthenticationRequired),
        }
    }

    /// The session, for a caller to whom a missing identity is no failure:
    /// every outcome but `Authenticated` gives `None`.
    #[verifier::when_used_as_spec(spec_optional)]
    pub fn optional(self) -> (r: Option<Session>)
        ensures
            r == self.spec_optional(),
    {
        match self {
            Identity::Authenticated(session) => Some(session),
            _ => None,
        }
    }

    /// The session, for a caller that cannot go on without one: every outcome
    /// but `Authenticated` gives the same `AuthenticationRequired`.
    #[verifier::when_used_as_spec(spec_required)]
    pub fn required(self) -> (r: Result<Session, AuthenticationRequired>)
        ensures
            r == self.spec_required(),
    {
        match self {
            Identity::Authenticated(session) => Ok(session),
            _ => Err(AuthenticationRequired),
        }
    }
}

/// The first step of resolving an identity: reads the token from the cookies.
/// Without a session cookie the request is `Unauthenticated`, with an
/// unreadable one it has `Failed`; otherwise the cache is to be asked.
pub fn begin_identity(cookies: &Cookies) -> (step: IdentityStep)
    ensures
        match token_in(cookies@) {
            Ok(Some(id)) => step matches IdentityStep::Ask(request) && request@ == (
            RequestView::Get { key: cache_key(id as int) }),
            Ok(None) => step matches IdentityStep::Done(identity) && identity
                == Identity::Unauthenticated,
            Err(e) => step matches IdentityStep::Done(identity) && identity == Identity::Failed(e),
        },
{
    match SessionToken::from_request(cookies) {
        Ok(Some(token)) => IdentityStep::Ask(lookup_request(token)),
        Ok(None) => IdentityStep::Done(Identity::Unauthenticated),
        Err(e) => IdentityStep::Done(Identity::Failed(e)),
    }
}

/// The last step of resolving an identity: takes the cache's reply to the
/// request that `begin_identity` asked for.
pub fn finish_identity(reply: &CacheReply) -> (identity: Identity)
    ensures
        identity == identity_of(lookup_outcome(reply@)),
{
    match finish_lookup(reply) {
        Ok(session) => Identity::Authenticated(session),
        Err(e) => Identity::Failed(e),
    }
}

impl Session {
    /// Resolves the identity of a request from its cookies and the cache.
    pub fn from_request(cookies: &Cookies, cache: &SessionCache) -> (identity: Identity)
        ensures
            identity == identity_in(cookies@, cache@),
    {
        match SessionToken::from_request(cookies) {
            Ok(Some(token)) => match token.get(cache) {
                Ok(session) => Identity::Authenticated(session),
                Err(e) => Identity::Failed(e),
            },
            Ok(None) => Identity::Unauthenticated,
            Err(e) => Identity::Failed(e),
        }
    }
}

/// The session of a request, for an endpoint that merely wants one.
pub fn resolve_optional(cookies: &Cookies, cache: &SessionCache) -> (r: Option<Session>)
    ensures
        r == identity_in(cookies@, cache@).optional(),
{
    Session::from_request(cookies, cache).optional()
}

/// The session of a request, for an endpoint that cannot go on without one.
pub fn resolve_required(cookies: &Cookies, cache: &SessionCache) -> (r: Result<
    Session,
    AuthenticationRequired,
>)
    ensures
        r == identity_in(cookies@, cache@).required(),
{
    Session::from_request(cookies, cache).required()
}

} // verus!
