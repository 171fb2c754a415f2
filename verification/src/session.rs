//! The session manager: creating, looking up and renewing sessions.
//!
//! Each operation is built from steps. A step either names the request to put
//! to the cache or turns the cache's reply into the outcome; the steps hold
//! every decision and never touch a cache themselves. `Session::persist`,
//! `SessionToken::get` and `Session::extend` carry an operation out on a
//! `SessionCache`, and say over the cache's model what the steps amount to; a
//! caller with a remote store runs the same steps and carries out the requests
//! itself.

use vstd::prelude::*;
use vstd::string::*;
use crate::cache::{CacheReply, CacheRequest, CacheState, ReplyView, RequestView, SessionCache};
use crate::decimal::{
    decimal_text, format_i32, lemma_decimal_text_injective, parse_i32, parse_i32_text,
};
use crate::record::{decode, decode_text, encode, record_text, Session};

verus! {

/// How long a session lives after it was created or renewed: 750 seconds.
pub const SESSION_TTL_SECONDS: u64 = 15 * 50;

/// Why a session could not be created, found or renewed.
#[derive(Debug, Clone, Copy, PartialEq, Eq, Structural)]
pub enum SessionError {
    /// The client's token is not a session id.
    InvalidToken,
    /// The cache holds no live entry for the session.
    SessionNotFound,
    /// The cache holds an entry that is not a stored record.
    CorruptSession,
    /// The cache failed, or answered something other than what was asked.
    BackendError,
}

/// The name of the counter from which session ids are drawn: `session_id`.
pub open spec fn counter_key() -> Seq<char> {
    seq!['s', 'e', 's', 's', 'i', 'o', 'n', '_', 'i', 'd']
}

/// What every session's cache key begins with: `session_`.
pub open spec fn key_prefix() -> Seq<char> {
    seq!['s', 'e', 's', 's', 'i', 'o', 'n', '_']
}

/// The cache key of the session `id`: the prefix, then the id in decimal.
pub open spec fn cache_key(id: int) -> Seq<char> {
    key_prefix() + decimal_text(id)
}

/// The lifetime of a session as a number of seconds.
pub open spec fn session_ttl() -> nat {
    750
}

/// Different sessions have different cache keys.
pub proof fn lemma_cache_key_injective(a: int, b: int)
    requires
        cache_key(a) == cache_key(b),
    ensures
        a == b,
{
    let n = key_prefix().len() as int;
    assert(cache_key(a).subrange(n, cache_key(a).len() as int) =~= decimal_text(a));
    assert(cache_key(b).subrange(n, cache_key(b).len() as int) =~= decimal_text(b));
    lemma_decimal_text_injective(a, b);
}

/// The cache key of the session `session_id`.
pub fn get_redis_key(session_id: i32) -> (key: String)
    ensures
        key@ == cache_key(session_id as int),
{
    proof {
        reveal_strlit("session_");
    }
    let mut key = String::from_str("session_");
    assert(key@ =~= key_prefix());
    let id_text = format_i32(session_id);
    key.append(id_text.as_str());
    key
}

/// The name of the counter from which session ids are drawn.
pub fn counter_name() -> (name: String)
    ensures
        name@ == counter_key(),
{
    proof {
        reveal_strlit("session_id");
    }
    let name = String::from_str("session_id");
    assert(name@ =~= counter_key());
    name
}

/// A session id as the client presented it.
#[derive(Debug, Clone, Copy, PartialEq, Eq, Structural)]
pub struct SessionToken {
    id: i32,
}

/// What creating a session for `user_id` does next, given the reply to the
/// increment of the id counter: with a new counter value that is a 32-bit
/// integer, the session and the request that stores it; otherwise a failure.
pub open spec fn store_step(user_id: i32, reply: ReplyView) -> Result<
    (Session, RequestView),
    SessionError,
> {
    match reply {
        ReplyView::Counter(n) => if i32::MIN <= n <= i32::MAX {
            let session = Session { id: n as i32, user_id };
            Ok(
                (
                    session,
                    RequestView::SetWithExpiry {
                        key: cache_key(n),
                        value: record_text(session),
                        ttl_seconds: session_ttl(),
                    },
                ),
            )
        } else {
            Err(SessionError::BackendError)
        },
        _ => Err(SessionError::BackendError),
    }
}

/// How creating `session` ends, given the reply to the request that stores it.
pub open spec fn store_outcome(session: Session, reply: ReplyView) -> Result<
    Session,
    SessionError,
> {
    if reply is Stored {
        Ok(session)
    } else {
        Err(SessionError::BackendError)
    }
}

/// How a lookup ends, given the reply to the request for the session's entry.
pub open spec fn lookup_outcome(reply: ReplyView) -> Result<Session, SessionError> {
    match reply {
        ReplyView::Value(Some(text)) => match decode_text(text) {
            Some(session) => Ok(session),
            None => Err(SessionError::CorruptSession),
        },
        ReplyView::Value(None) => Err(SessionError::SessionNotFound),
        _ => Err(SessionError::BackendError),
    }
}

/// How a renewal ends, given the reply to the request that moves the deadline.
pub open spec fn renew_outcome(reply: ReplyView) -> Result<(), SessionError> {
    if reply is Refreshed {
        Ok(())
    } else {
        Err(SessionError::BackendError)
    }
}

/// Creating a session for `user_id` in the cache `c`: the outcome and the
/// cache afterwards.
pub open spec fn persist_in(c: CacheState, user_id: i32) -> (
    Result<Session, SessionError>,
    CacheState,
) {
    let (counted, c1) = c.perform(RequestView::Increment { key: counter_key() });
    match store_step(user_id, counted) {
        Ok((session, request)) => {
            let (stored, c2) = c1.perform(request);
            (store_outcome(session, stored), c2)
        },
        Err(e) => (Err(e), c1),
    }
}

/// Looking up the session `id` in the cache `c`.
pub open spec fn get_in(c: CacheState, id: int) -> Result<Session, SessionError> {
    lookup_outcome(c.perform(RequestView::Get { key: cache_key(id) }).0)
}

/// Looking up the session that the token text `token` names in the cache `c`.
pub open spec fn resolve_in(c: CacheState, token: Seq<char>) -> Result<Session, SessionError> {
    match parse_i32_text(token) {
        Some(id) => get_in(c, id as int),
        None => Err(SessionError::InvalidToken),
    }
}

/// Renewing the session `id` in the cache `c`: the outcome and the cache
/// afterwards.
pub open spec fn extend_in(c: CacheState, id: int) -> (Result<(), SessionError>, CacheState) {
    let (reply, c1) = c.perform(
        RequestView::RefreshExpiry { key: cache_key(id), ttl_seconds: session_ttl() },
    );
    (renew_outcome(reply), c1)
}

/// Logging in with the session `existing` already attached, or with none: an
/// attached session is returned as it is and the cache is left alone;
/// otherwise a session is created.
pub open spec fn reuse_or_create_in(existing: Option<Session>, c: CacheState, user_id: i32) -> (
    Result<Session, SessionError>,
    CacheState,
) {
    match existing {
        Some(session) => (Ok(session), c),
        None => persist_in(c, user_id),
    }
}

/// What a login does first.
#[derive(Debug, Clone, PartialEq, Eq)]
pub enum LoginStep {
    /// The request came with this session: it is kept and none is created.
    Reuse(Session),
    /// The request came without a session: one is created, beginning with
    /// this request for a new id.
    Create(CacheRequest),
}

/// The request that draws a new session id.
pub fn allocate_request() -> (request: CacheRequest)
    ensures
        request@ == (RequestView::Increment { key: counter_key() }),
{
    CacheRequest::Increment { key: counter_name() }
}

/// The second step of creating a session for `user_id`: takes the reply to
/// `allocate_request` and gives the session with the request that stores it.
pub fn store_request(user_id: i32, reply: &CacheReply) -> (r: Result<
    (Session, CacheRequest),
    SessionError,
>)
    ensures
        match r {
            Ok((session, request)) => store_step(user_id, reply@) == Ok::<
                (Session, RequestView),
                SessionError,
            >((session, request@)),
            Err(e) => store_step(user_id, reply@) == Err::<(Session, RequestView), SessionError>(e),
        },
{
    match reply {
        CacheReply::Counter(n) => {
            if *n < i32::MIN as i64 || *n > i32::MAX as i64 {
                return Err(SessionError::BackendError);
            }
            let session = Session { id: *n as i32, user_id };
            let request = CacheRequest::SetWithExpiry {
                key: get_redis_key(session.id),
                value: encode(&session),
                ttl_seconds: SESSION_TTL_SECONDS,
            };
            Ok((session, request))
        },
        _ => Err(SessionError::BackendError),
    }
}

/// The last step of creating `session`: takes the reply to the request that
/// stores it.
pub fn finish_store(session: Session, reply: &CacheReply) -> (r: Result<Session, SessionError>)
    ensures
        r == store_outcome(session, reply@),
{
    match reply {
        CacheReply::Stored => Ok(session),
        _ => Err(SessionError::BackendError),
    }
}

/// The first step of a login, which decides between keeping the session that
/// is attached to the request and creating one.
pub fn begin_login(existing: Option<Session>) -> (step: LoginStep)
    ensures
        match existing {
            Some(session) => step matches LoginStep::Reuse(kept) && kept == session,
            None => step matches LoginStep::Create(request) && request@ == (
            RequestView::Increment { key: counter_key() }),
        },
{
    match existing {
        Some(session) => LoginStep::Reuse(session),
        None => LoginStep::Create(allocate_request()),
    }
}

/// The request for the entry of the session that `token` names.
pub fn lookup_request(token: SessionToken) -> (request: CacheRequest)
    ensures
        request@ == (RequestView::Get { key: cache_key(token.id() as int) }),
{
    CacheRequest::Get { key: get_redis_key(token.id) }
}

/// The last step of a lookup: takes the reply to `lookup_request`.
pub fn finish_lookup(reply: &CacheReply) -> (r: Result<Session, SessionError>)
    ensures
        r == lookup_outcome(reply@),
{
    match reply {
        CacheReply::Value(Some(text)) => match decode(text.as_str()) {
            Some(session) => Ok(session),
            None => Err(SessionError::CorruptSession),
        },
        CacheReply::Value(None) => Err(SessionError::SessionNotFound),
        _ => Err(SessionError::BackendError),
    }
}

/// The request that renews the session `session_id`.
pub fn renew_request(session_id: i32) -> (request: CacheRequest)
    ensures
        request@ == (RequestView::RefreshExpiry {
            key: cache_key(session_id as int),
            ttl_seconds: session_ttl(),
        }),
{
    CacheRequest::RefreshExpiry { key: get_redis_key(session_id), ttl_seconds: SESSION_TTL_SECONDS }
}

/// The last step of a renewal: takes the reply to `renew_request`.
pub fn finish_renew(reply: &CacheReply) -> (r: Result<(), SessionError>)
    ensures
        r == renew_outcome(reply@),
{
    match reply {
        CacheReply::Refreshed => Ok(()),
        _ => Err(SessionError::BackendError),
    }
}

impl SessionToken {
    /// The token that names the session `id`.
    pub fn new(id: i32) -> (token: SessionToken)
        ensures
            token.id() == id,
    {
        SessionToken { id }
    }

    /// The session id that this token names.
    #[verifier::when_used_as_spec(spec_id)]
    pub fn id(&self) -> (id: i32)
        ensures
            id == self.spec_id(),
    {
        self.id
    }

    /// The session id that this token names.
    pub closed spec fn spec_id(&self) -> i32 {
        self.id
    }

    /// Reads a token from the text the client sent: an optional sign and
    /// decimal digits that denote a 32-bit integer. Any other text is an
    /// `InvalidToken`.
    pub fn parse(text: &str) -> (r: Result<SessionToken, SessionError>)
        ensures
            match parse_i32_text(text@) {
                Some(id) => r.is_ok() && r.unwrap().id() == id,
                None => r == Err::<SessionToken, SessionError>(SessionError::InvalidToken),
            },
    {
        match parse_i32(text) {
            Some(id) => Ok(SessionToken { id }),
            None => Err(SessionError::InvalidToken),
        }
    }

    /// The text that the client is given for this token.
    pub fn text(&self) -> (text: String)
        ensures
            text@ == decimal_text(self.id() as int),
    {
        format_i32(self.id)
    }

    /// Looks the session up in `cache`: the stored record where the cache
    /// holds a live entry for it that decodes, `SessionNotFound` where it holds
    /// none, `CorruptSession` where the entry does not decode.
    pub fn get(self, cache: &SessionCache) -> (r: Result<Session, SessionError>)
        ensures
            r == get_in(cache@, self.id() as int),
    {
        let key = get_redis_key(self.id);
        let reply = cache.read(key.as_str());
        finish_lookup(&reply)
    }
}

impl Session {
    /// Creates a session for `user_id`: draws the next id from the counter,
    /// and stores the record under the id's key for 750 seconds. Fails with
    /// `BackendError`, and stores nothing, where the counter cannot be
    /// incremented or its new value is no 32-bit integer.
    pub fn persist(cache: &mut SessionCache, user_id: i32) -> (r: Result<Session, SessionError>)
        ensures
            r == persist_in(old(cache)@, user_id).0,
            final(cache)@ == persist_in(old(cache)@, user_id).1,
    {
        reuse_or_create(None, cache, user_id)
    }

    /// Gives this session another 750 seconds from now, where its entry is
    /// live; where it is not, nothing changes and the result is still `Ok`.
    pub fn extend(&self, cache: &mut SessionCache) -> (r: Result<(), SessionError>)
        ensures
            r == extend_in(old(cache)@, self.id as int).0,
            final(cache)@ == extend_in(old(cache)@, self.id as int).1,
    {
        renew(cache, self.id)
    }

    /// The token that names this session.
    pub fn token(&self) -> (token: SessionToken)
        ensures
            token.id() == self.id,
    {
        SessionToken { id: self.id }
    }
}

/// Looks up the session that the client's token text names.
pub fn resolve(cache: &SessionCache, token: &str) -> (r: Result<Session, SessionError>)
    ensures
        r == resolve_in(cache@, token@),
{
    match SessionToken::parse(token) {
        Ok(token) => token.get(cache),
        Err(e) => Err(e),
    }
}

/// Renews the session `session_id` for another 750 seconds.
pub fn renew(cache: &mut SessionCache, session_id: i32) -> (r: Result<(), SessionError>)
    ensures
        r == extend_in(old(cache)@, session_id as int).0,
        final(cache)@ == extend_in(old(cache)@, session_id as int).1,
{
    let reply = cache.perform(&renew_request(session_id));
    finish_renew(&reply)
}

/// The login policy: a session already attached to the request is returned
/// unchanged, and no new one is made; without one, a session is created for
/// `user_id`.
pub fn reuse_or_create(existing: Option<Session>, cache: &mut SessionCache, user_id: i32) -> (r:
    Result<Session, SessionError>)
    ensures
        r == reuse_or_create_in(existing, old(cache)@, user_id).0,
        final(cache)@ == reuse_or_create_in(existing, old(cache)@, user_id).1,
{
    match begin_login(existing) {
        LoginStep::Reuse(session) => Ok(session),
        LoginStep::Create(request) => {
            let counted = cache.perform(&request);
            match store_request(user_id, &counted) {
                Ok((session, request)) => {
                    let stored = cache.perform(&request);
                    finish_store(session, &stored)
                },
                Err(e) => Err(e),
            }
        },
    }
}

} // verus!
