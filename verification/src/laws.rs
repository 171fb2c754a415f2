//! What holds of sessions in every cache, proved over the model.

use vstd::prelude::*;
use crate::cache::{counter_limit, CacheState, RequestView};
use crate::cookies::{cookie_name, token_in};
use crate::decimal::{
    all_digits, decimal_text, has_sign, is_digit, lemma_parse_decimal_text, parse_i32_text,
    unsigned_part,
};
use crate::identity::{identity_in, Identity};
use crate::record::{decode_text, lemma_decode_record_text, record_text, Session};
use crate::session::{
    cache_key, counter_key, extend_in, get_in, lemma_cache_key_injective, persist_in, resolve_in,
    reuse_or_create_in, session_ttl, store_step, SessionError,
};

verus! {

/// The cache after it has served `requests` one after the other.
pub open spec fn after_requests(c: CacheState, requests: Seq<RequestView>) -> CacheState
    decreases requests.len(),
{
    if requests.len() == 0 {
        c
    } else {
        after_requests(c, requests.drop_last()).perform(requests.last()).1
    }
}

/// Whether `text` holds a character that no number has: one that is neither
/// a digit nor a sign in first place.
pub open spec fn has_foreign_char(text: Seq<char>) -> bool {
    exists|i: int|
        0 <= i < text.len() && !is_digit(#[trigger] text[i]) && !(i == 0 && has_sign(text))
}

/// Where a session stands, as the manager can tell.
pub enum SessionState {
    /// The cache never held an entry for the session, or holds none any more.
    Nonexistent,
    /// The cache holds an entry for the session that has not expired.
    Live,
    /// The cache holds an entry for the session that has expired.
    Expired,
}

/// Where the session `id` stands in the cache `c`.
pub open spec fn state_of(c: CacheState, id: int) -> SessionState {
    if !c.entries.contains_key(cache_key(id)) {
        SessionState::Nonexistent
    } else if c.holds(cache_key(id)) {
        SessionState::Live
    } else {
        SessionState::Expired
    }
}

/// Whether every live entry under a session key stores the record of that
/// very session: the entry under the key of `id` decodes to a record whose id
/// is `id`.
pub open spec fn sessions_keyed_by_id(c: CacheState) -> bool {
    forall|id: i32|
        c.holds(#[trigger] cache_key(id as int)) ==> (decode_text(
            c.entries[cache_key(id as int)].value,
        ) matches Some(session) && session.id == id)
}

/// Creating a session succeeds exactly where the id counter can go up by one
/// and its new value is a 32-bit integer. The new session then carries that
/// value as its id and the given user, its record is stored under its key for
/// the session lifetime, and the counter stands at the id.
pub proof fn law_persist_outcome(c: CacheState, user_id: i32)
    ensures
        ({
            let fits = c.counter(counter_key()) < counter_limit() && i32::MIN <= c.counter(
                counter_key(),
            ) + 1 <= i32::MAX;
            let (outcome, after) = persist_in(c, user_id);
            &&& outcome.is_ok() <==> fits
            &&& !fits ==> outcome == Err::<Session, SessionError>(SessionError::BackendError)
            &&& !fits ==> after.entries == c.entries && after.now == c.now
            &&& outcome matches Ok(session) ==> {
                &&& session.id == c.counter(counter_key()) + 1
                &&& session.user_id == user_id
                &&& after == c.increment(counter_key()).set_with_expiry(
                    cache_key(session.id as int),
                    record_text(session),
                    session_ttl(),
                )
                &&& after.get(cache_key(session.id as int)) == Some(record_text(session))
            }
        }),
{
}

/// A session that was just created is found again under its token, with the
/// user it was created for.
pub proof fn law_created_session_resolves(c: CacheState, user_id: i32)
    ensures
        persist_in(c, user_id).0 matches Ok(session) ==> session.user_id == user_id && resolve_in(
            persist_in(c, user_id).1,
            decimal_text(session.id as int),
        ) == Ok::<Session, SessionError>(session),
{
    let (outcome, after) = persist_in(c, user_id);
    if let Ok(session) = outcome {
        law_persist_outcome(c, user_id);
        lemma_parse_decimal_text(session.id);
        lemma_decode_record_text(session);
        assert(after.get(cache_key(session.id as int)) == Some(record_text(session)));
    }
}

/// No request makes a counter go down.
pub proof fn law_counters_never_decrease(c: CacheState, requests: Seq<RequestView>, name: Seq<char>)
    ensures
        after_requests(c, requests).counter(name) >= c.counter(name),
    decreases requests.len(),
{
    if requests.len() > 0 {
        law_counters_never_decrease(c, requests.drop_last(), name);
    }
}

/// Session ids never repeat and grow in the order in which they were drawn:
/// of two creations, the one whose id was drawn later has the greater id,
/// whatever requests the cache served in between, those of other creations
/// among them.
pub proof fn law_session_ids_increase(
    c: CacheState,
    between: Seq<RequestView>,
    first_user: i32,
    second_user: i32,
)
    ensures
        ({
            let draw = RequestView::Increment { key: counter_key() };
            let (first_reply, c1) = c.perform(draw);
            let (second_reply, c2) = after_requests(c1, between).perform(draw);
            store_step(first_user, first_reply) matches Ok((first, _)) ==> store_step(
                second_user,
                second_reply,
            ) matches Ok((second, _)) ==> first.id < second.id
        }),
{
    let draw = RequestView::Increment { key: counter_key() };
    let (first_reply, c1) = c.perform(draw);
    law_counters_never_decrease(c1, between, counter_key());
}

/// Of two sessions created one after the other, with any requests served in
/// between, the second has the greater id.
pub proof fn law_later_session_has_greater_id(
    c: CacheState,
    between: Seq<RequestView>,
    first_user: i32,
    second_user: i32,
)
    ensures
        ({
            let (first, c1) = persist_in(c, first_user);
            let (second, c2) = persist_in(after_requests(c1, between), second_user);
            first matches Ok(s1) ==> second matches Ok(s2) ==> s1.id < s2.id
        }),
{
    let (first, c1) = persist_in(c, first_user);
    law_persist_outcome(c, first_user);
    law_counters_never_decrease(c1, between, counter_key());
    law_persist_outcome(after_requests(c1, between), second_user);
}

/// A token for a session of which the cache holds no live entry, because it
/// was never created or has expired, resolves to `SessionNotFound`.
pub proof fn law_unknown_session_not_found(c: CacheState, id: i32)
    requires
        !c.holds(cache_key(id as int)),
    ensures
        resolve_in(c, decimal_text(id as int)) == Err::<Session, SessionError>(
            SessionError::SessionNotFound,
        ),
{
    lemma_parse_decimal_text(id);
}

/// A token that is not a number resolves to `InvalidToken`, in every cache:
/// the empty text, a lone sign, and every text with a character that is
/// neither a digit nor a sign in first place.
pub proof fn law_non_numeric_token_invalid(c: CacheState, token: Seq<char>)
    requires
        token.len() == 0 || unsigned_part(token).len() == 0 || has_foreign_char(token),
    ensures
        resolve_in(c, token) == Err::<Session, SessionError>(SessionError::InvalidToken),
{
    if token.len() > 0 && unsigned_part(token).len() > 0 {
        let i = choose|i: int|
            0 <= i < token.len() && !is_digit(#[trigger] token[i]) && !(i == 0 && has_sign(token));
        let body = unsigned_part(token);
        if has_sign(token) {
            assert(body[i - 1] == token[i]);
            assert(!is_digit(body[i - 1]));
        } else {
            assert(!is_digit(body[i]));
        }
        assert(!all_digits(body));
    }
}

/// A stored value is there until its time to live has passed, and absent
/// from then on.
pub proof fn law_entry_expires(
    c: CacheState,
    key: Seq<char>,
    value: Seq<char>,
    ttl_seconds: nat,
    elapsed: nat,
)
    ensures
        elapsed < ttl_seconds ==> c.set_with_expiry(key, value, ttl_seconds).advance(elapsed).get(
            key,
        ) == Some(value),
        elapsed >= ttl_seconds ==> c.set_with_expiry(key, value, ttl_seconds).advance(
            elapsed,
        ).get(key).is_none(),
{
}

/// A session is found for 750 seconds after it was created, and no longer.
pub proof fn law_session_lives_for_ttl(c: CacheState, user_id: i32, elapsed: nat)
    ensures
        persist_in(c, user_id).0 matches Ok(session) ==> get_in(
            persist_in(c, user_id).1.advance(elapsed),
            session.id as int,
        ) == (if elapsed < 750 {
            Ok::<Session, SessionError>(session)
        } else {
            Err::<Session, SessionError>(SessionError::SessionNotFound)
        }),
{
    if let Ok(session) = persist_in(c, user_id).0 {
        law_persist_outcome(c, user_id);
        lemma_decode_record_text(session);
    }
}

/// Renewing a session changes no stored value: every key holds after the
/// renewal what it held before, so every token resolves as it did. A live
/// session's entry now expires 750 seconds from the renewal.
pub proof fn law_renew_keeps_records(c: CacheState, id: i32, token: Seq<char>, key: Seq<char>)
    ensures
        extend_in(c, id as int).0 == Ok::<(), SessionError>(()),
        extend_in(c, id as int).1.get(key) == c.get(key),
        resolve_in(extend_in(c, id as int).1, token) == resolve_in(c, token),
        c.holds(cache_key(id as int)) ==> extend_in(c, id as int).1.entries[cache_key(
            id as int,
        )].expires_at == c.now + 750,
        !c.holds(cache_key(id as int)) ==> extend_in(c, id as int).1 == c,
{
    let after = extend_in(c, id as int).1;
    assert forall|k: Seq<char>| after.get(k) == c.get(k) by {}
}

/// A renewed session is found for 750 seconds after the renewal, and no
/// longer; a session that was not live when it was renewed stays absent.
pub proof fn law_renewed_session_lives_for_ttl(c: CacheState, id: i32, elapsed: nat)
    ensures
        c.holds(cache_key(id as int)) ==> get_in(
            extend_in(c, id as int).1.advance(elapsed),
            id as int,
        ) == (if elapsed < 750 {
            get_in(c, id as int)
        } else {
            Err::<Session, SessionError>(SessionError::SessionNotFound)
        }),
        !c.holds(cache_key(id as int)) ==> get_in(
            extend_in(c, id as int).1.advance(elapsed),
            id as int,
        ) == Err::<Session, SessionError>(SessionError::SessionNotFound),
{
}

/// A session that is not live looks the same whether it never existed or has
/// expired: looking it up gives `SessionNotFound`. A live one never does.
pub proof fn law_absent_sessions_look_alike(c: CacheState, id: i32)
    ensures
        state_of(c, id as int) is Live <==> get_in(c, id as int) != Err::<Session, SessionError>(
            SessionError::SessionNotFound,
        ),
        state_of(CacheState::empty(), id as int) is Nonexistent,
{
}

/// Logging in with a session already attached returns that session, creates
/// none and leaves the cache as it was; doing so again gives the same id.
pub proof fn law_reuse_is_idempotent(
    c: CacheState,
    session: Session,
    first_user: i32,
    second_user: i32,
)
    ensures
        ({
            let (first, c1) = reuse_or_create_in(Some(session), c, first_user);
            let (second, c2) = reuse_or_create_in(Some(session), c1, second_user);
            &&& first == Ok::<Session, SessionError>(session)
            &&& second == first
            &&& c1 == c
            &&& c2 == c
        }),
{
}

/// After a login that created a session and set its cookie, a request with
/// that cookie resolves to the session of the user who logged in, also at an
/// endpoint that requires an identity.
pub proof fn law_login_then_request(
    c: CacheState,
    cookies: Map<Seq<char>, Seq<char>>,
    user_id: i32,
)
    ensures
        persist_in(c, user_id).0 matches Ok(session) ==> {
            let sent = cookies.insert(cookie_name(), decimal_text(session.id as int));
            let identity = identity_in(sent, persist_in(c, user_id).1);
            &&& identity == Identity::Authenticated(session)
            &&& session.user_id == user_id
            &&& identity.required().is_ok()
        },
{
    if let Ok(session) = persist_in(c, user_id).0 {
        law_created_session_resolves(c, user_id);
        lemma_parse_decimal_text(session.id);
    }
}

/// After a logout cleared the session cookie, a request is `Unauthenticated`
/// whatever the cache holds; it never fails with an error.
pub proof fn law_logout_then_request(c: CacheState, cookies: Map<Seq<char>, Seq<char>>)
    ensures
        identity_in(cookies.remove(cookie_name()), c) == Identity::Unauthenticated,
        token_in(cookies.remove(cookie_name())) == Ok::<Option<i32>, SessionError>(None),
{
}

/// The manager keeps every live session under the key of its own id: that
/// holds of an empty cache, and creating a session, renewing one and the
/// passing of time all preserve it.
pub proof fn law_sessions_stay_keyed_by_id(c: CacheState, user_id: i32, id: i32, elapsed: nat)
    requires
        sessions_keyed_by_id(c),
    ensures
        sessions_keyed_by_id(CacheState::empty()),
        sessions_keyed_by_id(persist_in(c, user_id).1),
        sessions_keyed_by_id(extend_in(c, id as int).1),
        sessions_keyed_by_id(c.advance(elapsed)),
{
    let created = persist_in(c, user_id).1;
    law_persist_outcome(c, user_id);
    assert forall|other: i32| created.holds(#[trigger] cache_key(other as int)) implies (
    decode_text(created.entries[cache_key(other as int)].value) matches Some(session)
        && session.id == other) by {
        if let Ok(session) = persist_in(c, user_id).0 {
            if cache_key(other as int) == cache_key(session.id as int) {
                lemma_cache_key_injective(other as int, session.id as int);
                lemma_decode_record_text(session);
            } else {
                assert(c.holds(cache_key(other as int)));
            }
        } else {
            assert(c.holds(cache_key(other as int)));
        }
    }
    let renewed = extend_in(c, id as int).1;
    assert forall|other: i32| renewed.holds(#[trigger] cache_key(other as int)) implies (
    decode_text(renewed.entries[cache_key(other as int)].value) matches Some(session)
        && session.id == other) by {
        assert(renewed.get(cache_key(other as int)) == c.get(cache_key(other as int)));
        assert(c.holds(cache_key(other as int)));
    }
    let later = c.advance(elapsed);
    assert forall|other: i32| later.holds(#[trigger] cache_key(other as int)) implies (decode_text(
        later.entries[cache_key(other as int)].value,
    ) matches Some(session) && session.id == other) by {
        assert(c.holds(cache_key(other as int)));
    }
}

/// Where every live session is kept under the key of its own id, a lookup
/// that succeeds gives the session that was asked for.
pub proof fn law_lookup_gives_the_session_asked_for(c: CacheState, id: i32)
    requires
        sessions_keyed_by_id(c),
    ensures
        get_in(c, id as int) matches Ok(session) ==> session.id == id,
        get_in(c, id as int) != Err::<Session, SessionError>(SessionError::CorruptSession),
{
    if c.holds(cache_key(id as int)) {
        assert(decode_text(c.entries[cache_key(id as int)].value) is Some);
    }
}

} // verus!
