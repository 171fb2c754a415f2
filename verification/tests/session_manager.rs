use session_core::cache::{CacheReply, CacheRequest, SessionCache};
use session_core::record::Session;
use session_core::session::{
    allocate_request, begin_login, counter_name, finish_lookup, finish_renew, finish_store,
    get_redis_key, lookup_request, renew, renew_request, resolve, reuse_or_create, store_request,
    LoginStep, SessionError, SessionToken, SESSION_TTL_SECONDS,
};

#[test]
fn the_session_lifetime_is_750_seconds() {
    assert_eq!(SESSION_TTL_SECONDS, 750);
    assert_eq!(SESSION_TTL_SECONDS, 15 * 50);
}

#[test]
fn cache_keys_are_the_prefix_and_the_decimal_id() {
    assert_eq!(get_redis_key(1), "session_1");
    assert_eq!(get_redis_key(0), "session_0");
    assert_eq!(get_redis_key(42), "session_42");
    assert_eq!(get_redis_key(-3), "session_-3");
    assert_eq!(get_redis_key(i32::MAX), "session_2147483647");
    assert_eq!(get_redis_key(i32::MIN), "session_-2147483648");
}

#[test]
fn the_id_counter_is_named_session_id() {
    assert_eq!(counter_name(), "session_id");
    assert_eq!(allocate_request(), CacheRequest::Increment { key: String::from("session_id") });
}

#[test]
fn a_token_is_read_from_decimal_text() {
    assert_eq!(SessionToken::parse("17").map(|t| t.id()), Ok(17));
    assert_eq!(SessionToken::parse("-4").map(|t| t.id()), Ok(-4));
    assert_eq!(SessionToken::parse("+4").map(|t| t.id()), Ok(4));
    assert_eq!(SessionToken::parse("2147483647").map(|t| t.id()), Ok(i32::MAX));
}

#[test]
fn a_token_that_is_no_number_is_invalid() {
    for text in ["", "abc", "12x", " 12", "1.5", "-", "2147483648", "session_1"] {
        assert_eq!(SessionToken::parse(text), Err(SessionError::InvalidToken), "text {:?}", text);
    }
}

#[test]
fn a_token_is_written_as_decimal_text() {
    assert_eq!(SessionToken::new(31).text(), "31");
    assert_eq!(SessionToken::new(-31).text(), "-31");
    assert_eq!(SessionToken::new(31).id(), 31);
    assert_eq!(Session { id: 6, user_id: 1 }.token(), SessionToken::new(6));
}

#[test]
fn persist_draws_ids_from_one_upwards() {
    let mut cache = SessionCache::new();
    assert_eq!(Session::persist(&mut cache, 10), Ok(Session { id: 1, user_id: 10 }));
    assert_eq!(Session::persist(&mut cache, 20), Ok(Session { id: 2, user_id: 20 }));
    assert_eq!(Session::persist(&mut cache, 10), Ok(Session { id: 3, user_id: 10 }));
}

#[test]
fn persist_stores_the_record_under_the_session_key() {
    let mut cache = SessionCache::new();
    let session = Session::persist(&mut cache, 9).unwrap();
    assert_eq!(session, Session { id: 1, user_id: 9 });
    assert_eq!(cache.get("session_1"), Some(String::from("{\"id\":1,\"user_id\":9}")));
    assert_eq!(cache.get("session_2"), None);
}

#[test]
fn persist_stores_for_exactly_750_seconds() {
    let mut cache = SessionCache::new();
    let session = Session::persist(&mut cache, 9).unwrap();
    assert!(cache.advance(749));
    assert_eq!(session.token().get(&cache), Ok(session));
    assert!(cache.advance(1));
    assert_eq!(session.token().get(&cache), Err(SessionError::SessionNotFound));
}

#[test]
fn a_created_session_resolves_to_its_user() {
    let mut cache = SessionCache::new();
    for user_id in [i32::MIN, -1, 0, 1, 77, i32::MAX] {
        let session = Session::persist(&mut cache, user_id).unwrap();
        let token = session.token().text();
        let found = resolve(&cache, &token).unwrap();
        assert_eq!(found.user_id, user_id);
        assert_eq!(found, session);
    }
}

#[test]
fn many_sessions_get_distinct_increasing_ids() {
    let mut cache = SessionCache::new();
    let mut last = 0;
    for n in 0..200 {
        let session = Session::persist(&mut cache, n % 7).unwrap();
        assert!(session.id > last);
        last = session.id;
    }
    assert_eq!(last, 200);
}

#[test]
fn ids_increase_when_the_steps_of_two_creations_interleave() {
    let mut cache = SessionCache::new();
    let first_reply = cache.perform(&allocate_request());
    let second_reply = cache.perform(&allocate_request());
    let (second, second_store) = store_request(2, &second_reply).unwrap();
    let (first, first_store) = store_request(1, &first_reply).unwrap();
    let stored = cache.perform(&second_store);
    assert_eq!(finish_store(second, &stored), Ok(Session { id: 2, user_id: 2 }));
    let stored = cache.perform(&first_store);
    assert_eq!(finish_store(first, &stored), Ok(Session { id: 1, user_id: 1 }));
    assert_eq!(resolve(&cache, "1"), Ok(Session { id: 1, user_id: 1 }));
    assert_eq!(resolve(&cache, "2"), Ok(Session { id: 2, user_id: 2 }));
}

#[test]
fn an_id_that_was_never_created_is_not_found() {
    let mut cache = SessionCache::new();
    assert_eq!(resolve(&cache, "1"), Err(SessionError::SessionNotFound));
    Session::persist(&mut cache, 5).unwrap();
    assert_eq!(resolve(&cache, "2"), Err(SessionError::SessionNotFound));
    assert_eq!(resolve(&cache, "99"), Err(SessionError::SessionNotFound));
    assert_eq!(resolve(&cache, "-1"), Err(SessionError::SessionNotFound));
    assert_eq!(SessionToken::new(99).get(&cache), Err(SessionError::SessionNotFound));
}

#[test]
fn a_token_that_is_no_number_resolves_to_invalid_token() {
    let mut cache = SessionCache::new();
    Session::persist(&mut cache, 5).unwrap();
    assert_eq!(resolve(&cache, "abc"), Err(SessionError::InvalidToken));
    assert_eq!(resolve(&cache, ""), Err(SessionError::InvalidToken));
    assert_eq!(resolve(&cache, "1 "), Err(SessionError::InvalidToken));
    assert_eq!(resolve(&cache, "session_1"), Err(SessionError::InvalidToken));
}

#[test]
fn a_token_with_sign_or_leading_zeros_names_the_same_session() {
    let mut cache = SessionCache::new();
    let session = Session::persist(&mut cache, 5).unwrap();
    assert_eq!(resolve(&cache, "+1"), Ok(session));
    assert_eq!(resolve(&cache, "001"), Ok(session));
}

#[test]
fn an_entry_that_is_no_record_is_corrupt() {
    let mut cache = SessionCache::new();
    cache.set_with_expiry("session_5", "garbage", 100);
    assert_eq!(resolve(&cache, "5"), Err(SessionError::CorruptSession));
    cache.set_with_expiry("session_6", "", 100);
    assert_eq!(resolve(&cache, "6"), Err(SessionError::CorruptSession));
    cache.set_with_expiry("session_7", "{\"id\": 7, \"user_id\": 1}", 100);
    assert_eq!(resolve(&cache, "7"), Err(SessionError::CorruptSession));
}

#[test]
fn a_corrupt_entry_is_not_found_once_it_has_expired() {
    let mut cache = SessionCache::new();
    cache.set_with_expiry("session_5", "garbage", 100);
    assert!(cache.advance(100));
    assert_eq!(resolve(&cache, "5"), Err(SessionError::SessionNotFound));
}

#[test]
fn lookup_returns_the_record_as_it_is_stored() {
    let mut cache = SessionCache::new();
    cache.set_with_expiry("session_5", "{\"id\":8,\"user_id\":3}", 100);
    assert_eq!(resolve(&cache, "5"), Ok(Session { id: 8, user_id: 3 }));
}

#[test]
fn the_store_step_takes_the_counter_reply() {
    let (session, request) = store_request(4, &CacheReply::Counter(12)).unwrap();
    assert_eq!(session, Session { id: 12, user_id: 4 });
    assert_eq!(
        request,
        CacheRequest::SetWithExpiry {
            key: String::from("session_12"),
            value: String::from("{\"id\":12,\"user_id\":4}"),
            ttl_seconds: 750,
        }
    );
}

#[test]
fn the_store_step_accepts_every_32_bit_counter_value() {
    assert_eq!(
        store_request(1, &CacheReply::Counter(i32::MAX as i64)).map(|p| p.0),
        Ok(Session { id: i32::MAX, user_id: 1 })
    );
    assert_eq!(
        store_request(1, &CacheReply::Counter(i32::MIN as i64)).map(|p| p.0),
        Ok(Session { id: i32::MIN, user_id: 1 })
    );
}

#[test]
fn the_store_step_fails_on_a_counter_that_is_no_32_bit_integer() {
    assert_eq!(
        store_request(1, &CacheReply::Counter(i32::MAX as i64 + 1)),
        Err(SessionError::BackendError)
    );
    assert_eq!(
        store_request(1, &CacheReply::Counter(i32::MIN as i64 - 1)),
        Err(SessionError::BackendError)
    );
    assert_eq!(store_request(1, &CacheReply::Counter(i64::MAX)), Err(SessionError::BackendError));
}

#[test]
fn the_store_step_fails_on_any_other_reply() {
    for reply in [
        CacheReply::Failed,
        CacheReply::Stored,
        CacheReply::Refreshed,
        CacheReply::Value(None),
        CacheReply::Value(Some(String::from("1"))),
    ] {
        assert_eq!(store_request(1, &reply), Err(SessionError::BackendError));
    }
}

#[test]
fn creation_ends_with_the_session_only_when_it_was_stored() {
    let session = Session { id: 3, user_id: 4 };
    assert_eq!(finish_store(session, &CacheReply::Stored), Ok(session));
    for reply in [
        CacheReply::Failed,
        CacheReply::Refreshed,
        CacheReply::Counter(3),
        CacheReply::Value(None),
    ] {
        assert_eq!(finish_store(session, &reply), Err(SessionError::BackendError));
    }
}

#[test]
fn the_lookup_request_asks_for_the_session_key() {
    assert_eq!(
        lookup_request(SessionToken::new(7)),
        CacheRequest::Get { key: String::from("session_7") }
    );
}

#[test]
fn a_lookup_ends_as_the_reply_says() {
    let text = String::from("{\"id\":7,\"user_id\":2}");
    assert_eq!(finish_lookup(&CacheReply::Value(Some(text))), Ok(Session { id: 7, user_id: 2 }));
    assert_eq!(finish_lookup(&CacheReply::Value(None)), Err(SessionError::SessionNotFound));
    assert_eq!(
        finish_lookup(&CacheReply::Value(Some(String::from("{}")))),
        Err(SessionError::CorruptSession)
    );
    assert_eq!(finish_lookup(&CacheReply::Failed), Err(SessionError::BackendError));
    assert_eq!(finish_lookup(&CacheReply::Stored), Err(SessionError::BackendError));
    assert_eq!(finish_lookup(&CacheReply::Refreshed), Err(SessionError::BackendError));
    assert_eq!(finish_lookup(&CacheReply::Counter(1)), Err(SessionError::BackendError));
}

#[test]
fn the_renew_request_gives_the_session_key_750_seconds() {
    assert_eq!(
        renew_request(7),
        CacheRequest::RefreshExpiry { key: String::from("session_7"), ttl_seconds: 750 }
    );
}

#[test]
fn a_renewal_ends_as_the_reply_says() {
    assert_eq!(finish_renew(&CacheReply::Refreshed), Ok(()));
    assert_eq!(finish_renew(&CacheReply::Failed), Err(SessionError::BackendError));
    assert_eq!(finish_renew(&CacheReply::Stored), Err(SessionError::BackendError));
    assert_eq!(finish_renew(&CacheReply::Value(None)), Err(SessionError::BackendError));
    assert_eq!(finish_renew(&CacheReply::Counter(1)), Err(SessionError::BackendError));
}

#[test]
fn extend_gives_a_live_session_750_seconds_from_now() {
    let mut cache = SessionCache::new();
    let session = Session::persist(&mut cache, 9).unwrap();
    assert!(cache.advance(700));
    assert_eq!(session.extend(&mut cache), Ok(()));
    assert!(cache.advance(749));
    assert_eq!(session.token().get(&cache), Ok(session));
    assert!(cache.advance(1));
    assert_eq!(session.token().get(&cache), Err(SessionError::SessionNotFound));
}

#[test]
fn extend_does_not_change_the_stored_record() {
    let mut cache = SessionCache::new();
    let session = Session::persist(&mut cache, 9).unwrap();
    let other = Session::persist(&mut cache, 11).unwrap();
    let before = cache.get("session_1");
    let other_before = cache.get("session_2");
    let resolved_before = resolve(&cache, "1");
    assert_eq!(session.extend(&mut cache), Ok(()));
    assert_eq!(cache.get("session_1"), before);
    assert_eq!(cache.get("session_2"), other_before);
    assert_eq!(resolve(&cache, "1"), resolved_before);
    assert_eq!(resolve(&cache, "2"), Ok(other));
}

#[test]
fn extend_does_not_bring_back_an_expired_session() {
    let mut cache = SessionCache::new();
    let session = Session::persist(&mut cache, 9).unwrap();
    assert!(cache.advance(750));
    assert_eq!(session.extend(&mut cache), Ok(()));
    assert_eq!(session.token().get(&cache), Err(SessionError::SessionNotFound));
    assert_eq!(renew(&mut cache, 12345), Ok(()));
    assert_eq!(resolve(&cache, "12345"), Err(SessionError::SessionNotFound));
}

#[test]
fn renew_by_id_does_what_extend_does() {
    let mut cache = SessionCache::new();
    let session = Session::persist(&mut cache, 9).unwrap();
    assert!(cache.advance(749));
    assert_eq!(renew(&mut cache, session.id), Ok(()));
    assert!(cache.advance(749));
    assert_eq!(resolve(&cache, "1"), Ok(session));
}

#[test]
fn reuse_returns_the_attached_session_and_creates_none() {
    let mut cache = SessionCache::new();
    let session = Session::persist(&mut cache, 9).unwrap();
    let first = reuse_or_create(Some(session), &mut cache, 9).unwrap();
    let second = reuse_or_create(Some(session), &mut cache, 9).unwrap();
    assert_eq!(first.id, session.id);
    assert_eq!(second.id, first.id);
    assert_eq!(second, session);
    let next = Session::persist(&mut cache, 1).unwrap();
    assert_eq!(next.id, session.id + 1);
}

#[test]
fn reuse_keeps_the_attached_session_whatever_user_is_given() {
    let mut cache = SessionCache::new();
    let session = Session { id: 40, user_id: 2 };
    assert_eq!(reuse_or_create(Some(session), &mut cache, 3), Ok(session));
    assert_eq!(cache.get("session_40"), None);
}

#[test]
fn without_an_attached_session_one_is_created() {
    let mut cache = SessionCache::new();
    let created = reuse_or_create(None, &mut cache, 9).unwrap();
    assert_eq!(created, Session { id: 1, user_id: 9 });
    assert_eq!(resolve(&cache, "1"), Ok(created));
    let again = reuse_or_create(None, &mut cache, 9).unwrap();
    assert_eq!(again.id, 2);
}

#[test]
fn a_login_keeps_the_attached_session() {
    let session = Session { id: 3, user_id: 8 };
    assert_eq!(begin_login(Some(session)), LoginStep::Reuse(session));
}

#[test]
fn a_login_without_session_begins_by_drawing_an_id() {
    assert_eq!(
        begin_login(None),
        LoginStep::Create(CacheRequest::Increment { key: String::from("session_id") })
    );
}

#[test]
fn persist_fails_when_the_counter_has_left_the_32_bit_range() {
    let mut cache = SessionCache::new();
    let reply = cache.perform(&allocate_request());
    assert_eq!(reply, CacheReply::Counter(1));
    assert_eq!(store_request(5, &CacheReply::Counter(1 << 31)), Err(SessionError::BackendError));
    assert_eq!(Session::persist(&mut cache, 5), Ok(Session { id: 2, user_id: 5 }));
}
