//! The cookies of one request, and the session cookie among them.
//!
//! `Cookies` holds the cookies as plain names and values, as the transport
//! has verified and decrypted them. The session travels in the cookie named
//! `session`, whose value is the session id in decimal.

use vstd::prelude::*;
use vstd::string::*;
use crate::decimal::decimal_text;
use crate::record::Session;
use crate::session::{SessionError, SessionToken};
use crate::decimal::parse_i32_text;
use crate::text_map::TextMap;

verus! {

/// The name of the cookie that carries the session: `session`.
pub open spec fn cookie_name() -> Seq<char> {
    seq!['s', 'e', 's', 's', 'i', 'o', 'n']
}

/// The cookies of a request: at most one value for each name.
pub struct Cookies {
    jar: TextMap<String>,
}

/// What a stored cookie value stands for.
spec fn value_text(value: String) -> Seq<char> {
    value@
}

impl Cookies {
    /// The cookies as a map from each name to its value.
    pub closed spec fn view(&self) -> Map<Seq<char>, Seq<char>> {
        self.jar@.map_values(|value: String| value_text(value))
    }

    /// No cookies.
    pub fn new() -> (r: Cookies)
        ensures
            r@ == Map::<Seq<char>, Seq<char>>::empty(),
    {
        let r = Cookies { jar: TextMap::new() };
        assert(r@ =~= Map::<Seq<char>, Seq<char>>::empty());
        r
    }

    /// The value of the cookie `name`, if the request has one.
    pub fn get(&self, name: &str) -> (r: Option<String>)
        ensures
            match r {
                Some(value) => self@.contains_key(name@) && self@[name@] == value@,
                None => !self@.contains_key(name@),
            },
    {
        match self.jar.get(name) {
            Some(value) => Some(value.clone()),
            None => None,
        }
    }

    /// Sets the cookie `name` to `value`, in place of any earlier value.
    pub fn add(&mut self, name: &str, value: &str)
        ensures
            final(self)@ == old(self)@.insert(name@, value@),
    {
        self.jar.insert(name, String::from_str(value));
        assert(self@ =~= old(self)@.insert(name@, value@));
    }

    /// Clears the cookie `name`.
    pub fn remove(&mut self, name: &str)
        ensures
            final(self)@ == old(self)@.remove(name@),
    {
        self.jar.remove(name);
        assert(self@ =~= old(self)@.remove(name@));
    }
}

/// The name of the cookie that carries the session.
pub fn session_cookie_name() -> (name: &'static str)
    ensures
        name@ == cookie_name(),
{
    proof {
        reveal_strlit("session");
    }
    let name = "session";
    assert(name@ =~= cookie_name());
    name
}

/// The token that the cookies `cookies` carry: none without a session cookie,
/// `InvalidToken` where its value names no session id.
pub open spec fn token_in(cookies: Map<Seq<char>, Seq<char>>) -> Result<Option<i32>, SessionError> {
    if cookies.contains_key(cookie_name()) {
        match parse_i32_text(cookies[cookie_name()]) {
            Some(id) => Ok(Some(id)),
            None => Err(SessionError::InvalidToken),
        }
    } else {
        Ok(None)
    }
}

impl SessionToken {
    /// Reads the token from the request's cookies. A request without a session
    /// cookie has no token, which is no error; a session cookie whose value is
    /// not a session id is an `InvalidToken`.
    pub fn from_request(cookies: &Cookies) -> (r: Result<Option<SessionToken>, SessionError>)
        ensures
            match token_in(cookies@) {
                Ok(Some(id)) => r.is_ok() && r.unwrap().is_some() && r.unwrap().unwrap().id() == id,
                Ok(None) => r == Ok::<Option<SessionToken>, SessionError>(None),
                Err(e) => r == Err::<Option<SessionToken>, SessionError>(e),
            },
    {
        match cookies.get(session_cookie_name()) {
            Some(value) => match SessionToken::parse(value.as_str()) {
                Ok(token) => Ok(Some(token)),
                Err(e) => Err(e),
            },
            None => Ok(None),
        }
    }
}

impl Session {
    /// Hands the session to the client: sets the session cookie to this
    /// session's id in decimal.
    pub fn add_cookie(&self, cookies: &mut Cookies)
        ensures
            final(cookies)@ == old(cookies)@.insert(cookie_name(), decimal_text(self.id as int)),
    {
        let token = self.token();
        let value = token.text();
        cookies.add(session_cookie_name(), value.as_str());
    }

    /// Logs the client out: clears the session cookie. The cache is not
    /// touched; the entry lives on until it expires.
    pub fn remove_cookie(cookies: &mut Cookies)
        ensures
            final(cookies)@ == old(cookies)@.remove(cookie_name()),
    {
        cookies.remove(session_cookie_name());
    }
}

} // verus!
