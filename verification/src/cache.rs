//! The session cache: a key-value store whose entries expire.
//!
//! `CacheState` is the mathematical model: a clock, the stored entries with
//! their deadlines, and the named counters. `CacheRequest` and `CacheReply` are
//! the four operations and their answers, as a remote store is asked for them.
//! `SessionCache` is a store held in memory with a clock that the caller moves;
//! each of its operations is stated over the model.

use vstd::prelude::*;
use vstd::string::*;
use crate::text_map::TextMap;

verus! {

/// A stored text and the time from which it counts as absent.
pub struct StoredValue {
    pub value: Seq<char>,
    pub expires_at: nat,
}

/// The largest value a counter can take.
pub open spec fn counter_limit() -> int {
    i64::MAX as int
}

/// What a cache holds at one moment.
#[verifier::ext_equal]
pub struct CacheState {
    /// The current time, in whole seconds.
    pub now: nat,
    /// Every entry that was stored, expired or not.
    pub entries: Map<Seq<char>, StoredValue>,
    /// The counters that were incremented at least once.
    pub counters: Map<Seq<char>, int>,
}

/// An operation asked of a cache, over texts.
pub enum RequestView {
    Increment { key: Seq<char> },
    SetWithExpiry { key: Seq<char>, value: Seq<char>, ttl_seconds: nat },
    Get { key: Seq<char> },
    RefreshExpiry { key: Seq<char>, ttl_seconds: nat },
}

/// The answer of a cache, over texts.
pub enum ReplyView {
    Counter(int),
    Stored,
    Value(Option<Seq<char>>),
    Refreshed,
    Failed,
}

impl CacheState {
    /// A cache at time zero that holds nothing.
    pub open spec fn empty() -> CacheState {
        CacheState { now: 0, entries: Map::empty(), counters: Map::empty() }
    }

    /// Whether `key` has an entry that has not expired.
    pub open spec fn holds(self, key: Seq<char>) -> bool {
        self.entries.contains_key(key) && self.now < self.entries[key].expires_at
    }

    /// The text stored under `key`, or `None` where it is missing or expired.
    pub open spec fn get(self, key: Seq<char>) -> Option<Seq<char>> {
        if self.holds(key) {
            Some(self.entries[key].value)
        } else {
            None
        }
    }

    /// The cache after `value` was stored under `key` for `ttl_seconds`.
    pub open spec fn set_with_expiry(
        self,
        key: Seq<char>,
        value: Seq<char>,
        ttl_seconds: nat,
    ) -> CacheState {
        CacheState {
            entries: self.entries.insert(
                key,
                StoredValue { value, expires_at: self.now + ttl_seconds },
            ),
            ..self
        }
    }

    /// The cache after the entry under `key` was given `ttl_seconds` from now.
    /// Nothing changes where `key` is missing or expired.
    pub open spec fn refresh_expiry(self, key: Seq<char>, ttl_seconds: nat) -> CacheState {
        if self.holds(key) {
            self.set_with_expiry(key, self.entries[key].value, ttl_seconds)
        } else {
            self
        }
    }

    /// The value of the counter `name`; a counter never touched stands at zero.
    pub open spec fn counter(self, name: Seq<char>) -> int {
        if self.counters.contains_key(name) {
            self.counters[name]
        } else {
            0
        }
    }

    /// The cache after the counter `name` went up by one.
    pub open spec fn increment(self, name: Seq<char>) -> CacheState {
        CacheState { counters: self.counters.insert(name, self.counter(name) + 1), ..self }
    }

    /// The cache after `seconds` have passed.
    pub open spec fn advance(self, seconds: nat) -> CacheState {
        CacheState { now: self.now + seconds, ..self }
    }

    /// The answer to `request` and the cache after it. A counter that stands at
    /// its limit is not incremented, and the answer is `Failed`.
    pub open spec fn perform(self, request: RequestView) -> (ReplyView, CacheState) {
        match request {
            RequestView::Increment { key } => if self.counter(key) < counter_limit() {
                (ReplyView::Counter(self.counter(key) + 1), self.increment(key))
            } else {
                (ReplyView::Failed, self)
            },
            RequestView::SetWithExpiry { key, value, ttl_seconds } => (
                ReplyView::Stored,
                self.set_with_expiry(key, value, ttl_seconds),
            ),
            RequestView::Get { key } => (ReplyView::Value(self.get(key)), self),
            RequestView::RefreshExpiry { key, ttl_seconds } => (
                ReplyView::Refreshed,
                self.refresh_expiry(key, ttl_seconds),
            ),
        }
    }
}

/// An operation asked of a cache.
#[derive(Debug, Clone, PartialEq, Eq)]
pub enum CacheRequest {
    /// Add one to the counter `key` and report its new value.
    Increment { key: String },
    /// Store `value` under `key`, to expire `ttl_seconds` from now.
    SetWithExpiry { key: String, value: String, ttl_seconds: u64 },
    /// Report what is stored under `key`.
    Get { key: String },
    /// Let the entry under `key` expire `ttl_seconds` from now.
    RefreshExpiry { key: String, ttl_seconds: u64 },
}

impl View for CacheRequest {
    type V = RequestView;

    open spec fn view(&self) -> RequestView {
        match self {
            CacheRequest::Increment { key } => RequestView::Increment { key: key@ },
            CacheRequest::SetWithExpiry { key, value, ttl_seconds } => RequestView::SetWithExpiry {
                key: key@,
                value: value@,
                ttl_seconds: *ttl_seconds as nat,
            },
            CacheRequest::Get { key } => RequestView::Get { key: key@ },
            CacheRequest::RefreshExpiry { key, ttl_seconds } => RequestView::RefreshExpiry {
                key: key@,
                ttl_seconds: *ttl_seconds as nat,
            },
        }
    }
}

/// The answer of a cache.
#[derive(Debug, Clone, PartialEq, Eq)]
pub enum CacheReply {
    /// The new value of the counter that was incremented.
    Counter(i64),
    /// The value was stored.
    Stored,
    /// What the key holds; `None` where it is missing or expired.
    Value(Option<String>),
    /// The deadline was moved, or the key holds nothing.
    Refreshed,
    /// The store could not carry out the operation.
    Failed,
}

impl View for CacheReply {
    type V = ReplyView;

    open spec fn view(&self) -> ReplyView {
        match self {
            CacheReply::Counter(n) => ReplyView::Counter(*n as int),
            CacheReply::Stored => ReplyView::Stored,
            CacheReply::Value(Some(text)) => ReplyView::Value(Some(text@)),
            CacheReply::Value(None) => ReplyView::Value(None),
            CacheReply::Refreshed => ReplyView::Refreshed,
            CacheReply::Failed => ReplyView::Failed,
        }
    }
}

/// An entry as the in-memory cache keeps it.
struct CacheEntry {
    value: String,
    expires_at: u128,
}

/// What an entry stands for in the model.
spec fn stored_value(entry: CacheEntry) -> StoredValue {
    StoredValue { value: entry.value@, expires_at: entry.expires_at as nat }
}

/// What a counter stands for in the model.
spec fn counter_value(n: i64) -> int {
    n as int
}

/// A cache held in memory. Time passes only when `advance` is called.
pub struct SessionCache {
    now: u64,
    entries: TextMap<CacheEntry>,
    counters: TextMap<i64>,
}

impl SessionCache {
    /// The state that this cache stands for.
    pub closed spec fn view(&self) -> CacheState {
        CacheState {
            now: self.now as nat,
            entries: self.entries@.map_values(|e: CacheEntry| stored_value(e)),
            counters: self.counters@.map_values(|n: i64| counter_value(n)),
        }
    }

    /// An empty cache at time zero.
    pub fn new() -> (r: SessionCache)
        ensures
            r@ == CacheState::empty(),
    {
        let r = SessionCache { now: 0, entries: TextMap::new(), counters: TextMap::new() };
        assert(r@.entries =~= Map::empty());
        assert(r@.counters =~= Map::empty());
        r
    }

    /// The current time of this cache, in seconds.
    pub fn now(&self) -> (r: u64)
        ensures
            r == self@.now,
    {
        self.now
    }

    /// Lets `seconds` pass. Where the clock cannot count that far, nothing
    /// changes and the result is `false`.
    pub fn advance(&mut self, seconds: u64) -> (moved: bool)
        ensures
            moved == (old(self)@.now + seconds <= u64::MAX),
            moved ==> final(self)@ == old(self)@.advance(seconds as nat),
            !moved ==> final(self)@ == old(self)@,
    {
        match self.now.checked_add(seconds) {
            Some(later) => {
                self.now = later;
                true
            },
            None => false,
        }
    }

    /// Adds one to the counter `name` and returns its new value; `None`, with
    /// nothing changed, where the counter stands at its limit.
    pub fn increment(&mut self, name: &str) -> (r: Option<i64>)
        ensures
            old(self)@.counter(name@) < counter_limit() ==> r == Some(
                (old(self)@.counter(name@) + 1) as i64,
            ) && final(self)@ == old(self)@.increment(name@),
            old(self)@.counter(name@) >= counter_limit() ==> r.is_none() && final(self)@ == old(
                self,
            )@,
    {
        let current: i64 = match self.counters.get(name) {
            Some(n) => *n,
            None => 0,
        };
        assert(current == self@.counter(name@));
        if current == i64::MAX {
            return None;
        }
        let next = current + 1;
        self.counters.insert(name, next);
        assert(self@.counters =~= old(self)@.counters.insert(name@, next as int));
        Some(next)
    }

    /// Stores `value` under `key`, in place of any earlier value, to expire
    /// `ttl_seconds` from now.
    pub fn set_with_expiry(&mut self, key: &str, value: &str, ttl_seconds: u64)
        ensures
            final(self)@ == old(self)@.set_with_expiry(key@, value@, ttl_seconds as nat),
    {
        let entry = CacheEntry {
            value: String::from_str(value),
            expires_at: self.now as u128 + ttl_seconds as u128,
        };
        let ghost stored = stored_value(entry);
        self.entries.insert(key, entry);
        assert(self@.entries =~= old(self)@.entries.insert(key@, stored));
    }

    /// The text stored under `key`; `None` where it is missing or expired.
    pub fn get(&self, key: &str) -> (r: Option<String>)
        ensures
            match r {
                Some(text) => self@.get(key@) == Some(text@),
                None => self@.get(key@).is_none(),
            },
    {
        match self.entries.get(key) {
            Some(entry) => {
                if (self.now as u128) < entry.expires_at {
                    Some(entry.value.clone())
                } else {
                    None
                }
            },
            None => None,
        }
    }

    /// Lets the entry under `key` expire `ttl_seconds` from now, keeping its
    /// value. Does nothing where `key` is missing or expired.
    pub fn refresh_expiry(&mut self, key: &str, ttl_seconds: u64)
        ensures
            final(self)@ == old(self)@.refresh_expiry(key@, ttl_seconds as nat),
    {
        let value = match self.get(key) {
            Some(value) => value,
            None => return,
        };
        self.set_with_expiry(key, value.as_str(), ttl_seconds);
    }

    /// The answer to a `Get` for `key`, which changes nothing.
    pub fn read(&self, key: &str) -> (reply: CacheReply)
        ensures
            reply@ == self@.perform(RequestView::Get { key: key@ }).0,
    {
        CacheReply::Value(self.get(key))
    }

    /// Carries out `request` and answers it.
    pub fn perform(&mut self, request: &CacheRequest) -> (reply: CacheReply)
        ensures
            reply@ == old(self)@.perform(request@).0,
            final(self)@ == old(self)@.perform(request@).1,
    {
        match request {
            CacheRequest::Increment { key } => match self.increment(key.as_str()) {
                Some(n) => CacheReply::Counter(n),
                None => CacheReply::Failed,
            },
            CacheRequest::SetWithExpiry { key, value, ttl_seconds } => {
                self.set_with_expiry(key.as_str(), value.as_str(), *ttl_seconds);
                CacheReply::Stored
            },
            CacheRequest::Get { key } => self.read(key.as_str()),
            CacheRequest::RefreshExpiry { key, ttl_seconds } => {
                self.refresh_expiry(key.as_str(), *ttl_seconds);
                CacheReply::Refreshed
            },
        }
    }
}

} // verus!
