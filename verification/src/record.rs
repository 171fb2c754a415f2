//! The session record and the text under which the cache stores it.
//!
//! A record is stored as the compact object `{"id":<id>,"user_id":<user_id>}`
//! with both numbers in decimal. `encode` writes exactly that text and `decode`
//! accepts exactly the texts that `encode` writes: anything else in the cache
//! is a corrupt entry.

use vstd::prelude::*;
use vstd::string::*;
use crate::decimal::{
    decimal_text, format_i32, is_decimal_char, lemma_decimal_text_chars,
    lemma_decimal_text_injective, lemma_parse_decimal_text, parse_i32,
};

verus! {

/// A login session: its `id`, drawn by the server, and the user it belongs to.
#[derive(Debug, Clone, Copy, PartialEq, Eq, Structural)]
pub struct Session {
    pub id: i32,
    pub user_id: i32,
}

/// The text that opens a stored record: `{"id":`.
pub open spec fn record_open() -> Seq<char> {
    seq!['{', '"', 'i', 'd', '"', ':']
}

/// The text between the two numbers of a stored record: `,"user_id":`.
pub open spec fn record_middle() -> Seq<char> {
    seq![',', '"', 'u', 's', 'e', 'r', '_', 'i', 'd', '"', ':']
}

/// The text that closes a stored record: `}`.
pub open spec fn record_close() -> Seq<char> {
    seq!['}']
}

/// The text of a record with the given fields.
pub open spec fn fields_text(id: int, user_id: int) -> Seq<char> {
    record_open() + decimal_text(id) + record_middle() + decimal_text(user_id) + record_close()
}

/// The text under which `session` is stored.
pub open spec fn record_text(session: Session) -> Seq<char> {
    fields_text(session.id as int, session.user_id as int)
}

/// The record that `text` stores, if it stores one.
pub open spec fn decode_text(text: Seq<char>) -> Option<Session> {
    if exists|s: Session| text == record_text(s) {
        Some(choose|s: Session| text == record_text(s))
    } else {
        None
    }
}

/// Where the parts of a record's text lie: the first comma comes right after
/// the id, the id starts at 6, and the user id fills what lies between the
/// middle part and the closing brace. The text is ASCII.
pub proof fn lemma_fields_text_shape(id: int, user_id: int)
    ensures
        ({
            let t = fields_text(id, user_id);
            let a = decimal_text(id);
            let b = decimal_text(user_id);
            &&& a.len() >= 1
            &&& b.len() >= 1
            &&& t.len() == 18 + a.len() + b.len()
            &&& forall|j: int| 0 <= j < 6 + a.len() ==> t[j] != ','
            &&& t[6 + a.len() as int] == ','
            &&& t.subrange(6, 6 + a.len() as int) == a
            &&& t.subrange(17 + a.len() as int, t.len() - 1) == b
            &&& vstd::utf8::is_ascii_chars(t)
        }),
{
    let t = fields_text(id, user_id);
    let a = decimal_text(id);
    let b = decimal_text(user_id);
    lemma_decimal_text_chars(id);
    lemma_decimal_text_chars(user_id);
    assert(t.len() == 18 + a.len() + b.len());
    assert forall|j: int| 0 <= j < 6 + a.len() implies t[j] != ',' by {
        if j < 6 {
            assert(t[j] == record_open()[j]);
        } else {
            assert(t[j] == a[j - 6]);
            assert(is_decimal_char(a[j - 6]));
        }
    }
    assert(t[6 + a.len() as int] == record_middle()[0]);
    assert(t.subrange(6, 6 + a.len() as int) =~= a);
    assert(t.subrange(17 + a.len() as int, t.len() - 1) =~= b);
    assert forall|j: int| 0 <= j < t.len() implies '\0' <= #[trigger] t[j] <= '\u{7f}' by {
        if j < 6 {
            assert(t[j] == record_open()[j]);
        } else if j < 6 + a.len() {
            assert(t[j] == a[j - 6]);
            assert(is_decimal_char(a[j - 6]));
        } else if j < 17 + a.len() {
            assert(t[j] == record_middle()[j - 6 - a.len() as int]);
        } else if j < 17 + a.len() + b.len() {
            assert(t[j] == b[j - 17 - a.len() as int]);
            assert(is_decimal_char(b[j - 17 - a.len() as int]));
        } else {
            assert(t[j] == '}');
        }
    }
}

/// Two records with the same text are the same record.
pub proof fn lemma_record_text_injective(s1: Session, s2: Session)
    requires
        record_text(s1) == record_text(s2),
    ensures
        s1 == s2,
{
    lemma_fields_text_shape(s1.id as int, s1.user_id as int);
    lemma_fields_text_shape(s2.id as int, s2.user_id as int);
    let t = record_text(s1);
    let a1 = decimal_text(s1.id as int);
    let a2 = decimal_text(s2.id as int);
    if a1.len() < a2.len() {
        assert(t[6 + a1.len() as int] == ',');
    } else if a2.len() < a1.len() {
        assert(t[6 + a2.len() as int] == ',');
    }
    assert(a1.len() == a2.len());
    lemma_decimal_text_injective(s1.id as int, s2.id as int);
    lemma_decimal_text_injective(s1.user_id as int, s2.user_id as int);
}

/// Decoding the text of a record gives the record back.
pub proof fn lemma_decode_record_text(session: Session)
    ensures
        decode_text(record_text(session)) == Some(session),
{
    let t = record_text(session);
    let found = choose|s: Session| t == record_text(s);
    lemma_record_text_injective(found, session);
}

/// Writes the text under which `session` is stored.
pub fn encode(session: &Session) -> (r: String)
    ensures
        r@ == record_text(*session),
{
    proof {
        reveal_strlit("{\"id\":");
        reveal_strlit(",\"user_id\":");
        reveal_strlit("}");
    }
    let mut out = String::from_str("{\"id\":");
    assert(out@ =~= record_open());
    let id_text = format_i32(session.id);
    out.append(id_text.as_str());
    out.append(",\"user_id\":");
    assert(",\"user_id\":"@ =~= record_middle());
    let user_text = format_i32(session.user_id);
    out.append(user_text.as_str());
    out.append("}");
    assert("}"@ =~= record_close());
    assert(out@ =~= record_text(*session));
    out
}

/// The position of the first comma of `text`, if it has one.
fn first_comma(text: &str) -> (r: Option<usize>)
    requires
        text.is_ascii(),
    ensures
        match r {
            Some(c) => c < text@.len() && text@[c as int] == ',' && forall|j: int|
                0 <= j < c ==> text@[j] != ',',
            None => forall|j: int| 0 <= j < text@.len() ==> text@[j] != ',',
        },
{
    let bytes = text.as_bytes();
    let n = bytes.len();
    proof {
        is_ascii_spec_bytes(text);
        vstd::utf8::is_ascii_chars_nat_bound(text@);
    }
    assert(n == text@.len());
    assert forall|i: int| 0 <= i < n implies (#[trigger] text@[i]) as int == bytes@[i] as int by {
        assert((text@[i] as nat) < 128);
        assert(bytes@[i] == text@[i] as u8);
    }
    let mut i: usize = 0;
    while i < n
        invariant
            i <= n,
            n == text@.len(),
            bytes@.len() == n,
            forall|j: int| 0 <= j < n ==> (#[trigger] text@[j]) as int == bytes@[j] as int,
            forall|j: int| 0 <= j < i ==> text@[j] != ',',
        decreases n - i,
    {
        if bytes[i] == 44 {
            assert(text@[i as int] as int == 44);
            return Some(i);
        }
        assert(text@[i as int] as int != 44);
        i = i + 1;
    }
    None
}

/// Reads the two numbers of a text laid out as a stored record: what stands
/// between position 6 and the first comma, and what stands between 11 places
/// after that comma and the last character.
fn read_fields(text: &str) -> (r: Option<Session>)
    ensures
        forall|s: Session| text@ == record_text(s) ==> r == Some(s),
{
    if !text.is_ascii() {
        proof {
            assert forall|s: Session| text@ == record_text(s) implies false by {
                lemma_fields_text_shape(s.id as int, s.user_id as int);
            }
        }
        return None;
    }
    let n = text.as_bytes().len();
    proof {
        is_ascii_spec_bytes(text);
    }
    assert(n == text@.len());
    let comma = first_comma(text);
    let c = match comma {
        Some(c) => c,
        None => {
            proof {
                assert forall|s: Session| text@ == record_text(s) implies false by {
                    lemma_fields_text_shape(s.id as int, s.user_id as int);
                    assert(text@[6 + decimal_text(s.id as int).len() as int] == ',');
                }
            }
            return None;
        },
    };
    if c < 6 || n - c < 13 {
        proof {
            assert forall|s: Session| text@ == record_text(s) implies false by {
                lemma_fields_text_shape(s.id as int, s.user_id as int);
                let a = decimal_text(s.id as int);
                if c < 6 + a.len() {
                    assert(text@[c as int] != ',');
                } else if c > 6 + a.len() {
                    assert(text@[6 + a.len() as int] == ',');
                }
            }
        }
        return None;
    }
    let id_part = text.substring_ascii(6, c);
    let user_part = text.substring_ascii(c + 11, n - 1);
    let id = parse_i32(id_part);
    let user_id = parse_i32(user_part);
    proof {
        assert forall|s: Session| text@ == record_text(s) implies id == Some(s.id) && user_id
            == Some(s.user_id) by {
            lemma_fields_text_shape(s.id as int, s.user_id as int);
            let a = decimal_text(s.id as int);
            if c < 6 + a.len() {
                assert(text@[c as int] != ',');
            } else if c > 6 + a.len() {
                assert(text@[6 + a.len() as int] == ',');
            }
            assert(c == 6 + a.len());
            lemma_parse_decimal_text(s.id);
            lemma_parse_decimal_text(s.user_id);
        }
    }
    match (id, user_id) {
        (Some(id), Some(user_id)) => Some(Session { id, user_id }),
        _ => None,
    }
}

/// Reads a stored record. The result is `Some` exactly for the texts that
/// `encode` writes, and then it is the record that was written.
pub fn decode(text: &str) -> (r: Option<Session>)
    ensures
        r == decode_text(text@),
{
    let candidate = read_fields(text);
    match candidate {
        Some(session) => {
            let written = encode(&session);
            let given = text.to_owned();
            if written == given {
                proof {
                    lemma_decode_record_text(session);
                }
                Some(session)
            } else {
                None
            }
        },
        None => None,
    }
}

} // verus!
