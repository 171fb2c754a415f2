//! Decimal text of 32-bit integers.
//!
//! A session id travels as decimal text twice: inside the cache key and as the
//! value of the client's cookie. This module fixes that text (`decimal_text`),
//! says which texts read back as an integer (`parse_i32_text`), and proves that
//! reading undoes writing.

use vstd::prelude::*;
use vstd::string::*;

verus! {

/// Whether `c` is one of the ASCII digits `0` to `9`.
pub open spec fn is_digit(c: char) -> bool {
    '0' <= c && c <= '9'
}

/// The digit character for `d`, meant for `0 <= d <= 9`.
pub open spec fn digit_char(d: int) -> char {
    ((d + 48) as u8) as char
}

/// The number a digit character stands for.
pub open spec fn digit_value(c: char) -> int {
    c as int - 48
}

/// The digits of `n`, most significant first, without leading zeros.
pub open spec fn digits_of(n: nat) -> Seq<char>
    decreases n,
{
    if n < 10 {
        seq![digit_char(n as int)]
    } else {
        digits_of(n / 10).push(digit_char((n % 10) as int))
    }
}

/// The decimal text of `n`: a minus sign for a negative number, then its digits.
pub open spec fn decimal_text(n: int) -> Seq<char> {
    if n < 0 {
        seq!['-'] + digits_of((-n) as nat)
    } else {
        digits_of(n as nat)
    }
}

/// Whether every character of `s` is a digit.
pub open spec fn all_digits(s: Seq<char>) -> bool {
    forall|i: int| 0 <= i < s.len() ==> is_digit(#[trigger] s[i])
}

/// The number that a run of digits denotes, read most significant first.
pub open spec fn digits_value(s: Seq<char>) -> nat
    decreases s.len(),
{
    if s.len() == 0 {
        0
    } else {
        (digits_value(s.drop_last()) * 10 + digit_value(s.last())) as nat
    }
}

/// Whether `s` begins with a plus or minus sign.
pub open spec fn has_sign(s: Seq<char>) -> bool {
    s.len() > 0 && (s[0] == '-' || s[0] == '+')
}

/// What follows the sign of `s`, or all of `s` where it has none.
pub open spec fn unsigned_part(s: Seq<char>) -> Seq<char> {
    if has_sign(s) {
        s.subrange(1, s.len() as int)
    } else {
        s
    }
}

/// The integer that `s` denotes: an optional sign followed by at least one
/// digit and nothing else. Leading zeros are allowed.
pub open spec fn signed_value(s: Seq<char>) -> Option<int> {
    let body = unsigned_part(s);
    if body.len() == 0 || !all_digits(body) {
        None
    } else if s[0] == '-' {
        Some(-(digits_value(body) as int))
    } else {
        Some(digits_value(body) as int)
    }
}

/// The 32-bit integer that `s` denotes, if it denotes one that fits.
pub open spec fn parse_i32_text(s: Seq<char>) -> Option<i32> {
    match signed_value(s) {
        Some(v) => if i32::MIN <= v <= i32::MAX {
            Some(v as i32)
        } else {
            None
        },
        None => None,
    }
}

/// Whether `c` may occur in the decimal text of an integer.
pub open spec fn is_decimal_char(c: char) -> bool {
    is_digit(c) || c == '-'
}

/// The digits of a number are digits, and there is at least one.
pub proof fn lemma_digits_of_shape(n: nat)
    ensures
        digits_of(n).len() >= 1,
        all_digits(digits_of(n)),
    decreases n,
{
    if n >= 10 {
        lemma_digits_of_shape(n / 10);
    }
}

/// Reading the digits of a number gives the number back.
pub proof fn lemma_digits_round_trip(n: nat)
    ensures
        digits_value(digits_of(n)) == n,
    decreases n,
{
    if n < 10 {
        let s = digits_of(n);
        assert(s.drop_last() =~= Seq::<char>::empty());
        assert(digits_value(s.drop_last()) == 0);
    } else {
        lemma_digits_round_trip(n / 10);
        let s = digits_of(n);
        assert(s.drop_last() =~= digits_of(n / 10));
        assert(s.last() == digit_char((n % 10) as int));
    }
}

/// A run of digits denotes at least what any of its prefixes denotes.
pub proof fn lemma_digits_value_prefix(s: Seq<char>, k: int)
    requires
        all_digits(s),
        0 <= k <= s.len(),
    ensures
        digits_value(s.subrange(0, k)) <= digits_value(s),
    decreases s.len(),
{
    if k == s.len() {
        assert(s.subrange(0, k) =~= s);
    } else {
        let t = s.drop_last();
        assert(all_digits(t));
        lemma_digits_value_prefix(t, k);
        assert(t.subrange(0, k) =~= s.subrange(0, k));
        assert(is_digit(s.last()));
    }
}

/// The decimal text of an integer holds only digits and the minus sign, all
/// of them ASCII, and is never empty.
pub proof fn lemma_decimal_text_chars(n: int)
    ensures
        decimal_text(n).len() >= 1,
        forall|i: int| 0 <= i < decimal_text(n).len() ==> is_decimal_char(#[trigger] decimal_text(n)[i]),
        vstd::utf8::is_ascii_chars(decimal_text(n)),
{
    if n < 0 {
        lemma_digits_of_shape((-n) as nat);
        let d = digits_of((-n) as nat);
        assert forall|i: int| 0 <= i < decimal_text(n).len() implies is_decimal_char(
            #[trigger] decimal_text(n)[i],
        ) by {
            if i > 0 {
                assert(decimal_text(n)[i] == d[i - 1]);
            }
        }
    } else {
        lemma_digits_of_shape(n as nat);
    }
    assert forall|i: int| 0 <= i < decimal_text(n).len() implies '\0' <= #[trigger] decimal_text(
        n,
    )[i] <= '\u{7f}' by {
        assert(is_decimal_char(decimal_text(n)[i]));
    }
}

/// Reading the decimal text of an integer gives the integer back.
pub proof fn lemma_decimal_round_trip(n: int)
    ensures
        signed_value(decimal_text(n)) == Some(n),
{
    let s = decimal_text(n);
    if n < 0 {
        let d = digits_of((-n) as nat);
        lemma_digits_of_shape((-n) as nat);
        lemma_digits_round_trip((-n) as nat);
        assert(s[0] == '-');
        assert(unsigned_part(s) =~= d);
    } else {
        lemma_digits_of_shape(n as nat);
        lemma_digits_round_trip(n as nat);
        assert(is_digit(s[0]));
        assert(unsigned_part(s) =~= s);
    }
}

/// The decimal text of a 32-bit integer parses to that integer.
pub proof fn lemma_parse_decimal_text(n: i32)
    ensures
        parse_i32_text(decimal_text(n as int)) == Some(n),
{
    lemma_decimal_round_trip(n as int);
}

/// Different integers have different decimal texts.
pub proof fn lemma_decimal_text_injective(a: int, b: int)
    requires
        decimal_text(a) == decimal_text(b),
    ensures
        a == b,
{
    lemma_decimal_round_trip(a);
    lemma_decimal_round_trip(b);
}

/// The one-character text of the digit `d`.
fn digit_text(d: u32) -> (r: &'static str)
    requires
        d <= 9,
    ensures
        r@ == seq![digit_char(d as int)],
{
    proof {
        reveal_strlit("0");
        reveal_strlit("1");
        reveal_strlit("2");
        reveal_strlit("3");
        reveal_strlit("4");
        reveal_strlit("5");
        reveal_strlit("6");
        reveal_strlit("7");
        reveal_strlit("8");
        reveal_strlit("9");
    }
    let r = if d == 0 {
        "0"
    } else if d == 1 {
        "1"
    } else if d == 2 {
        "2"
    } else if d == 3 {
        "3"
    } else if d == 4 {
        "4"
    } else if d == 5 {
        "5"
    } else if d == 6 {
        "6"
    } else if d == 7 {
        "7"
    } else if d == 8 {
        "8"
    } else {
        "9"
    };
    assert(r@ =~= seq![digit_char(d as int)]);
    r
}

/// Appends the digits of `n` to `out`.
fn push_digits(out: &mut String, n: u32)
    ensures
        final(out)@ == old(out)@ + digits_of(n as nat),
    decreases n,
{
    if n >= 10 {
        push_digits(out, n / 10);
    }
    out.append(digit_text(n % 10));
    assert(out@ =~= old(out)@ + digits_of(n as nat));
}

/// Writes `n` as decimal text.
pub fn format_i32(n: i32) -> (r: String)
    ensures
        r@ == decimal_text(n as int),
{
    let mut out = String::new();
    if n < 0 {
        proof {
            reveal_strlit("-");
        }
        out.append("-");
        assert(out@ =~= seq!['-']);
        let magnitude: u32 = (-(n as i64)) as u32;
        push_digits(&mut out, magnitude);
    } else {
        push_digits(&mut out, n as u32);
        assert(out@ =~= digits_of(n as nat));
    }
    out
}

/// Reads `s` as a 32-bit integer: an optional `+` or `-`, then one or more
/// digits, denoting a value between `i32::MIN` and `i32::MAX`. Anything else
/// gives `None`.
pub fn parse_i32(s: &str) -> (r: Option<i32>)
    ensures
        r == parse_i32_text(s@),
{
    if !s.is_ascii() {
        proof {
            let i = choose|i: int| 0 <= i < s@.len() && !('\0' <= #[trigger] s@[i] <= '\u{7f}');
            let body = unsigned_part(s@);
            if has_sign(s@) {
                assert(i >= 1);
                assert(body[i - 1] == s@[i]);
                assert(!is_digit(body[i - 1]));
            } else {
                assert(!is_digit(body[i]));
            }
        }
        return None;
    }
    let bytes = s.as_bytes();
    let n = bytes.len();
    proof {
        is_ascii_spec_bytes(s);
        vstd::utf8::is_ascii_chars_nat_bound(s@);
    }
    assert(n == s@.len());
    assert forall|i: int| 0 <= i < n implies (#[trigger] s@[i]) as int == bytes@[i] as int by {
        assert((s@[i] as nat) < 128);
        assert(bytes@[i] == s@[i] as u8);
    }
    let negative = n > 0 && bytes[0] == 45;
    let start: usize = if n > 0 && (bytes[0] == 45 || bytes[0] == 43) {
        1
    } else {
        0
    };
    let ghost body = unsigned_part(s@);
    assert(has_sign(s@) <==> start == 1);
    assert(negative <==> (n > 0 && s@[0] == '-'));
    assert(body.len() == n - start);
    if start == n {
        return None;
    }
    let mut acc: i64 = 0;
    let mut i: usize = start;
    assert(body.subrange(0, 0) =~= Seq::<char>::empty());
    while i < n
        invariant
            start <= i <= n,
            n == s@.len(),
            bytes@.len() == n,
            body == unsigned_part(s@),
            body.len() == n - start,
            forall|j: int| 0 <= j < body.len() ==> body[j] == s@[j + start],
            forall|j: int| 0 <= j < n ==> (#[trigger] s@[j]) as int == bytes@[j] as int,
            all_digits(body.subrange(0, i - start)),
            acc == digits_value(body.subrange(0, i - start)),
            0 <= acc <= 2147483648,
        decreases n - i,
    {
        let b = bytes[i];
        let ghost k = i - start;
        assert(body[k] == s@[i as int]);
        assert(b as int == s@[i as int] as int);
        if b < 48 || b > 57 {
            assert(!is_digit(body[k]));
            return None;
        }
        assert(is_digit(body[k]));
        let ghost prefix = body.subrange(0, k + 1);
        proof {
            assert(prefix.drop_last() =~= body.subrange(0, k));
            assert(prefix.last() == body[k]);
            assert(all_digits(prefix)) by {
                assert forall|j: int| 0 <= j < prefix.len() implies is_digit(
                    #[trigger] prefix[j],
                ) by {
                    if j < k {
                        assert(body.subrange(0, k)[j] == prefix[j]);
                    }
                }
            }
        }
        acc = acc * 10 + (b - 48) as i64;
        assert(acc == digits_value(prefix));
        if acc > 2147483648 {
            proof {
                if all_digits(body) {
                    lemma_digits_value_prefix(body, k + 1);
                }
            }
            return None;
        }
        i = i + 1;
    }
    assert(body.subrange(0, n - start) =~= body);
    if negative {
        Some((-acc) as i32)
    } else if acc > 2147483647 {
        None
    } else {
        Some(acc as i32)
    }
}

} // verus!
