use vstd::prelude::*;
use vstd::string::{StrSliceExecFns, StringExecFns};

use crate::settings::{all_digits, digits_value, lemma_digits_push};
use crate::text::{lowercase_text, lowercased, strip_prefix_text};

verus! {

/// Seconds in a day.
pub const DAY_SECONDS: i64 = 86400;

/// How an operator named a user: by handle (after `@`) or by id.
pub enum UserReference {
    Username(String),
    Id(i64),
    Invalid,
}

pub enum UserReferenceView {
    Username(Seq<char>),
    Id(int),
    Invalid,
}

impl View for UserReference {
    type V = UserReferenceView;

    open spec fn view(&self) -> UserReferenceView {
        match self {
            UserReference::Username(u) => UserReferenceView::Username(u@),
            UserReference::Id(i) => UserReferenceView::Id(*i as int),
            UserReference::Invalid => UserReferenceView::Invalid,
        }
    }
}

/// The integer a text writes as `i64` reads it: an optional sign, then at least one digit, within range.
pub open spec fn integer_of(s: Seq<char>) -> Option<int> {
    let neg = s.len() > 0 && s[0] == '-';
    let body = if s.len() > 0 && (s[0] == '+' || s[0] == '-') {
        s.drop_first()
    } else {
        s
    };
    let v: int = if neg {
        -digits_value(body)
    } else {
        digits_value(body) as int
    };
    if body.len() > 0 && all_digits(body) && i64::MIN <= v <= i64::MAX {
        Some(v)
    } else {
        None
    }
}

/// The bound past which the value of a run of digits is no longer tracked.
const CAP: u128 = 9223372036854775809;

/// Reads a decimal `i64` as `str::parse` does.
pub fn parse_integer(s: &str) -> (r: Option<i64>)
    ensures
        match r {
            Some(v) => integer_of(s@) == Some(v as int),
            None => integer_of(s@) is None,
        },
{
    let n = s.unicode_len();
    let mut start: usize = 0;
    let mut neg = false;
    if n > 0 {
        let c0 = s.get_char(0);
        if c0 == '+' || c0 == '-' {
            start = 1;
            neg = c0 == '-';
        }
    }
    let ghost body = if s@.len() > 0 && (s@[0] == '+' || s@[0] == '-') { s@.drop_first() } else { s@ };
    assert(body =~= s@.subrange(start as int, n as int));
    if start == n {
        return None;
    }
    let mut value: u128 = 0;
    let mut i: usize = start;
    while i < n
        invariant
            start <= i <= n,
            n == s@.len(),
            body == s@.subrange(start as int, n as int),
            body == (if s@.len() > 0 && (s@[0] == '+' || s@[0] == '-') { s@.drop_first() } else { s@ }),
            neg == (s@.len() > 0 && s@[0] == '-'),
            all_digits(body.take(i - start)),
            value == (if digits_value(body.take(i - start)) < CAP { digits_value(body.take(i - start)) } else { CAP as nat }),
        decreases n - i,
    {
        let c = s.get_char(i);
        let ghost prev = body.take(i - start);
        assert(body.take(i + 1 - start) =~= prev.push(c));
        proof {
            lemma_digits_push(prev, c);
        }
        if !('0' <= c && c <= '9') {
            assert(body[i - start] == c);
            assert(!all_digits(body));
            return None;
        }
        let d = (c as u128) - ('0' as u128);
        if value < CAP {
            value = value * 10 + d;
            if value > CAP {
                value = CAP;
            }
        }
        i += 1;
    }
    assert(body.take(n - start) =~= body);
    if neg {
        if value > 9223372036854775808 {
            None
        } else if value == 9223372036854775808 {
            Some(i64::MIN)
        } else {
            Some(-(value as i64))
        }
    } else {
        if value > 9223372036854775807 {
            None
        } else {
            Some(value as i64)
        }
    }
}

/// A handle after `@`, otherwise an id; anything else names no one.
pub open spec fn reference_of(s: Seq<char>) -> UserReferenceView {
    if s.len() > 0 && s[0] == '@' {
        UserReferenceView::Username(s.drop_first())
    } else {
        match integer_of(s) {
            Some(v) => UserReferenceView::Id(v),
            None => UserReferenceView::Invalid,
        }
    }
}

/// Reads how an operator named a user.
pub fn parse_user_reference(input: &str) -> (r: UserReference)
    ensures
        r@ == reference_of(input@),
{
    let n = input.unicode_len();
    if n > 0 && input.get_char(0) == '@' {
        let rest = input.substring_char(1, n);
        assert(rest@ =~= input@.drop_first());
        return UserReference::Username(String::from_str(rest));
    }
    match parse_integer(input) {
        Some(v) => UserReference::Id(v),
        None => UserReference::Invalid,
    }
}

/// Handles are stored lower-cased.
pub fn stored_username(username: Option<&str>) -> (r: Option<String>)
    ensures
        match username {
            Some(u) => r matches Some(s) && s@ == lowercased(u@),
            None => r is None,
        },
{
    match username {
        Some(u) => Some(lowercase_text(u)),
        None => None,
    }
}

/// Whether a stored handle is to be replaced by the one just seen.
pub fn username_changed(stored: &Option<String>, seen: &Option<String>) -> (r: bool)
    ensures
        r == !(match (stored, seen) {
            (Some(a), Some(b)) => a@ == b@,
            (None, None) => true,
            _ => false,
        }),
{
    match (stored, seen) {
        (Some(a), Some(b)) => !(*a == *b),
        (None, None) => false,
        _ => true,
    }
}

/// When a subscription set at `now` ends: at once for the free level, else after the given days; `None` where
/// that time does not fit.
pub fn subscription_end(level: i32, days: i64, now: i64) -> (r: Option<i64>)
    ensures
        level == 0 ==> r == Some(now),
        level != 0 ==> match r {
            Some(e) => e == now + days * DAY_SECONDS,
            None => !(i64::MIN <= now + days * DAY_SECONDS <= i64::MAX),
        },
{
    if level == 0 {
        return Some(now);
    }
    let end = (now as i128) + (days as i128) * (DAY_SECONDS as i128);
    if end < i64::MIN as i128 || end > i64::MAX as i128 {
        None
    } else {
        Some(end as i64)
    }
}

/// How many users to skip to show the given page (counted from 1); `None` where that does not fit.
pub fn page_offset(page: i64, page_size: i64) -> (r: Option<i64>)
    ensures
        match r {
            Some(o) => o == (page - 1) * page_size,
            None => !(i64::MIN <= (page - 1) * page_size <= i64::MAX),
        },
{
    let a = (page as i128) - 1;
    let b = page_size as i128;
    assert(-0x8000_0000_0000_0001 <= a <= 0x7fff_ffff_ffff_fffe);
    assert(-0x8000_0000_0000_0000 <= b <= 0x7fff_ffff_ffff_ffff);
    assert(-0x4000_0000_0000_0000_8000_0000_0000_0000 <= a * b <= 0x4000_0000_0000_0000_8000_0000_0000_0000) by (nonlinear_arith)
        requires
            -0x8000_0000_0000_0001 <= a <= 0x7fff_ffff_ffff_fffe,
            -0x8000_0000_0000_0000 <= b <= 0x7fff_ffff_ffff_ffff,
    ;
    let o = a * b;
    if o < i64::MIN as i128 || o > i64::MAX as i128 {
        None
    } else {
        Some(o as i64)
    }
}

} // verus!
