use vstd::prelude::*;
use vstd::string::{StrSliceExecFns, StringExecFns};

verus! {

/// The characters with the Unicode White_Space property, which `str::trim` removes.
pub open spec fn is_white_space(c: char) -> bool {
    let u = c as u32;
    (0x9 <= u && u <= 0xD) || u == 0x20 || u == 0x85 || u == 0xA0 || u == 0x1680 || (0x2000 <= u && u <= 0x200A)
        || u == 0x2028 || u == 0x2029 || u == 0x202F || u == 0x205F || u == 0x3000
}

pub open spec fn trimmed_start(s: Seq<char>) -> Seq<char>
    decreases s.len(),
{
    if s.len() > 0 && is_white_space(s[0]) {
        trimmed_start(s.drop_first())
    } else {
        s
    }
}

pub open spec fn trimmed_end(s: Seq<char>) -> Seq<char>
    decreases s.len(),
{
    if s.len() > 0 && is_white_space(s.last()) {
        trimmed_end(s.drop_last())
    } else {
        s
    }
}

/// A text without its leading and trailing white space.
pub open spec fn trimmed(s: Seq<char>) -> Seq<char> {
    trimmed_end(trimmed_start(s))
}

/// What `str::to_lowercase` makes of a text.
pub uninterp spec fn lowercased(s: Seq<char>) -> Seq<char>;

/// The decimal digits of a natural number, most significant first.
pub open spec fn decimal_digits(n: nat) -> Seq<char>
    decreases n,
{
    if n < 10 {
        seq![digit_char(n)]
    } else {
        decimal_digits(n / 10).push(digit_char(n % 10))
    }
}

pub open spec fn digit_char(d: nat) -> char {
    if d < 10 {
        (d + 48) as char
    } else {
        '?'
    }
}

fn white_space(c: char) -> (r: bool)
    ensures
        r == is_white_space(c),
{
    let u = c as u32;
    (0x9 <= u && u <= 0xD) || u == 0x20 || u == 0x85 || u == 0xA0 || u == 0x1680 || (0x2000 <= u && u <= 0x200A)
        || u == 0x2028 || u == 0x2029 || u == 0x202F || u == 0x205F || u == 0x3000
}

/// The text without its leading and trailing white space, as `str::trim` gives it.
pub fn trim_text<'a>(s: &'a str) -> (r: &'a str)
    ensures
        r@ == trimmed(s@),
{
    let n = s.unicode_len();
    let mut a: usize = 0;
    assert(s@.subrange(0, n as int) =~= s@);
    while a < n && white_space(s.get_char(a))
        invariant
            a <= n,
            n == s@.len(),
            trimmed_start(s@) == trimmed_start(s@.subrange(a as int, n as int)),
        decreases n - a,
    {
        assert(s@.subrange(a as int, n as int).drop_first() =~= s@.subrange(a + 1, n as int));
        a += 1;
    }
    let ghost t = s@.subrange(a as int, n as int);
    assert(trimmed_start(s@) == t);
    let mut b: usize = n;
    assert(t =~= s@.subrange(a as int, b as int));
    while b > a && white_space(s.get_char(b - 1))
        invariant
            a <= b <= n,
            n == s@.len(),
            t == s@.subrange(a as int, n as int),
            trimmed_end(t) == trimmed_end(s@.subrange(a as int, b as int)),
        decreases b,
    {
        assert(s@.subrange(a as int, b as int).drop_last() =~= s@.subrange(a as int, b - 1));
        b -= 1;
    }
    assert(trimmed_end(t) == s@.subrange(a as int, b as int));
    s.substring_char(a, b)
}

/// Relies on `str::to_lowercase`: the lower-case form of every character.
#[verifier::external_body]
pub(crate) fn lowercase_text(s: &str) -> (r: String)
    ensures
        r@ == lowercased(s@),
{
    s.to_lowercase()
}

fn digit_text(d: u64) -> (r: &'static str)
    requires
        d < 10,
    ensures
        r@ == seq![digit_char(d as nat)],
{
    if d == 0 {
        proof { reveal_strlit("0"); }
        "0"
    } else if d == 1 {
        proof { reveal_strlit("1"); }
        "1"
    } else if d == 2 {
        proof { reveal_strlit("2"); }
        "2"
    } else if d == 3 {
        proof { reveal_strlit("3"); }
        "3"
    } else if d == 4 {
        proof { reveal_strlit("4"); }
        "4"
    } else if d == 5 {
        proof { reveal_strlit("5"); }
        "5"
    } else if d == 6 {
        proof { reveal_strlit("6"); }
        "6"
    } else if d == 7 {
        proof { reveal_strlit("7"); }
        "7"
    } else if d == 8 {
        proof { reveal_strlit("8"); }
        "8"
    } else {
        proof { reveal_strlit("9"); }
        "9"
    }
}

/// The decimal form of a number, without sign or leading zeros, as `u64`'s `to_string` gives it.
pub fn decimal_text(n: u64) -> (r: String)
    ensures
        r@ == decimal_digits(n as nat),
    decreases n,
{
    if n < 10 {
        String::from_str(digit_text(n))
    } else {
        let mut s = decimal_text(n / 10);
        s.append(digit_text(n % 10));
        s
    }
}

/// The trimmed, lower-cased form in which answers and settings tokens are compared.
pub fn normalized(s: &str) -> (r: String)
    ensures
        r@ == lowercased(trimmed(s@)),
{
    let t = trim_text(s);
    lowercase_text(t)
}

/// Whether two texts hold the same characters.
pub fn same_text(a: &str, b: &str) -> (r: bool)
    ensures
        r == (a@ == b@),
{
    let x = a.to_owned();
    let y = b.to_owned();
    x == y
}

/// The text that follows `prefix` in `s`, when `s` starts with it.
pub fn strip_prefix_text<'a>(s: &'a str, prefix: &str) -> (r: Option<&'a str>)
    ensures
        match r {
            Some(rest) => s@.len() >= prefix@.len() && s@.subrange(0, prefix@.len() as int)
                == prefix@ && rest@ == s@.subrange(prefix@.len() as int, s@.len() as int),
            None => !(s@.len() >= prefix@.len() && s@.subrange(0, prefix@.len() as int)
                == prefix@),
        },
{
    let n = s.unicode_len();
    let p = prefix.unicode_len();
    if p > n {
        return None;
    }
    let head = s.substring_char(0, p);
    if same_text(head, prefix) {
        Some(s.substring_char(p, n))
    } else {
        None
    }
}

/// A copy of `s` followed by `t`.
pub fn joined(s: &str, t: &str) -> (r: String)
    ensures
        r@ == s@ + t@,
{
    let mut out = String::from_str(s);
    out.append(t);
    out
}

} // verus!
