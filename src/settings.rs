use vstd::prelude::*;
use vstd::arithmetic::div_mod::lemma_fundamental_div_mod_converse;
use vstd::string::StrSliceExecFns;

verus! {

pub open spec fn is_digit(c: char) -> bool {
    '0' <= c && c <= '9'
}

pub open spec fn digit_value(c: char) -> nat {
    (c as nat - '0' as nat) as nat
}

pub open spec fn all_digits(s: Seq<char>) -> bool {
    forall|i: int| 0 <= i < s.len() ==> is_digit(#[trigger] s[i])
}

pub open spec fn all_zeros(s: Seq<char>) -> bool {
    forall|i: int| 0 <= i < s.len() ==> #[trigger] s[i] == '0'
}

/// The number a run of decimal digits writes.
pub open spec fn digits_value(s: Seq<char>) -> nat
    decreases s.len(),
{
    if s.len() == 0 {
        0
    } else {
        digits_value(s.drop_last()) * 10 + digit_value(s.last())
    }
}

/// The text after an optional leading sign.
pub open spec fn unsigned_part(s: Seq<char>) -> Seq<char> {
    if s.len() > 0 && (s[0] == '+' || s[0] == '-') {
        s.drop_first()
    } else {
        s
    }
}

pub open spec fn negative(s: Seq<char>) -> bool {
    s.len() > 0 && s[0] == '-'
}

/// The position of the first `.` in a text, or its length where it has none.
/// Ten to the power `n`.
pub open spec fn pow10(n: nat) -> nat
    decreases n,
{
    if n == 0 {
        1
    } else {
        10 * pow10((n - 1) as nat)
    }
}

/// The position of the first `.` in a text, or its length where it has none.
pub open spec fn first_dot(s: Seq<char>) -> int
    decreases s.len(),
{
    if s.len() == 0 {
        0
    } else if s[0] == '.' {
        0
    } else {
        1 + first_dot(s.drop_first())
    }
}

/// The position of the first `e` or `E` in a text, or its length where it has none.
pub open spec fn first_exponent_mark(s: Seq<char>) -> int
    decreases s.len(),
{
    if s.len() == 0 {
        0
    } else if s[0] == 'e' || s[0] == 'E' {
        0
    } else {
        1 + first_exponent_mark(s.drop_first())
    }
}

/// The text before the exponent, sign removed.
pub open spec fn mantissa_text(s: Seq<char>) -> Seq<char> {
    let u = unsigned_part(s);
    u.take(first_exponent_mark(u))
}

pub open spec fn has_exponent(s: Seq<char>) -> bool {
    let u = unsigned_part(s);
    first_exponent_mark(u) < u.len()
}

/// The text after the exponent mark, with its sign.
pub open spec fn exponent_text(s: Seq<char>) -> Seq<char> {
    let u = unsigned_part(s);
    if has_exponent(s) {
        u.skip(first_exponent_mark(u) + 1)
    } else {
        Seq::empty()
    }
}

pub open spec fn exponent_digits(s: Seq<char>) -> Seq<char> {
    unsigned_part(exponent_text(s))
}

/// The exponent written, zero where there is none.
pub open spec fn exponent_value(s: Seq<char>) -> int {
    if !has_exponent(s) {
        0
    } else if negative(exponent_text(s)) {
        -digits_value(exponent_digits(s))
    } else {
        digits_value(exponent_digits(s)) as int
    }
}

pub open spec fn integer_digits(s: Seq<char>) -> Seq<char> {
    let m = mantissa_text(s);
    m.take(first_dot(m))
}

pub open spec fn fraction_digits(s: Seq<char>) -> Seq<char> {
    let m = mantissa_text(s);
    if first_dot(m) < m.len() {
        m.skip(first_dot(m) + 1)
    } else {
        Seq::empty()
    }
}

/// The digits of the mantissa, point removed.
pub open spec fn mantissa_digits(s: Seq<char>) -> Seq<char> {
    integer_digits(s) + fraction_digits(s)
}

/// A real number as `f64` reads it, in plain or exponent notation: an optional sign, digits with an optional
/// point, at least one digit in all, then optionally `e` or `E`, an optional sign and at least one digit.
pub open spec fn decimal_syntax(s: Seq<char>) -> bool {
    &&& all_digits(integer_digits(s))
    &&& all_digits(fraction_digits(s))
    &&& integer_digits(s).len() + fraction_digits(s).len() > 0
    &&& has_exponent(s) ==> exponent_digits(s).len() > 0 && all_digits(exponent_digits(s))
}

/// The power of ten that scales the mantissa's digits.
pub open spec fn scale(s: Seq<char>) -> int {
    exponent_value(s) - fraction_digits(s).len()
}

/// The number written, without its sign, is `numerator(s) / denominator(s)`.
pub open spec fn numerator(s: Seq<char>) -> nat {
    digits_value(mantissa_digits(s)) * pow10(if scale(s) >= 0 { scale(s) as nat } else { 0 })
}

pub open spec fn denominator(s: Seq<char>) -> nat {
    pow10(if scale(s) < 0 { (-scale(s)) as nat } else { 0 })
}

/// Whether the number written lies in [0, 2]: a negative sign is only allowed on zero.
pub open spec fn temperature_in_range(s: Seq<char>) -> bool {
    &&& numerator(s) <= 2 * denominator(s)
    &&& negative(s) ==> numerator(s) == 0
}

/// The number written, in thousandths, rounded down.
pub open spec fn temperature_thousandths(s: Seq<char>) -> nat {
    numerator(s) * 1000 / denominator(s)
}

/// What a temperature entry yields: its value in thousandths, or nothing when it is not a number in [0, 2].
pub open spec fn temperature_of(s: Seq<char>) -> Option<nat> {
    if decimal_syntax(s) && temperature_in_range(s) {
        Some(temperature_thousandths(s))
    } else {
        None
    }
}

/// The value of a run of digits grows by one digit as it is extended by one.
pub proof fn lemma_digits_push(s: Seq<char>, c: char)
    ensures
        digits_value(s.push(c)) == digits_value(s) * 10 + digit_value(c),
{
    assert(s.push(c).drop_last() =~= s);
}

proof fn lemma_pow10_adds(a: nat, b: nat)
    ensures
        pow10(a + b) == pow10(a) * pow10(b),
    decreases b,
{
    if b > 0 {
        lemma_pow10_adds(a, (b - 1) as nat);
        assert((a + b - 1) as nat == a + ((b - 1) as nat));
        assert(pow10(a + b) == 10 * pow10((a + b - 1) as nat));
        assert(pow10(b) == 10 * pow10((b - 1) as nat));
        assert(10 * (pow10(a) * pow10((b - 1) as nat)) == pow10(a) * (10 * pow10((b - 1) as nat))) by (nonlinear_arith);
    } else {
        assert(pow10(0) == 1);
        assert(a + b == a);
    }
}

proof fn lemma_pow10_small()
    ensures
        pow10(0) == 1,
        pow10(1) == 10,
        pow10(2) == 100,
        pow10(3) == 1000,
{
    assert(pow10(1) == 10 * pow10(0));
    assert(pow10(2) == 10 * pow10(1));
    assert(pow10(3) == 10 * pow10(2));
}

proof fn lemma_pow10_grows(a: nat, b: nat)
    requires
        a <= b,
    ensures
        1 <= pow10(a) <= pow10(b),
    decreases b,
{
    if b > a {
        lemma_pow10_grows(a, (b - 1) as nat);
    } else if a > 0 {
        lemma_pow10_grows(0, (a - 1) as nat);
    }
}

proof fn lemma_digits_facts(s: Seq<char>)
    requires
        all_digits(s),
    ensures
        digits_value(s) < pow10(s.len()),
        (digits_value(s) == 0) == all_zeros(s),
    decreases s.len(),
{
    if s.len() > 0 {
        let t = s.drop_last();
        assert(all_digits(t)) by {
            assert forall|i: int| 0 <= i < t.len() implies is_digit(#[trigger] t[i]) by {
                assert(t[i] == s[i]);
            }
        }
        lemma_digits_facts(t);
        let d = digit_value(s.last());
        assert(is_digit(s[s.len() - 1]));
        assert(d <= 9);
        assert(digits_value(t) * 10 + d < 10 * pow10(t.len())) by (nonlinear_arith)
            requires
                digits_value(t) < pow10(t.len()),
                d <= 9,
        ;
        if all_zeros(s) {
            assert(all_zeros(t)) by {
                assert forall|i: int| 0 <= i < t.len() implies #[trigger] t[i] == '0' by {
                    assert(t[i] == s[i]);
                }
            }
            assert(s[s.len() - 1] == '0');
        }
        if digits_value(s) == 0 {
            assert(digits_value(t) == 0 && d == 0) by (nonlinear_arith)
                requires
                    digits_value(t) * 10 + d == 0,
            ;
            assert forall|i: int| 0 <= i < s.len() implies #[trigger] s[i] == '0' by {
                if i < t.len() {
                    assert(t[i] == s[i]);
                }
            }
        }
    }
}

proof fn lemma_digits_split(s: Seq<char>, i: int)
    requires
        all_digits(s),
        0 <= i <= s.len(),
    ensures
        digits_value(s) == digits_value(s.take(i)) * pow10((s.len() - i) as nat) + digits_value(s.skip(i)),
    decreases s.len(),
{
    if i == s.len() {
        assert(s.take(i) =~= s);
        assert(s.skip(i) =~= Seq::<char>::empty());
        assert(pow10(0) == 1);
        assert((s.len() - i) as nat == 0);
        assert(digits_value(s.take(i)) == digits_value(s));
        assert(digits_value(s.skip(i)) == 0);
        assert(digits_value(s) * pow10(0) == digits_value(s));
    } else {
        let t = s.drop_last();
        assert(all_digits(t)) by {
            assert forall|k: int| 0 <= k < t.len() implies is_digit(#[trigger] t[k]) by {
                assert(t[k] == s[k]);
            }
        }
        lemma_digits_split(t, i);
        assert(t.take(i) =~= s.take(i));
        assert(s.skip(i).drop_last() =~= t.skip(i));
        let p = digits_value(s.take(i));
        let q = pow10((t.len() - i) as nat);
        let r = digits_value(t.skip(i));
        let d = digit_value(s.last());
        assert(digits_value(s) == digits_value(t) * 10 + d);
        assert(s.skip(i).len() > 0);
        assert(s.skip(i).last() == s.last());
        assert(digits_value(s.skip(i)) == r * 10 + d);
        assert(pow10((s.len() - i) as nat) == 10 * q);
        assert((p * q + r) * 10 + d == p * (10 * q) + (r * 10 + d)) by (nonlinear_arith);
        assert(digits_value(t) == p * q + r);
        assert(digits_value(s) == p * (10 * q) + (r * 10 + d));
        assert(digits_value(s) == p * pow10((s.len() - i) as nat) + digits_value(s.skip(i)));
    }
}

proof fn lemma_first_dot_bounds(s: Seq<char>)
    ensures
        0 <= first_dot(s) <= s.len(),
        first_dot(s) < s.len() ==> s[first_dot(s)] == '.',
        forall|j: int| 0 <= j < first_dot(s) ==> s[j] != '.',
    decreases s.len(),
{
    if s.len() > 0 && s[0] != '.' {
        lemma_first_dot_bounds(s.drop_first());
        assert forall|j: int| 0 <= j < first_dot(s) implies s[j] != '.' by {
            if j > 0 {
                assert(s[j] == s.drop_first()[j - 1]);
            }
        }
    }
}

proof fn lemma_first_dot_is(s: Seq<char>, k: int)
    requires
        0 <= k <= s.len(),
        k < s.len() ==> s[k] == '.',
        forall|j: int| 0 <= j < k ==> s[j] != '.',
    ensures
        first_dot(s) == k,
    decreases s.len(),
{
    if s.len() > 0 && k > 0 {
        assert(s[0] != '.');
        lemma_first_dot_is(s.drop_first(), k - 1);
    }
}

proof fn lemma_first_mark_is(s: Seq<char>, k: int)
    requires
        0 <= k <= s.len(),
        k < s.len() ==> (s[k] == 'e' || s[k] == 'E'),
        forall|j: int| 0 <= j < k ==> s[j] != 'e' && s[j] != 'E',
    ensures
        first_exponent_mark(s) == k,
    decreases s.len(),
{
    if s.len() > 0 && k > 0 {
        assert(s[0] != 'e' && s[0] != 'E');
        lemma_first_mark_is(s.drop_first(), k - 1);
    }
}

/// The bound at which the value of digits stops being tracked: one past the highest temperature.
const CAP: u32 = 2001;

/// The value of digits `from..to`, or `CAP` where it is higher.
fn capped_value(d: &Vec<char>, from: usize, to: usize) -> (v: u32)
    requires
        all_digits(d@),
        from <= to <= d@.len(),
    ensures
        v == (if digits_value(d@.subrange(from as int, to as int)) < CAP { digits_value(
            d@.subrange(from as int, to as int),
        ) } else { CAP as nat }),
{
    let mut v: u32 = 0;
    let mut i: usize = from;
    assert(d@.subrange(from as int, from as int) =~= Seq::<char>::empty());
    while i < to
        invariant
            from <= i <= to <= d@.len(),
            all_digits(d@),
            v == (if digits_value(d@.subrange(from as int, i as int)) < CAP { digits_value(
                d@.subrange(from as int, i as int),
            ) } else { CAP as nat }),
        decreases to - i,
    {
        let c = d[i];
        assert(is_digit(d@[i as int]));
        let ghost prev = d@.subrange(from as int, i as int);
        assert(d@.subrange(from as int, i + 1) =~= prev.push(c));
        proof {
            lemma_digits_push(prev, c);
        }
        let x = (c as u32) - ('0' as u32);
        if v < CAP {
            v = v * 10 + x;
            if v > CAP {
                v = CAP;
            }
        }
        i += 1;
    }
    v
}

/// Whether digits `from..to` are all zeros.
fn zeros(d: &Vec<char>, from: usize, to: usize) -> (r: bool)
    requires
        from <= to <= d@.len(),
    ensures
        r == all_zeros(d@.subrange(from as int, to as int)),
{
    let mut i: usize = from;
    while i < to
        invariant
            from <= i <= to <= d@.len(),
            forall|k: int| from <= k < i ==> d@[k] == '0',
        decreases to - i,
    {
        if d[i] != '0' {
            assert(d@.subrange(from as int, to as int)[i - from] != '0');
            return false;
        }
        i += 1;
    }
    assert forall|k: int| 0 <= k < to - from implies #[trigger] d@.subrange(from as int, to as int)[k] == '0' by {
        assert(d@.subrange(from as int, to as int)[k] == d@[from + k]);
    }
    true
}

/// The magnitude of the exponent written, and whether it is negative.
pub open spec fn exponent_magnitude(s: Seq<char>) -> int {
    if exponent_value(s) < 0 {
        -exponent_value(s)
    } else {
        exponent_value(s)
    }
}

#[verifier::rlimit(60)]
/// Reads the parts of a real number: the mantissa's digits, how many follow the point, and the exponent's
/// magnitude, kept up to eight past the length of the text, and its sign.
fn number_parts(s: &str) -> (r: Option<(Vec<char>, usize, u128, bool)>)
    ensures
        match r {
            None => !decimal_syntax(s@),
            Some((digits, f, e_mag, e_neg)) => {
                &&& decimal_syntax(s@)
                &&& digits@ == mantissa_digits(s@)
                &&& all_digits(digits@)
                &&& f == fraction_digits(s@).len()
                &&& f <= s@.len()
                &&& digits@.len() <= s@.len()
                &&& e_mag == (if exponent_magnitude(s@) < s@.len() + 8 { exponent_magnitude(s@) } else { s@.len() + 8int })
                &&& (e_neg ==> exponent_value(s@) <= 0)
                &&& (!e_neg ==> exponent_value(s@) >= 0)
            },
        },
{
    let n = s.unicode_len();
    let mut start: usize = 0;
    let mut neg = false;
    if n > 0 {
        let c0 = s.get_char(0);
        if c0 == '+' || c0 == '-' {
            start = 1;
            neg = c0 == '-';
        }
    }
    let ghost u = unsigned_part(s@);
    assert(u =~= s@.subrange(start as int, n as int));
    assert(neg == negative(s@));
    // the exponent mark
    let mut x: usize = start;
    while x < n && s.get_char(x) != 'e' && s.get_char(x) != 'E'
        invariant
            start <= x <= n,
            n == s@.len(),
            u == s@.subrange(start as int, n as int),
            u == unsigned_part(s@),
            forall|j: int| 0 <= j < x - start ==> u[j] != 'e' && u[j] != 'E',
        decreases n - x,
    {
        x += 1;
    }
    proof {
        lemma_first_mark_is(u, x - start);
    }
    let ghost m = mantissa_text(s@);
    assert(m =~= s@.subrange(start as int, x as int));
    // the point
    let mut d: usize = start;
    while d < x && s.get_char(d) != '.'
        invariant
            start <= d <= x <= n,
            n == s@.len(),
            m == s@.subrange(start as int, x as int),
            m == mantissa_text(s@),
            forall|j: int| 0 <= j < d - start ==> m[j] != '.',
        decreases x - d,
    {
        d += 1;
    }
    proof {
        lemma_first_dot_is(m, d - start);
    }
    let ghost ip = integer_digits(s@);
    let ghost fp = fraction_digits(s@);
    assert(ip =~= s@.subrange(start as int, d as int));
    let fstart: usize = if d < x { d + 1 } else { x };
    assert(fp =~= s@.subrange(fstart as int, x as int));
    // the mantissa's digits
    let mut digits: Vec<char> = Vec::new();
    let mut i: usize = start;
    while i < d
        invariant
            start <= i <= d <= n,
            n == s@.len(),
            ip == s@.subrange(start as int, d as int),
            ip == integer_digits(s@),
            digits@ =~= s@.subrange(start as int, i as int),
            all_digits(digits@),
        decreases d - i,
    {
        let c = s.get_char(i);
        if !('0' <= c && c <= '9') {
            assert(ip[i - start] == c);
            assert(!all_digits(integer_digits(s@)));
            return None;
        }
        digits.push(c);
        i += 1;
    }
    let mut i: usize = fstart;
    while i < x
        invariant
            fstart <= i <= x <= n,
            n == s@.len(),
            ip == s@.subrange(start as int, d as int),
            fp == s@.subrange(fstart as int, x as int),
            ip == integer_digits(s@),
            fp == fraction_digits(s@),
            all_digits(ip),
            digits@ =~= ip + s@.subrange(fstart as int, i as int),
            all_digits(digits@),
        decreases x - i,
    {
        let c = s.get_char(i);
        if !('0' <= c && c <= '9') {
            assert(fp[i - fstart] == c);
            assert(!all_digits(fraction_digits(s@)));
            return None;
        }
        digits.push(c);
        i += 1;
    }
    let ghost dd = mantissa_digits(s@);
    assert(dd =~= digits@);
    if digits.len() == 0 {
        return None;
    }
    // the exponent, its magnitude kept up to a bound past which the outcome no longer changes
    let bound: u128 = n as u128 + 8;
    let mut e_mag: u128 = 0;
    let mut e_neg = false;
    if x < n {
        let ghost et = exponent_text(s@);
        assert(et =~= s@.subrange(x + 1, n as int));
        let mut p: usize = x + 1;
        if p < n {
            let c = s.get_char(p);
            if c == '+' || c == '-' {
                e_neg = c == '-';
                p = p + 1;
            }
        }
        assert(e_neg == negative(et));
        let ghost ed = exponent_digits(s@);
        assert(ed =~= s@.subrange(p as int, n as int));
        if p == n {
            return None;
        }
        let pstart = p;
        while p < n
            invariant
                pstart <= p <= n,
                n == s@.len(),
                bound == n as u128 + 8,
                ed == s@.subrange(pstart as int, n as int),
                ed == exponent_digits(s@),
                all_digits(ed.take(p - pstart)),
                e_mag == (if digits_value(ed.take(p - pstart)) < bound { digits_value(ed.take(p - pstart)) } else { bound as nat }),
            decreases n - p,
        {
            let c = s.get_char(p);
            let ghost prev = ed.take(p - pstart);
            assert(ed.take(p + 1 - pstart) =~= prev.push(c));
            proof {
                lemma_digits_push(prev, c);
            }
            if !('0' <= c && c <= '9') {
                assert(ed[p - pstart] == c);
                assert(!all_digits(exponent_digits(s@)));
                return None;
            }
            let v = (c as u128) - ('0' as u128);
            if e_mag < bound {
                e_mag = e_mag * 10 + v;
                if e_mag > bound {
                    e_mag = bound;
                }
            }
            p += 1;
        }
        assert(ed.take(n - pstart) =~= ed);
        assert(has_exponent(s@));
    } else {
        assert(!has_exponent(s@));
    }
    assert(all_digits(digits@) ==> all_digits(fp)) by {
        if all_digits(digits@) {
            assert forall|q: int| 0 <= q < fp.len() implies is_digit(#[trigger] fp[q]) by {
                assert(fp[q] == digits@[ip.len() + q]);
            }
        }
    }
    assert(decimal_syntax(s@));
    Some((digits, x - fstart, e_mag, e_neg))
}


/// Reads a temperature entry written as a real number, in plain or exponent notation; `None` when it is not a
/// number in [0, 2].
pub fn parse_temperature(s: &str) -> (r: Option<u32>)
    ensures
        match r {
            Some(v) => temperature_of(s@) == Some(v as nat),
            None => temperature_of(s@) is None,
        },
{
    let n = s.unicode_len();
    let neg = n > 0 && s.get_char(0) == '-';
    assert(neg == negative(s@));
    let (digits, f, e_mag, e_neg) = match number_parts(s) {
        None => return None,
        Some(p) => p,
    };
    let bound: u128 = n as u128 + 8;
    let ghost dd = mantissa_digits(s@);
    let ghost fp = fraction_digits(s@);
    proof {
        lemma_pow10_small();
    }
    let ghost e = exponent_value(s@);
    let ghost dv = digits_value(dd);
    let all_zero = zeros(&digits, 0, digits.len());
    assert(digits@.subrange(0, digits@.len() as int) =~= digits@);
    proof {
        lemma_digits_facts(dd);
        lemma_pow10_grows(0, 0);
    }
    if neg && !all_zero {
        proof {
            if scale(s@) >= 0 {
                lemma_pow10_grows(0, scale(s@) as nat);
                assert(dv * pow10(scale(s@) as nat) >= 1) by (nonlinear_arith)
                    requires
                        dv >= 1,
                        pow10(scale(s@) as nat) >= 1,
                ;
            }
        }
        return None;
    }
    if e_mag >= bound {
        // the magnitude of the exponent is past the length of the text
        if !e_neg {
            assert(e >= n + 8);
            if all_zero {
                assert(dv == 0);
                let ghost big = pow10(scale(s@) as nat);
                assert(numerator(s@) == dv * big);
                assert(dv * big == 0) by (nonlinear_arith)
                    requires
                        dv == 0,
                ;
                assert(numerator(s@) == 0);
                assert(0 * 1000 / denominator(s@) == 0) by {
                    lemma_pow10_grows(0, if scale(s@) < 0 { (-scale(s@)) as nat } else { 0 });
                }
                return Some(0);
            }
            proof {
                lemma_pow10_grows(1, scale(s@) as nat);
                assert(pow10(1) == 10);
                assert(dv * pow10(scale(s@) as nat) >= 10) by (nonlinear_arith)
                    requires
                        dv >= 1,
                        pow10(scale(s@) as nat) >= 10,
                ;
            }
            return None;
        } else {
            assert(e <= -(n + 8));
            let ghost k = (-scale(s@)) as nat;
            proof {
                lemma_pow10_grows(digits@.len() as nat, (k - 3) as nat);
                lemma_pow10_adds((k - 3) as nat, 3);
                assert(pow10(3) == 1000);
                assert(dv * 1000 < pow10(k)) by (nonlinear_arith)
                    requires
                        dv < pow10(digits@.len() as nat),
                        pow10(digits@.len() as nat) <= pow10((k - 3) as nat),
                        pow10(k) == pow10((k - 3) as nat) * 1000,
                ;
                lemma_fundamental_div_mod_converse((dv * 1000) as int, pow10(k) as int, 0, (dv * 1000) as int);
            }
            return Some(0);
        }
    }
    let ev: i128 = if e_neg { -(e_mag as i128) } else { e_mag as i128 };
    assert(ev == e);
    let j: i128 = ev - (f as i128) + 3;
    if j >= 0 {
        let mut v = capped_value(&digits, 0, digits.len());
        assert(dv * pow10(0) == dv);
        let mut t: i128 = 0;
        while t < j && v != 0 && v < CAP
            invariant
                0 <= t <= j,
                v == (if dv * pow10(t as nat) < CAP { dv * pow10(t as nat) } else { CAP as nat }),
            decreases j - t,
        {
            assert(pow10((t + 1) as nat) == 10 * pow10(t as nat));
            assert(dv * pow10((t + 1) as nat) == 10 * (dv * pow10(t as nat))) by (nonlinear_arith)
                requires
                    pow10((t + 1) as nat) == 10 * pow10(t as nat),
            ;
            v = v * 10;
            if v > CAP {
                v = CAP;
            }
            t += 1;
        }
        let ghost tj = j as nat;
        proof {
            lemma_pow10_grows(t as nat, tj);
            lemma_pow10_adds(t as nat, (tj - t) as nat);
            if t < j {
                if v == 0 {
                    assert(dv == 0) by (nonlinear_arith)
                        requires
                            dv * pow10(t as nat) == 0,
                            pow10(t as nat) >= 1,
                    ;
                } else {
                    assert(dv * pow10(tj) >= dv * pow10(t as nat)) by (nonlinear_arith)
                        requires
                            pow10(t as nat) <= pow10(tj),
                    ;
                }
            }
            assert(pow10(3) == 1000);
            if scale(s@) >= 0 {
                lemma_pow10_adds(scale(s@) as nat, 3);
                assert(numerator(s@) * 1000 == dv * pow10(tj)) by (nonlinear_arith)
                    requires
                        numerator(s@) == dv * pow10(scale(s@) as nat),
                        pow10(tj) == pow10(scale(s@) as nat) * 1000,
                ;
                assert(denominator(s@) == 1);
            } else {
                let k = (-scale(s@)) as nat;
                assert(numerator(s@) == dv * pow10(0));
                assert(numerator(s@) == dv);
                lemma_pow10_adds(tj, k);
                assert(pow10(tj) * pow10(k) == 1000);
                assert(numerator(s@) * 1000 == dv * pow10(tj) * pow10(k)) by (nonlinear_arith)
                    requires
                        numerator(s@) == dv,
                        pow10(tj) * pow10(k) == 1000,
                ;
                lemma_fundamental_div_mod_converse((numerator(s@) * 1000) as int, pow10(k) as int, (dv * pow10(tj)) as int, 0);
                assert((numerator(s@) <= 2 * denominator(s@)) == (dv * pow10(tj) <= 2000)) by (nonlinear_arith)
                    requires
                        numerator(s@) == dv,
                        denominator(s@) == pow10(k),
                        pow10(tj) * pow10(k) == 1000,
                        pow10(k) >= 1,
                ;
            }
        }
        if v > 2000 {
            return None;
        }
        return Some(v);
    }
    // fewer than three decimals of the value are whole: it is the leading digits, shifted
    let mm: i128 = -j;
    let len = digits.len();
    let ghost m_nat = mm as nat;
    let ghost k = m_nat + 3;
    proof {
        assert(scale(s@) == -(k as int));
        lemma_pow10_adds(m_nat, 3);
        assert(pow10(3) == 1000);
        assert(denominator(s@) == pow10(m_nat) * 1000);
        assert(numerator(s@) == dv * pow10(0));
        assert(numerator(s@) == dv);
    }
    if mm >= len as i128 {
        proof {
            lemma_pow10_grows(len as nat, m_nat);
            lemma_fundamental_div_mod_converse((dv * 1000) as int, (pow10(m_nat) * 1000) as int, 0, (dv * 1000) as int);
        }
        return Some(0);
    }
    let cut: usize = len - (mm as usize);
    let ghost pv = digits_value(dd.take(cut as int));
    let ghost rv = digits_value(dd.skip(cut as int));
    proof {
        lemma_digits_split(dd, cut as int);
        assert(dd.skip(cut as int) =~= digits@.subrange(cut as int, len as int));
        assert(dd.take(cut as int) =~= digits@.subrange(0, cut as int));
        assert(all_digits(dd.skip(cut as int))) by {
            assert forall|q: int| 0 <= q < dd.skip(cut as int).len() implies is_digit(#[trigger] dd.skip(cut as int)[q]) by {
                assert(dd.skip(cut as int)[q] == dd[cut + q]);
            }
        }
        lemma_digits_facts(dd.skip(cut as int));
        assert(dd.skip(cut as int).len() == m_nat);
        assert((dd.len() - cut) as nat == m_nat);
        assert(dv == pv * pow10(m_nat) + rv);
        assert(dv * 1000 == pv * (pow10(m_nat) * 1000) + rv * 1000) by (nonlinear_arith)
            requires
                dv == pv * pow10(m_nat) + rv,
        ;
        assert(rv * 1000 < pow10(m_nat) * 1000) by (nonlinear_arith)
            requires
                rv < pow10(m_nat),
        ;
        lemma_fundamental_div_mod_converse((dv * 1000) as int, (pow10(m_nat) * 1000) as int, pv as int, (rv * 1000) as int);
    }
    let q = capped_value(&digits, 0, cut);
    let rest_zero = zeros(&digits, cut, len);
    proof {
        assert((dv <= 2 * (pow10(m_nat) * 1000)) == (pv < 2000 || (pv == 2000 && rv == 0))) by (nonlinear_arith)
            requires
                dv == pv * pow10(m_nat) + rv,
                rv < pow10(m_nat),
                pow10(m_nat) >= 1,
        ;
    }
    if q < 2000 || (q == 2000 && rest_zero) {
        Some(q)
    } else {
        None
    }
}

} // verus!
