//! Character classes and small string utilities shared by the validators:
//! ASCII character predicates, character-wise string equality, and decimal
//! parsing of signed 64-bit integers (the format of the session cookie).

use vstd::prelude::*;
use vstd::string::*;

verus! {

pub open spec fn is_digit(c: char) -> bool {
    '0' <= c && c <= '9'
}

pub open spec fn is_lower(c: char) -> bool {
    'a' <= c && c <= 'z'
}

pub open spec fn is_upper(c: char) -> bool {
    'A' <= c && c <= 'Z'
}

pub open spec fn is_alpha(c: char) -> bool {
    is_lower(c) || is_upper(c)
}

pub open spec fn is_alnum(c: char) -> bool {
    is_digit(c) || is_alpha(c)
}

pub fn check_digit(c: char) -> (r: bool)
    ensures
        r == is_digit(c),
{
    '0' <= c && c <= '9'
}

pub fn check_alpha(c: char) -> (r: bool)
    ensures
        r == is_alpha(c),
{
    ('a' <= c && c <= 'z') || ('A' <= c && c <= 'Z')
}

pub fn check_alnum(c: char) -> (r: bool)
    ensures
        r == is_alnum(c),
{
    check_digit(c) || check_alpha(c)
}

/// The characters of a string slice as a vector, for index-based scanning.
pub fn chars_of(s: &str) -> (v: Vec<char>)
    ensures
        v@ == s@,
{
    let n = s.unicode_len();
    let mut v: Vec<char> = Vec::new();
    let mut i: usize = 0;
    while i < n
        invariant
            n == s@.len(),
            i <= n,
            v@ == s@.take(i as int),
        decreases n - i,
    {
        v.push(s.get_char(i));
        assert(v@ =~= s@.take(i + 1));
        i += 1;
    }
    assert(v@ =~= s@);
    v
}

/// Character-wise string equality, so that no unspecified `PartialEq`
/// implementation is relied on.
pub fn str_eq(a: &str, b: &str) -> (r: bool)
    ensures
        r == (a@ == b@),
{
    let n = a.unicode_len();
    if n != b.unicode_len() {
        assert(a@.len() != b@.len());
        return false;
    }
    let mut i: usize = 0;
    while i < n
        invariant
            n == a@.len(),
            n == b@.len(),
            i <= n,
            forall|k: int| 0 <= k < i ==> a@[k] == b@[k],
        decreases n - i,
    {
        if a.get_char(i) != b.get_char(i) {
            assert(a@[i as int] != b@[i as int]);
            return false;
        }
        i += 1;
    }
    proof {
        assert(a@ =~= b@);
    }
    true
}

/// The numeric value of a digit string, most significant digit first.
pub open spec fn digits_value(s: Seq<char>) -> int
    decreases s.len(),
{
    if s.len() == 0 {
        0
    } else {
        digits_value(s.drop_last()) * 10 + (s.last() as int - '0' as int)
    }
}

pub open spec fn all_digits(s: Seq<char>) -> bool {
    forall|i: int| 0 <= i < s.len() ==> is_digit(#[trigger] s[i])
}

/// Whether a string is a decimal integer literal as `str::parse::<i64>`
/// accepts it: an optional sign followed by one or more digits.
pub open spec fn int_literal_ok(s: Seq<char>) -> bool {
    if s.len() == 0 {
        false
    } else if s[0] == '+' || s[0] == '-' {
        s.len() >= 2 && all_digits(s.skip(1))
    } else {
        all_digits(s)
    }
}

/// The mathematical value of a decimal integer literal.
pub open spec fn int_literal_value(s: Seq<char>) -> int {
    if s.len() == 0 {
        0
    } else if s[0] == '+' {
        digits_value(s.skip(1))
    } else if s[0] == '-' {
        -digits_value(s.skip(1))
    } else {
        digits_value(s)
    }
}

pub proof fn lemma_digits_value_nonneg(s: Seq<char>)
    requires
        all_digits(s),
    ensures
        digits_value(s) >= 0,
    decreases s.len(),
{
    if s.len() > 0 {
        assert(all_digits(s.drop_last()));
        lemma_digits_value_nonneg(s.drop_last());
        assert(is_digit(s.last()));
    }
}

/// Extending a digit string never shrinks its value.
pub proof fn lemma_digits_value_mono(s: Seq<char>, i: int, j: int)
    requires
        all_digits(s),
        0 <= i <= j <= s.len(),
    ensures
        digits_value(s.take(i)) <= digits_value(s.take(j)),
    decreases j - i,
{
    if i < j {
        lemma_digits_value_mono(s, i, j - 1);
        let p = s.take(j);
        assert(all_digits(p));
        assert(p.drop_last() =~= s.take(j - 1));
        lemma_digits_value_nonneg(p.drop_last());
        assert(is_digit(p.last()));
        assert(digits_value(p) == digits_value(s.take(j - 1)) * 10 + (p.last() as int - '0' as int));
    }
}

/// Parse a signed decimal 64-bit integer, exactly as `str::parse::<i64>`
/// does: `None` on an empty string, a stray character, a bare sign, or a
/// value outside the `i64` range.
pub fn parse_i64(s: &str) -> (r: Option<i64>)
    ensures
        match r {
            Some(v) => int_literal_ok(s@) && v == int_literal_value(s@),
            None => !int_literal_ok(s@) || int_literal_value(s@) < i64::MIN
                || int_literal_value(s@) > i64::MAX,
        },
{
    let cs = chars_of(s);
    if cs.len() == 0 {
        return None;
    }
    let c0 = cs[0];
    let signed = c0 == '-' || c0 == '+';
    let negative = c0 == '-';
    let start: usize = if signed {
        1
    } else {
        0
    };
    if cs.len() == start {
        // a bare sign
        assert(!int_literal_ok(s@));
        return None;
    }
    let ghost digits = s@.skip(start as int);
    proof {
        if !signed {
            assert(digits =~= s@);
        }
        assert(int_literal_ok(s@) == all_digits(digits));
    }
    let n = cs.len();
    let mut acc: i128 = 0;
    let mut i: usize = start;
    while i < n
        invariant
            cs@ == s@,
            n == s@.len(),
            start <= i <= n,
            start <= 1,
            start < n,
            s@[0] == '-' || s@[0] == '+' ==> start == 1,
            !(s@[0] == '-' || s@[0] == '+') ==> start == 0,
            negative == (s@[0] == '-'),
            int_literal_ok(s@) == all_digits(digits),
            digits == s@.skip(start as int),
            all_digits(digits.take(i - start)),
            acc == -digits_value(digits.take(i - start)),
            -(i64::MAX as i128) - 1 <= acc <= 0,
        decreases n - i,
    {
        let c = cs[i];
        assert(c == digits[i - start]);
        if !check_digit(c) {
            assert(!all_digits(digits));
            return None;
        }
        let d: i128 = ((c as u32) as i128) - 48;
        assert(0 <= d <= 9);
        acc = acc * 10 - d;
        proof {
            let p = digits.take(i - start + 1);
            assert(p.drop_last() =~= digits.take(i - start));
            assert(p.last() == digits[i - start]);
            assert(p.last() as int - '0' as int == d);
            assert(all_digits(p));
        }
        i += 1;
        if acc < -(i64::MAX as i128) - 1 {
            return parse_overflow(s, start, i);
        }
    }
    proof {
        assert(digits.take(n - start) =~= digits);
        assert(int_literal_ok(s@));
    }
    if negative {
        assert(int_literal_value(s@) == acc);
        Some(acc as i64)
    } else {
        if acc == -(i64::MAX as i128) - 1 {
            assert(int_literal_value(s@) == -acc && -acc > i64::MAX);
            return None;
        }
        assert(int_literal_value(s@) == -acc <= i64::MAX);
        Some((-acc) as i64)
    }
}

/// Reject a literal whose digits read so far already exceed the magnitude an
/// `i64` can hold: whatever follows them, the value stays out of range.
fn parse_overflow(s: &str, start: usize, i: usize) -> (r: Option<i64>)
    requires
        start < i <= s@.len(),
        s@[0] == '-' || s@[0] == '+' ==> start == 1,
        !(s@[0] == '-' || s@[0] == '+') ==> start == 0,
        all_digits(s@.skip(start as int).take(i - start)),
        digits_value(s@.skip(start as int).take(i - start)) > i64::MAX as int + 1,
    ensures
        r is None,
        !int_literal_ok(s@) || int_literal_value(s@) < i64::MIN
            || int_literal_value(s@) > i64::MAX,
{
    proof {
        let digits = s@.skip(start as int);
        if start == 0 {
            assert(digits =~= s@);
        }
        if int_literal_ok(s@) {
            assert(all_digits(digits));
            lemma_digits_value_mono(digits, i - start, digits.len() as int);
            assert(digits.take(digits.len() as int) =~= digits);
            assert(digits_value(digits) > i64::MAX as int + 1);
        }
    }
    None
}

} // verus!
