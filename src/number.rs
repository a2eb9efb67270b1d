//! The decimal text that prices and quantities arrive as, and the check that
//! such text is a floating-point literal in the grammar that `f32::from_str`
//! documents: an optional sign, then `inf`, `infinity` or `nan` in any case, or
//! digits with at most one point and an optional exponent.

use vstd::prelude::*;

verus! {

pub open spec fn is_digit(c: char) -> bool {
    '0' <= c && c <= '9'
}

pub open spec fn is_sign(c: char) -> bool {
    c == '+' || c == '-'
}

pub open spec fn is_exp_mark(c: char) -> bool {
    c == 'e' || c == 'E'
}

/// `s` spells the word given in `lo` (lower case) and `up` (upper case),
/// each letter in either case.
pub open spec fn is_word_ci(s: Seq<char>, lo: Seq<char>, up: Seq<char>) -> bool {
    &&& s.len() == lo.len()
    &&& s.len() == up.len()
    &&& forall|i: int| 0 <= i < s.len() ==> s[i] == lo[i] || s[i] == up[i]
}

pub open spec fn is_special(s: Seq<char>) -> bool {
    ||| is_word_ci(s, "inf"@, "INF"@)
    ||| is_word_ci(s, "infinity"@, "INFINITY"@)
    ||| is_word_ci(s, "nan"@, "NAN"@)
}

/// One or more decimal digits.
pub open spec fn is_digits(s: Seq<char>) -> bool {
    s.len() > 0 && forall|i: int| 0 <= i < s.len() ==> is_digit(s[i])
}

pub open spec fn is_exponent_digits(s: Seq<char>) -> bool {
    is_digits(s) || (s.len() > 0 && is_sign(s[0]) && is_digits(s.drop_first()))
}

/// Digits with at most one point among them, and at least one digit.
pub open spec fn is_mantissa(s: Seq<char>) -> bool {
    &&& forall|i: int| 0 <= i < s.len() ==> is_digit(s[i]) || s[i] == '.'
    &&& exists|i: int| 0 <= i < s.len() && is_digit(s[i])
    &&& forall|i: int, j: int|
        0 <= i < s.len() && 0 <= j < s.len() && s[i] == '.' && s[j] == '.' ==> i == j
}

pub open spec fn is_number(s: Seq<char>) -> bool {
    ||| is_mantissa(s)
    ||| exists|k: int|
        0 <= k < s.len() && is_exp_mark(s[k]) && is_mantissa(s.take(k)) && is_exponent_digits(
            s.skip(k + 1),
        )
}

pub open spec fn unsigned_part(s: Seq<char>) -> Seq<char> {
    if s.len() > 0 && is_sign(s[0]) {
        s.drop_first()
    } else {
        s
    }
}

/// The text is a floating-point literal.
pub open spec fn is_float_literal(s: Seq<char>) -> bool {
    is_special(unsigned_part(s)) || is_number(unsigned_part(s))
}

fn digit(c: char) -> (r: bool)
    ensures
        r == is_digit(c),
{
    '0' <= c && c <= '9'
}

fn chars_of(s: &str) -> (r: Vec<char>)
    ensures
        r@ == s@,
{
    let n = s.unicode_len();
    let mut r: Vec<char> = Vec::new();
    let mut i: usize = 0;
    while i < n
        invariant
            n == s@.len(),
            i <= n,
            r@ == s@.take(i as int),
        decreases n - i,
    {
        r.push(s.get_char(i));
        i += 1;
        assert(r@ =~= s@.take(i as int));
    }
    assert(r@ =~= s@);
    r
}

fn word_ci(v: &Vec<char>, lo: usize, hi: usize, lower: &str, upper: &str) -> (r: bool)
    requires
        lo <= hi <= v@.len(),
    ensures
        r == is_word_ci(v@.subrange(lo as int, hi as int), lower@, upper@),
{
    let n = hi - lo;
    if lower.unicode_len() != n || upper.unicode_len() != n {
        return false;
    }
    let ghost s = v@.subrange(lo as int, hi as int);
    let mut i: usize = 0;
    while i < n
        invariant
            lo <= hi <= v@.len(),
            n == hi - lo,
            n == lower@.len(),
            n == upper@.len(),
            s == v@.subrange(lo as int, hi as int),
            i <= n,
            forall|j: int| 0 <= j < i ==> s[j] == lower@[j] || s[j] == upper@[j],
        decreases n - i,
    {
        let c = v[lo + i];
        if c != lower.get_char(i) && c != upper.get_char(i) {
            assert(s[i as int] == c);
            return false;
        }
        i += 1;
    }
    true
}

fn mantissa(v: &Vec<char>, lo: usize, hi: usize) -> (r: bool)
    requires
        lo <= hi <= v@.len(),
    ensures
        r == is_mantissa(v@.subrange(lo as int, hi as int)),
{
    let ghost s = v@.subrange(lo as int, hi as int);
    let mut i: usize = lo;
    let mut seen_digit = false;
    let mut seen_dot = false;
    let ghost mut dot_at: int = 0;
    while i < hi
        invariant
            lo <= i <= hi <= v@.len(),
            s == v@.subrange(lo as int, hi as int),
            forall|j: int| 0 <= j < i - lo ==> is_digit(s[j]) || s[j] == '.',
            seen_digit <==> exists|j: int| 0 <= j < i - lo && is_digit(s[j]),
            seen_dot ==> 0 <= dot_at < i - lo && s[dot_at] == '.',
            !seen_dot ==> forall|j: int| 0 <= j < i - lo ==> s[j] != '.',
            forall|j: int, k: int|
                0 <= j < i - lo && 0 <= k < i - lo && s[j] == '.' && s[k] == '.' ==> j == k,
        decreases hi - i,
    {
        let c = v[i];
        assert(s[i - lo] == c);
        if digit(c) {
            seen_digit = true;
        } else if c == '.' {
            if seen_dot {
                assert(s[dot_at] == '.' && s[i - lo] == '.' && dot_at != i - lo);
                return false;
            }
            seen_dot = true;
            proof {
                dot_at = i - lo;
            }
        } else {
            return false;
        }
        i += 1;
    }
    seen_digit
}

fn exponent_digits(v: &Vec<char>, lo: usize, hi: usize) -> (r: bool)
    requires
        lo <= hi <= v@.len(),
    ensures
        r == is_exponent_digits(v@.subrange(lo as int, hi as int)),
{
    let ghost s = v@.subrange(lo as int, hi as int);
    let start = if lo < hi && (v[lo] == '+' || v[lo] == '-') {
        lo + 1
    } else {
        lo
    };
    let ghost t = v@.subrange(start as int, hi as int);
    if start == hi {
        assert(s.len() == 0 || (s.len() == 1 && is_sign(s[0])));
        assert(s.len() == 1 ==> s.drop_first().len() == 0);
        return false;
    }
    let mut i: usize = start;
    while i < hi
        invariant
            lo <= start <= i <= hi <= v@.len(),
            t == v@.subrange(start as int, hi as int),
            s == v@.subrange(lo as int, hi as int),
            start == lo || (start == lo + 1 && is_sign(v@[lo as int])),
            start == lo ==> !is_sign(v@[lo as int]),
            forall|j: int| 0 <= j < i - start ==> is_digit(t[j]),
        decreases hi - i,
    {
        if !digit(v[i]) {
            assert(t[i - start] == v@[i as int]);
            assert(!is_digits(t));
            if start > lo {
                assert(s.drop_first() =~= t);
                assert(s[0] == v@[lo as int]);
            } else {
                assert(s =~= t);
                assert(s[0] == v@[lo as int]);
            }
            return false;
        }
        i += 1;
    }
    assert(is_digits(t));
    if start > lo {
        assert(s.drop_first() =~= t);
    } else {
        assert(s =~= t);
    }
    true
}

/// Whether `text` is a floating-point literal.
pub fn float_literal(text: &str) -> (r: bool)
    ensures
        r == is_float_literal(text@),
{
    let v = chars_of(text);
    let n = v.len();
    let start: usize = if n > 0 && (v[0] == '+' || v[0] == '-') {
        1
    } else {
        0
    };
    let ghost u = v@.subrange(start as int, n as int);
    assert(u =~= unsigned_part(text@));
    if word_ci(&v, start, n, "inf", "INF") || word_ci(&v, start, n, "infinity", "INFINITY")
        || word_ci(&v, start, n, "nan", "NAN") {
        return true;
    }
    let mut k: usize = start;
    while k < n && v[k] != 'e' && v[k] != 'E'
        invariant
            start <= k <= n == v@.len(),
            u == v@.subrange(start as int, n as int),
            forall|j: int| 0 <= j < k - start ==> !is_exp_mark(u[j]),
        decreases n - k,
    {
        k += 1;
    }
    if k == n {
        let r = mantissa(&v, start, n);
        proof {
            if !r {
                assert forall|m: int|
                    0 <= m < u.len() && is_exp_mark(u[m]) implies !is_mantissa(u.take(m)) by {
                    assert(m < k - start);
                }
            }
        }
        r
    } else {
        let ghost e = k - start;
        assert(u[e] == v@[k as int]);
        let r = mantissa(&v, start, k) && exponent_digits(&v, k + 1, n);
        assert(v@.subrange(start as int, k as int) =~= u.take(e));
        assert(v@.subrange(k + 1, n as int) =~= u.skip(e + 1));
        proof {
            assert(!is_mantissa(u)) by {
                assert(u[e] != '.' && !is_digit(u[e]));
            }
            if !r {
                assert forall|m: int|
                    0 <= m < u.len() && is_exp_mark(u[m]) implies !(is_mantissa(u.take(m))
                    && is_exponent_digits(u.skip(m + 1))) by {
                    if m > e && is_mantissa(u.take(m)) {
                        assert(u.take(m)[e] == u[e]);
                    }
                }
            }
        }
        r
    }
}

} // verus!
