use vstd::prelude::*;

verus! {

use vstd::string::StrSliceExecFns;
use crate::is_digit;

/// True when `c` is an ASCII sign character.
pub open spec fn is_sign(c: char) -> bool {
    c == '+' || c == '-'
}

/// True when every character of `s` is an ASCII decimal digit.
pub open spec fn all_digits(s: Seq<char>) -> bool {
    forall|i: int| 0 <= i < s.len() ==> is_digit(s[i])
}

/// The mantissa of a decimal literal: digits with at most one decimal point
/// somewhere among them, and at least one digit overall.
pub open spec fn is_mantissa(s: Seq<char>) -> bool {
    (s.len() > 0 && all_digits(s)) || (exists|i: int|
        0 <= i < s.len() && s.len() >= 2 && s[i] == '.' && all_digits(s.take(i)) && all_digits(
            s.skip(i + 1),
        ))
}

/// An exponent body: an optional sign followed by at least one digit.
pub open spec fn is_exponent(s: Seq<char>) -> bool {
    let t = if s.len() > 0 && is_sign(s[0]) {
        s.skip(1)
    } else {
        s
    };
    t.len() > 0 && all_digits(t)
}

/// True when `c` marks the start of an exponent.
pub open spec fn is_exp_marker(c: char) -> bool {
    c == 'e' || c == 'E'
}

/// A decimal number: a mantissa, optionally followed by an exponent marker
/// and an exponent body.
pub open spec fn is_number(s: Seq<char>) -> bool {
    is_mantissa(s) || (exists|i: int|
        0 <= i < s.len() && is_exp_marker(s[i]) && is_mantissa(s.take(i)) && is_exponent(
            s.skip(i + 1),
        ))
}

/// The ASCII lower-case folding of a character's code point.
pub open spec fn lower(c: char) -> u32 {
    if 65 <= c as u32 && c as u32 <= 90 {
        (c as u32 + 32) as u32
    } else {
        c as u32
    }
}

/// The word `inf`, in any letter case.
pub open spec fn is_inf_word(s: Seq<char>) -> bool {
    s.len() == 3 && lower(s[0]) == 105 && lower(s[1]) == 110 && lower(s[2]) == 102
}

/// The word `infinity`, in any letter case.
pub open spec fn is_infinity_word(s: Seq<char>) -> bool {
    s.len() == 8 && lower(s[0]) == 105 && lower(s[1]) == 110 && lower(s[2]) == 102 && lower(s[3])
        == 105 && lower(s[4]) == 110 && lower(s[5]) == 105 && lower(s[6]) == 116 && lower(s[7])
        == 121
}

/// The word `nan`, in any letter case.
pub open spec fn is_nan_word(s: Seq<char>) -> bool {
    s.len() == 3 && lower(s[0]) == 110 && lower(s[1]) == 97 && lower(s[2]) == 110
}

/// The textual special values of a floating-point literal.
pub open spec fn is_special(s: Seq<char>) -> bool {
    is_inf_word(s) || is_infinity_word(s) || is_nan_word(s)
}

/// The grammar of floating-point literals: an optional sign, then either a
/// case-insensitive special word (`inf`, `infinity`, `nan`) or a decimal
/// number with an optional exponent.
pub open spec fn is_float_literal(s: Seq<char>) -> bool {
    let t = if s.len() > 0 && is_sign(s[0]) {
        s.skip(1)
    } else {
        s
    };
    is_special(t) || is_number(t)
}

/// Every character of a mantissa is a digit or the decimal point.
proof fn lemma_mantissa_chars(m: Seq<char>, j: int)
    requires
        is_mantissa(m),
        0 <= j < m.len(),
    ensures
        is_digit(m[j]) || m[j] == '.',
{
    if !(m.len() > 0 && all_digits(m)) {
        let i = choose|i: int|
            0 <= i < m.len() && m.len() >= 2 && m[i] == '.' && all_digits(m.take(i)) && all_digits(
                m.skip(i + 1),
            );
        if j < i {
            assert(m.take(i)[j] == m[j]);
        } else if j > i {
            assert(m.skip(i + 1)[j - i - 1] == m[j]);
        }
    }
}

/// A mantissa holds at most one decimal point.
proof fn lemma_mantissa_one_dot(m: Seq<char>, a: int, b: int)
    requires
        is_mantissa(m),
        0 <= a < b < m.len(),
        m[a] == '.',
    ensures
        m[b] != '.',
{
    if m.len() > 0 && all_digits(m) {
        assert(is_digit(m[a]));
    } else {
        let i = choose|i: int|
            0 <= i < m.len() && m.len() >= 2 && m[i] == '.' && all_digits(m.take(i)) && all_digits(
                m.skip(i + 1),
            );
        if a != i {
            if a < i {
                assert(m.take(i)[a] == m[a]);
            } else {
                assert(m.skip(i + 1)[a - i - 1] == m[a]);
            }
        } else {
            if b < i {
                assert(m.take(i)[b] == m[b]);
            } else if b > i {
                assert(m.skip(i + 1)[b - i - 1] == m[b]);
            }
        }
    }
}

/// The index of the first character at or after `from` that is not an ASCII
/// digit, or the length when only digits remain.
fn scan_digits(s: &str, from: usize, n: usize) -> (r: usize)
    requires
        n == s@.len(),
        from <= n,
    ensures
        from <= r <= n,
        forall|i: int| from <= i < r ==> is_digit(s@[i]),
        r < n ==> !is_digit(s@[r as int]),
{
    let mut j = from;
    while j < n
        invariant
            from <= j <= n,
            n == s@.len(),
            forall|i: int| from <= i < j ==> is_digit(s@[i]),
        decreases n - j,
    {
        let c = s.get_char(j);
        if !(('0' <= c) && (c <= '9')) {
            return j;
        }
        j += 1;
    }
    j
}

/// The ASCII lower-case folding of a character's code point.
fn lower_char(c: char) -> (r: u32)
    ensures
        r == lower(c),
{
    let u = c as u32;
    if 65 <= u && u <= 90 {
        u + 32
    } else {
        u
    }
}

/// Reports whether the characters of `s` from `i` on spell one of the
/// special words `inf`, `infinity` or `nan`, in any letter case.
fn special_ok(s: &str, i: usize, n: usize) -> (r: bool)
    requires
        i <= n,
        n == s@.len(),
    ensures
        r == is_special(s@.skip(i as int)),
{
    let ghost t = s@.skip(i as int);
    proof {
        assert(forall|q: int| 0 <= q < t.len() ==> t[q] == s@[i + q]);
    }
    let m = n - i;
    if m == 3 {
        let a = lower_char(s.get_char(i));
        let b = lower_char(s.get_char(i + 1));
        let c = lower_char(s.get_char(i + 2));
        if (a == 105 && b == 110 && c == 102) || (a == 110 && b == 97 && c == 110) {
            assert(is_special(t));
            return true;
        }
        assert(!is_special(t));
    } else if m == 8 {
        let c0 = lower_char(s.get_char(i));
        let c1 = lower_char(s.get_char(i + 1));
        let c2 = lower_char(s.get_char(i + 2));
        let c3 = lower_char(s.get_char(i + 3));
        let c4 = lower_char(s.get_char(i + 4));
        let c5 = lower_char(s.get_char(i + 5));
        let c6 = lower_char(s.get_char(i + 6));
        let c7 = lower_char(s.get_char(i + 7));
        if c0 == 105 && c1 == 110 && c2 == 102 && c3 == 105 && c4 == 110 && c5 == 105 && c6 == 116
            && c7 == 121 {
            assert(is_special(t));
            return true;
        }
        assert(!is_special(t));
    } else {
        assert(!is_special(t));
    }
    false
}

/// Reports whether the characters of `s` from `i` on form a decimal number
/// with an optional `e`/`E` exponent.
#[verifier::rlimit(60)]
fn number_ok(s: &str, i: usize, n: usize) -> (r: bool)
    requires
        i <= n,
        n == s@.len(),
    ensures
        r == is_number(s@.skip(i as int)),
{
    let ghost t = s@.skip(i as int);
    // mantissa: digits, optional dot, digits
    let d_end = scan_digits(s, i, n);
    let mut k = d_end;
    let mut has_dot = false;
    let mut f_count: usize = 0;
    if k < n && s.get_char(k) == '.' {
        has_dot = true;
        let f_end = scan_digits(s, k + 1, n);
        f_count = f_end - (k + 1);
        k = f_end;
    }
    let ghost dd = d_end - i;
    let ghost kk = k - i;
    proof {
        assert(forall|q: int| 0 <= q < t.len() ==> t[q] == s@[i + q]);
    }
    if (d_end - i) + f_count == 0 {
        // no digit at all: t is empty, or starts with a character that is
        // neither a digit nor part of a number, or is a lone dot
        proof {
            refute_number_no_digits(s@, t, i as int, has_dot, n as int);
        }
        return false;
    }
    if k == n {
        proof {
            if !has_dot {
                assert(t.len() > 0);
                assert(all_digits(t));
            } else {
                assert(t[dd] == '.');
                assert(all_digits(t.take(dd))) by {
                    assert(forall|q: int| 0 <= q < dd ==> t.take(dd)[q] == s@[i + q]);
                }
                assert(all_digits(t.skip(dd + 1))) by {
                    assert(forall|q: int|
                        0 <= q < t.skip(dd + 1).len() ==> #[trigger] t.skip(dd + 1)[q] == s@[i + dd
                            + 1 + q]);
                }
                assert(t.len() >= 2);
            }
            assert(is_mantissa(t));
        }
        return true;
    }
    let ec = s.get_char(k);
    if !(ec == 'e' || ec == 'E') {
        proof {
            refute_number_bad_char(s@, t, i as int, d_end as int, has_dot, k as int, n as int);
        }
        return false;
    }
    // exponent: optional sign, then at least one digit reaching the end
    let mut p = k + 1;
    if p < n {
        let sc = s.get_char(p);
        if sc == '+' || sc == '-' {
            p = p + 1;
        }
    }
    let e_end = scan_digits(s, p, n);
    let ok = e_end == n && e_end > p;
    proof {
        let u = t.skip(kk + 1);
        assert(u =~= s@.skip(k + 1));
        assert(forall|q: int| 0 <= q < u.len() ==> u[q] == s@[k + 1 + q]);
        let u2 = if u.len() > 0 && is_sign(u[0]) {
            u.skip(1)
        } else {
            u
        };
        assert(u2 =~= s@.skip(p as int));
        assert(forall|q: int| 0 <= q < u2.len() ==> u2[q] == s@[p + q]);
        if ok {
            assert(is_exponent(u));
            assert(is_mantissa(t.take(kk))) by {
                mantissa_of_scans(s@, t, i as int, d_end as int, has_dot, k as int);
            }
            assert(t[kk] == s@[k as int]);
            assert(is_number(t));
        } else {
            // the exponent body is empty or holds a non-digit
            assert(!is_exponent(u)) by {
                if e_end < n {
                    assert(u2[e_end - p] == s@[e_end as int]);
                    assert(!all_digits(u2));
                } else {
                    assert(u2.len() == 0);
                }
            }
            refute_number_bad_exponent(s@, t, i as int, d_end as int, has_dot, k as int, n as int);
        }
    }
    ok
}

/// Reports whether `s` is a well-formed floating-point literal: an optional
/// sign, then `inf`, `infinity` or `nan` in any case, or a decimal number
/// with an optional `e`/`E` exponent.
pub fn float_ok(s: &str) -> (r: bool)
    ensures
        r == is_float_literal(s@),
{
    let n = s.unicode_len();
    let mut i: usize = 0;
    if n > 0 {
        let c0 = s.get_char(0);
        if c0 == '+' || c0 == '-' {
            i = 1;
        }
    }
    proof {
        let t = if s@.len() > 0 && is_sign(s@[0]) {
            s@.skip(1)
        } else {
            s@
        };
        assert(t =~= s@.skip(i as int));
    }
    if special_ok(s, i, n) {
        true
    } else {
        number_ok(s, i, n)
    }
}

/// The scanned digits and optional dot form a mantissa ending at `k`.
proof fn mantissa_of_scans(s: Seq<char>, t: Seq<char>, i: int, d_end: int, has_dot: bool, k: int)
    requires
        0 <= i <= d_end <= k <= s.len(),
        t =~= s.skip(i),
        forall|q: int| i <= q < d_end ==> is_digit(s[q]),
        has_dot ==> d_end < k && s[d_end] == '.' && (forall|q: int|
            d_end + 1 <= q < k ==> is_digit(s[q])),
        !has_dot ==> k == d_end,
        k - i >= 1,
        has_dot ==> k - i >= 2 || d_end > i,
        (d_end - i) + (if has_dot {
            k - d_end - 1
        } else {
            0
        }) >= 1,
    ensures
        is_mantissa(t.take(k - i)),
{
    let m = t.take(k - i);
    assert(forall|q: int| 0 <= q < m.len() ==> m[q] == s[i + q]);
    if !has_dot {
        assert(all_digits(m));
    } else {
        let dd = d_end - i;
        assert(m[dd] == '.');
        assert(all_digits(m.take(dd))) by {
            assert(forall|q: int| 0 <= q < dd ==> m.take(dd)[q] == s[i + q]);
        }
        assert(all_digits(m.skip(dd + 1))) by {
            assert(forall|q: int|
                0 <= q < m.skip(dd + 1).len() ==> #[trigger] m.skip(dd + 1)[q] == s[i + dd + 1
                    + q]);
        }
        assert(m.len() >= 2);
    }
}

/// No number can be read when the mantissa scan found no digit at all.
proof fn refute_number_no_digits(s: Seq<char>, t: Seq<char>, i: int, has_dot: bool, n: int)
    requires
        0 <= i <= n == s.len(),
        t =~= s.skip(i),
        !has_dot ==> (i == n || (!is_digit(s[i]) && s[i] != '.')),
        has_dot ==> s[i] == '.' && (i + 1 == n || !is_digit(s[i + 1])),
    ensures
        !is_number(t),
{
    assert(forall|q: int| 0 <= q < t.len() ==> t[q] == s[i + q]);
    if t.len() == 0 {
        assert(!is_mantissa(t));
        assert(!is_number(t));
    } else {
        assert(!is_mantissa(t)) by {
            refute_mantissa_prefix(t, has_dot);
        }
        assert forall|ie: int|
            !(0 <= ie < t.len() && is_exp_marker(t[ie]) && is_mantissa(t.take(ie)) && is_exponent(
                t.skip(ie + 1),
            )) by {
            if 0 <= ie < t.len() && is_mantissa(t.take(ie)) {
                refute_mantissa_prefix(t.take(ie), has_dot);
            }
        }
    }
}

/// No prefix of `t` (including `t` itself) is a mantissa when `t` starts
/// with a non-number character, or with a dot not followed by a digit.
proof fn refute_mantissa_prefix(m: Seq<char>, has_dot: bool)
    requires
        !has_dot ==> m.len() == 0 || (!is_digit(m[0]) && m[0] != '.'),
        has_dot ==> m.len() == 0 || (m[0] == '.' && (m.len() == 1 || !is_digit(m[1]))),
    ensures
        !is_mantissa(m),
{
    if m.len() == 0 {
    } else if !has_dot {
        assert(!all_digits(m));
        assert forall|di: int|
            !(0 <= di < m.len() && m.len() >= 2 && m[di] == '.' && all_digits(m.take(di))
                && all_digits(m.skip(di + 1))) by {
            if 0 < di < m.len() {
                assert(m.take(di)[0] == m[0]);
            }
        }
    } else {
        assert(!all_digits(m));
        assert forall|di: int|
            !(0 <= di < m.len() && m.len() >= 2 && m[di] == '.' && all_digits(m.take(di))
                && all_digits(m.skip(di + 1))) by {
            if 0 < di < m.len() {
                assert(m.take(di)[0] == m[0]);
            } else if di == 0 && m.len() >= 2 {
                assert(m.skip(1)[0] == m[1]);
            }
        }
    }
}

/// No number can be read when the character after the scanned mantissa is
/// neither an exponent marker nor anything a number may contain.
proof fn refute_number_bad_char(
    s: Seq<char>,
    t: Seq<char>,
    i: int,
    d_end: int,
    has_dot: bool,
    k: int,
    n: int,
)
    requires
        0 <= i <= d_end <= k < n == s.len(),
        t =~= s.skip(i),
        forall|q: int| i <= q < d_end ==> is_digit(s[q]),
        has_dot ==> d_end < k && s[d_end] == '.' && (forall|q: int|
            d_end + 1 <= q < k ==> is_digit(s[q])),
        !has_dot ==> k == d_end && s[k] != '.',
        !is_digit(s[k]),
        !is_exp_marker(s[k]),
        (d_end - i) + (if has_dot {
            k - d_end - 1
        } else {
            0
        }) >= 1,
    ensures
        !is_number(t),
{
    assert(forall|q: int| 0 <= q < t.len() ==> t[q] == s[i + q]);
    let kk = k - i;
    let dd = d_end - i;
    // the whole of t is no mantissa
    assert(!is_mantissa(t)) by {
        if is_mantissa(t) {
            lemma_mantissa_chars(t, kk);
            if t[kk] == '.' {
                if has_dot {
                    lemma_mantissa_one_dot(t, dd, kk);
                } else {
                    assert(s[k] != '.');
                }
            }
        }
    }
    // and no split at an exponent marker works either
    assert forall|ie: int|
        !(0 <= ie < t.len() && is_exp_marker(t[ie]) && is_mantissa(t.take(ie)) && is_exponent(
            t.skip(ie + 1),
        )) by {
        if 0 <= ie < t.len() && is_exp_marker(t[ie]) && is_mantissa(t.take(ie)) {
            if ie <= kk {
                assert(t[ie] == s[i + ie]);
                if ie < kk {
                    if has_dot && ie > dd {
                        assert(is_digit(s[i + ie]));
                    } else if has_dot && ie == dd {
                        assert(s[i + ie] == '.');
                    } else {
                        assert(is_digit(s[i + ie]));
                    }
                }
                assert(!is_exp_marker(t[ie]));
            } else {
                assert(t.take(ie)[kk] == t[kk]);
                lemma_mantissa_chars(t.take(ie), kk);
                if t[kk] == '.' {
                    assert(has_dot) by {
                        if !has_dot {
                            assert(s[k] != '.');
                        }
                    }
                    lemma_mantissa_one_dot(t.take(ie), dd, kk);
                    assert(t.take(ie)[dd] == t[dd]);
                }
            }
        }
    }
}

/// No number can be read when the exponent marker is present but what
/// follows it is not a signed digit string reaching the end.
proof fn refute_number_bad_exponent(
    s: Seq<char>,
    t: Seq<char>,
    i: int,
    d_end: int,
    has_dot: bool,
    k: int,
    n: int,
)
    requires
        0 <= i <= d_end <= k < n == s.len(),
        t =~= s.skip(i),
        forall|q: int| i <= q < d_end ==> is_digit(s[q]),
        has_dot ==> d_end < k && s[d_end] == '.' && (forall|q: int|
            d_end + 1 <= q < k ==> is_digit(s[q])),
        !has_dot ==> k == d_end && s[k] != '.',
        !is_digit(s[k]),
        is_exp_marker(s[k]),
        !is_exponent(t.skip(k - i + 1)),
    ensures
        !is_number(t),
{
    assert(forall|q: int| 0 <= q < t.len() ==> t[q] == s[i + q]);
    let kk = k - i;
    let dd = d_end - i;
    assert(!is_mantissa(t)) by {
        if is_mantissa(t) {
            lemma_mantissa_chars(t, kk);
        }
    }
    assert forall|ie: int|
        !(0 <= ie < t.len() && is_exp_marker(t[ie]) && is_mantissa(t.take(ie)) && is_exponent(
            t.skip(ie + 1),
        )) by {
        if 0 <= ie < t.len() && is_exp_marker(t[ie]) && is_mantissa(t.take(ie)) {
            if ie < kk {
                assert(t[ie] == s[i + ie]);
                if has_dot && ie == dd {
                    assert(s[i + ie] == '.');
                } else {
                    assert(is_digit(s[i + ie]));
                }
                assert(!is_exp_marker(t[ie]));
            } else if ie == kk {
                assert(!is_exponent(t.skip(kk + 1)));
            } else {
                assert(t.take(ie)[kk] == t[kk]);
                lemma_mantissa_chars(t.take(ie), kk);
            }
        }
    }
}

} // verus!
