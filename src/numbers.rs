//! The textual forms of the numbers in the progress protocol: unsigned
//! integers as `u64::from_str` reads them, and decimal floating-point text as
//! `f64::from_str` documents its grammar.
use vstd::prelude::*;
use crate::text::chars_of;

verus! {

pub open spec fn is_digit(c: char) -> bool {
    48 <= (c as u32) <= 57
}

pub open spec fn is_sign(c: char) -> bool {
    c == '+' || c == '-'
}

pub open spec fn all_digits(s: Seq<char>) -> bool {
    forall|i: int| 0 <= i < s.len() ==> is_digit(#[trigger] s[i])
}

/// The value of a run of decimal digits.
pub open spec fn digits_value(s: Seq<char>) -> nat
    decreases s.len(),
{
    if s.len() == 0 {
        0
    } else {
        digits_value(s.drop_last()) * 10 + ((s.last() as u32) - 48) as nat
    }
}

/// The digits of an unsigned integer: a leading `+` is allowed.
pub open spec fn unsigned_digits(s: Seq<char>) -> Seq<char> {
    if s.len() > 0 && s[0] == '+' {
        s.drop_first()
    } else {
        s
    }
}

/// The unsigned integer that `s` denotes, if it is one digit or more after an
/// optional `+` and fits in 64 bits.
pub open spec fn u64_value(s: Seq<char>) -> Option<u64> {
    let d = unsigned_digits(s);
    if d.len() > 0 && all_digits(d) && digits_value(d) <= u64::MAX {
        Some(digits_value(d) as u64)
    } else {
        None
    }
}

/// Digits with at most one `.` among them, and at least one digit.
pub open spec fn mantissa_ok(m: Seq<char>) -> bool {
    (m.len() > 0 && all_digits(m)) || (m.len() >= 2 && exists|p: int|
        0 <= p < m.len() && m[p] == '.' && all_digits(m.subrange(0, p)) && all_digits(
            #[trigger] m.subrange(p + 1, m.len() as int),
        ))
}

/// An exponent after its `e`: an optional sign, then one digit or more.
pub open spec fn exponent_ok(x: Seq<char>) -> bool {
    let y = if x.len() > 0 && is_sign(x[0]) {
        x.drop_first()
    } else {
        x
    };
    y.len() > 0 && all_digits(y)
}

pub open spec fn is_exp_mark(c: char) -> bool {
    c == 'e' || c == 'E'
}

/// A mantissa, optionally followed by an exponent.
pub open spec fn number_ok(n: Seq<char>) -> bool {
    mantissa_ok(n) || exists|p: int|
        0 <= p < n.len() && is_exp_mark(n[p]) && mantissa_ok(n.subrange(0, p)) && exponent_ok(
            #[trigger] n.subrange(p + 1, n.len() as int),
        )
}

/// `s` equals the lower-case ASCII word `w`, ignoring ASCII case.
pub open spec fn word_ci(s: Seq<char>, w: Seq<char>) -> bool {
    s.len() == w.len() && forall|i: int|
        0 <= i < s.len() ==> (s[i] == w[i] || (s[i] as u32) + 32 == (w[i] as u32))
}

pub open spec fn special_ok(s: Seq<char>) -> bool {
    word_ci(s, seq!['i', 'n', 'f']) || word_ci(s, seq!['i', 'n', 'f', 'i', 'n', 'i', 't', 'y'])
        || word_ci(s, seq!['n', 'a', 'n'])
}

/// Text that `f64::from_str` accepts: an optional sign, then `inf`,
/// `infinity` or `nan` in any ASCII case, or a decimal number with an optional
/// exponent.
pub open spec fn float_text(s: Seq<char>) -> bool {
    let u = if s.len() > 0 && is_sign(s[0]) {
        s.drop_first()
    } else {
        s
    };
    special_ok(u) || number_ok(u)
}

fn is_digit_char(c: char) -> (r: bool)
    ensures
        r == is_digit(c),
{
    let u = c as u32;
    48 <= u && u <= 57
}

proof fn lemma_prefix_value_le(d: Seq<char>, j: int)
    requires
        0 <= j <= d.len(),
    ensures
        digits_value(d.subrange(0, j)) <= digits_value(d),
    decreases d.len(),
{
    if j == d.len() {
        assert(d.subrange(0, j) =~= d);
    } else {
        lemma_prefix_value_le(d.drop_last(), j);
        assert(d.drop_last().subrange(0, j) =~= d.subrange(0, j));
    }
}

/// Reads an unsigned decimal integer, as `u64::from_str` does.
pub fn parse_u64(s: &str) -> (r: Option<u64>)
    ensures
        r == u64_value(s@),
{
    let v = chars_of(s);
    let n = v.len();
    let start: usize = if n > 0 && v[0] == '+' {
        1
    } else {
        0
    };
    let ghost d = unsigned_digits(s@);
    assert(d =~= v@.subrange(start as int, n as int));
    if start == n {
        return None;
    }
    let mut acc: u64 = 0;
    let mut i: usize = start;
    while i < n
        invariant
            v@ == s@,
            n == v@.len(),
            start <= i <= n,
            d == v@.subrange(start as int, n as int),
            d == unsigned_digits(s@),
            all_digits(v@.subrange(start as int, i as int)),
            acc as nat == digits_value(v@.subrange(start as int, i as int)),
        decreases n - i,
    {
        let c = v[i];
        if !is_digit_char(c) {
            assert(d[i - start] == v@[i as int]);
            assert(!is_digit(d[i - start]));
            return None;
        }
        let ghost before = v@.subrange(start as int, i as int);
        let ghost after = v@.subrange(start as int, i + 1);
        assert(after.drop_last() =~= before);
        assert(after.last() == c);
        assert(digits_value(after) == digits_value(before) * 10 + ((c as u32) - 48) as nat);
        assert(all_digits(after)) by {
            assert forall|j: int| 0 <= j < after.len() implies is_digit(#[trigger] after[j]) by {
                if j < before.len() {
                    assert(after[j] == before[j]);
                }
            }
        }
        let cu: u32 = c as u32;
        let dv: u64 = (cu - 48) as u64;
        match acc.checked_mul(10) {
            None => {
                proof {
                    if all_digits(d) {
                        lemma_prefix_value_le(d, i + 1 - start);
                        assert(d.subrange(0, i + 1 - start) =~= after);
                    }
                }
                return None;
            },
            Some(m) => match m.checked_add(dv) {
                None => {
                    proof {
                        if all_digits(d) {
                            lemma_prefix_value_le(d, i + 1 - start);
                            assert(d.subrange(0, i + 1 - start) =~= after);
                        }
                    }
                    return None;
                },
                Some(a) => {
                    acc = a;
                },
            },
        }
        i = i + 1;
    }
    assert(v@.subrange(start as int, i as int) =~= d);
    Some(acc)
}

fn all_digits_in(v: &Vec<char>, lo: usize, hi: usize) -> (r: bool)
    requires
        lo <= hi <= v@.len(),
    ensures
        r == all_digits(v@.subrange(lo as int, hi as int)),
{
    let mut i: usize = lo;
    while i < hi
        invariant
            lo <= i <= hi <= v@.len(),
            forall|j: int| lo <= j < i ==> is_digit(#[trigger] v@[j]),
        decreases hi - i,
    {
        if !is_digit_char(v[i]) {
            assert(v@.subrange(lo as int, hi as int)[i - lo] == v@[i as int]);
            return false;
        }
        i = i + 1;
    }
    assert forall|j: int| 0 <= j < hi - lo implies is_digit(
        #[trigger] v@.subrange(lo as int, hi as int)[j],
    ) by {
        assert(v@.subrange(lo as int, hi as int)[j] == v@[lo + j]);
    }
    true
}

/// The first position in `lo..hi` that holds `a` or `b`, or `hi`.
fn first_of(v: &Vec<char>, lo: usize, hi: usize, a: char, b: char) -> (r: usize)
    requires
        lo <= hi <= v@.len(),
    ensures
        lo <= r <= hi,
        r < hi ==> (v@[r as int] == a || v@[r as int] == b),
        forall|j: int| lo <= j < r ==> v@[j] != a && v@[j] != b,
{
    let mut i: usize = lo;
    while i < hi
        invariant
            lo <= i <= hi <= v@.len(),
            forall|j: int| lo <= j < i ==> v@[j] != a && v@[j] != b,
        decreases hi - i,
    {
        if v[i] == a || v[i] == b {
            return i;
        }
        i = i + 1;
    }
    hi
}

proof fn lemma_mantissa_chars(m: Seq<char>, i: int)
    requires
        mantissa_ok(m),
        0 <= i < m.len(),
    ensures
        is_digit(m[i]) || m[i] == '.',
{
    if !(m.len() > 0 && all_digits(m)) {
        let p = choose|p: int|
            0 <= p < m.len() && m[p] == '.' && all_digits(m.subrange(0, p)) && all_digits(
                #[trigger] m.subrange(p + 1, m.len() as int),
            );
        if i < p {
            assert(m.subrange(0, p)[i] == m[i]);
        } else if i > p {
            assert(m.subrange(p + 1, m.len() as int)[i - p - 1] == m[i]);
        }
    }
}

fn mantissa_in(v: &Vec<char>, lo: usize, hi: usize) -> (r: bool)
    requires
        lo <= hi <= v@.len(),
    ensures
        r == mantissa_ok(v@.subrange(lo as int, hi as int)),
{
    let ghost m = v@.subrange(lo as int, hi as int);
    let p = first_of(v, lo, hi, '.', '.');
    if p == hi {
        let r = hi > lo && all_digits_in(v, lo, hi);
        proof {
            if exists|q: int|
                0 <= q < m.len() && m[q] == '.' && all_digits(m.subrange(0, q)) && all_digits(
                    #[trigger] m.subrange(q + 1, m.len() as int),
                ) {
                let q = choose|q: int|
                    0 <= q < m.len() && m[q] == '.' && all_digits(m.subrange(0, q)) && all_digits(
                        #[trigger] m.subrange(q + 1, m.len() as int),
                    );
                assert(m[q] == v@[lo + q]);
            }
        }
        r
    } else {
        let ghost pm = p - lo;
        assert(m[pm] == '.');
        assert(!is_digit(m[pm]));
        let r = hi - lo >= 2 && all_digits_in(v, lo, p) && all_digits_in(v, p + 1, hi);
        proof {
            assert(m.subrange(0, pm) =~= v@.subrange(lo as int, p as int));
            assert(m.subrange(pm + 1, m.len() as int) =~= v@.subrange(p + 1, hi as int));
            if mantissa_ok(m) && !r {
                let q = choose|q: int|
                    0 <= q < m.len() && m[q] == '.' && all_digits(m.subrange(0, q)) && all_digits(
                        #[trigger] m.subrange(q + 1, m.len() as int),
                    );
                assert(m[q] == v@[lo + q]);
                if q > pm {
                    assert(m.subrange(0, q)[pm] == m[pm]);
                }
                assert(q == pm);
            }
        }
        r
    }
}

fn exponent_in(v: &Vec<char>, lo: usize, hi: usize) -> (r: bool)
    requires
        lo <= hi <= v@.len(),
    ensures
        r == exponent_ok(v@.subrange(lo as int, hi as int)),
{
    let ghost x = v@.subrange(lo as int, hi as int);
    let start = if lo < hi && (v[lo] == '+' || v[lo] == '-') {
        lo + 1
    } else {
        lo
    };
    assert(start > lo ==> x.drop_first() =~= v@.subrange(start as int, hi as int));
    assert(start == lo ==> x =~= v@.subrange(start as int, hi as int));
    start < hi && all_digits_in(v, start, hi)
}

fn number_in(v: &Vec<char>, lo: usize, hi: usize) -> (r: bool)
    requires
        lo <= hi <= v@.len(),
    ensures
        r == number_ok(v@.subrange(lo as int, hi as int)),
{
    let ghost n = v@.subrange(lo as int, hi as int);
    let p = first_of(v, lo, hi, 'e', 'E');
    if p == hi {
        let r = mantissa_in(v, lo, hi);
        proof {
            if exists|q: int|
                0 <= q < n.len() && is_exp_mark(n[q]) && mantissa_ok(n.subrange(0, q))
                    && exponent_ok(#[trigger] n.subrange(q + 1, n.len() as int)) {
                let q = choose|q: int|
                    0 <= q < n.len() && is_exp_mark(n[q]) && mantissa_ok(n.subrange(0, q))
                        && exponent_ok(#[trigger] n.subrange(q + 1, n.len() as int));
                assert(n[q] == v@[lo + q]);
            }
        }
        r
    } else {
        let ghost pn = p - lo;
        assert(n[pn] == v@[p as int]);
        let r = mantissa_in(v, lo, p) && exponent_in(v, p + 1, hi);
        proof {
            assert(n.subrange(0, pn) =~= v@.subrange(lo as int, p as int));
            assert(n.subrange(pn + 1, n.len() as int) =~= v@.subrange(p + 1, hi as int));
            if mantissa_ok(n) {
                lemma_mantissa_chars(n, pn);
            }
            if number_ok(n) && !r {
                let q = choose|q: int|
                    0 <= q < n.len() && is_exp_mark(n[q]) && mantissa_ok(n.subrange(0, q))
                        && exponent_ok(#[trigger] n.subrange(q + 1, n.len() as int));
                assert(n[q] == v@[lo + q]);
                if q > pn {
                    lemma_mantissa_chars(n.subrange(0, q), pn);
                    assert(n.subrange(0, q)[pn] == n[pn]);
                }
                assert(q == pn);
            }
        }
        r
    }
}

/// Whether `v[lo..hi]` spells the lower-case ASCII word `w` in any ASCII case.
fn word_in(v: &Vec<char>, lo: usize, hi: usize, w: &str) -> (r: bool)
    requires
        lo <= hi <= v@.len(),
    ensures
        r == word_ci(v@.subrange(lo as int, hi as int), w@),
{
    let ghost s = v@.subrange(lo as int, hi as int);
    let k = w.unicode_len();
    if hi - lo != k {
        return false;
    }
    let mut i: usize = 0;
    while i < k
        invariant
            lo <= hi <= v@.len(),
            hi - lo == k,
            k == w@.len(),
            s == v@.subrange(lo as int, hi as int),
            i <= k,
            forall|j: int|
                0 <= j < i ==> (s[j] == w@[j] || (s[j] as u32) + 32 == (w@[j] as u32)),
        decreases k - i,
    {
        let c = v[lo + i];
        let d = w.get_char(i);
        assert(s[i as int] == c);
        if !(c == d || (c as u32) as u64 + 32 == (d as u32) as u64) {
            return false;
        }
        i = i + 1;
    }
    true
}

/// Whether `s` is text that `f64::from_str` reads as a number.
pub fn is_float_text(s: &str) -> (r: bool)
    ensures
        r == float_text(s@),
{
    let v = chars_of(s);
    let n = v.len();
    let lo: usize = if n > 0 && (v[0] == '+' || v[0] == '-') {
        1
    } else {
        0
    };
    let ghost u = v@.subrange(lo as int, n as int);
    assert(lo == 1 ==> s@.drop_first() =~= u);
    assert(lo == 0 ==> s@ =~= u);
    proof {
        reveal_strlit("inf");
        reveal_strlit("infinity");
        reveal_strlit("nan");
        assert("inf"@ =~= seq!['i', 'n', 'f']);
        assert("infinity"@ =~= seq!['i', 'n', 'f', 'i', 'n', 'i', 't', 'y']);
        assert("nan"@ =~= seq!['n', 'a', 'n']);
    }
    word_in(&v, lo, n, "inf") || word_in(&v, lo, n, "infinity") || word_in(&v, lo, n, "nan")
        || number_in(&v, lo, n)
}

} // verus!
