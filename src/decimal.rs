//! Decimal readings, held exactly as a whole number of millionths.
//!
//! A reading is written `[+|-][digits][.[digits]]`, with at least one digit in
//! all. Fraction digits after the sixth are dropped. Text
//! of any other form, or a reading whose magnitude does not fit an `i64` of
//! millionths, has no value.
use vstd::prelude::*;
use crate::text::{next_index, lemma_next_index, lemma_next_index_in_part, find_from};

verus! {

/// Millionths in one unit.
pub const SCALE: i64 = 1_000_000;

/// The largest magnitude of a reading, in millionths.
pub const MAX_MILLIONTHS: i64 = 9_223_372_036_854_775_807;

/// The largest whole part whose millionths can fit `MAX_MILLIONTHS`.
pub const MAX_WHOLE: u64 = 9_223_372_036_854;

pub open spec fn is_digit(c: char) -> bool {
    '0' <= c <= '9'
}

pub open spec fn all_digits(t: Seq<char>) -> bool {
    forall|i: int| 0 <= i < t.len() ==> is_digit(#[trigger] t[i])
}

pub open spec fn digit_value(c: char) -> int {
    c as u32 - '0' as u32
}

/// The number that the decimal digits `t` denote.
pub open spec fn digits_value(t: Seq<char>) -> int
    decreases t.len(),
{
    if t.len() == 0 {
        0
    } else {
        digits_value(t.drop_last()) * 10 + digit_value(t.last())
    }
}

pub open spec fn pow10(n: nat) -> int
    decreases n,
{
    if n == 0 {
        1
    } else {
        10 * pow10((n - 1) as nat)
    }
}

/// The first six fraction digits of `f`, padded on the right with zeros.
pub open spec fn six_places(f: Seq<char>) -> Seq<char> {
    Seq::new(6, |i: int| if i < f.len() { f[i] } else { '0' })
}

/// Millionths denoted by an unsigned reading `t`, if `t` has that form.
pub open spec fn magnitude(t: Seq<char>) -> Option<int> {
    let p = next_index(t, '.', 0);
    let whole = t.subrange(0, p);
    let frac = if p < t.len() {
        t.subrange(p + 1, t.len() as int)
    } else {
        Seq::<char>::empty()
    };
    if whole.len() + frac.len() > 0 && all_digits(whole) && all_digits(frac) {
        Some(digits_value(whole) * 1_000_000 + digits_value(six_places(frac)))
    } else {
        None
    }
}

/// Millionths denoted by a reading `t` with an optional sign.
pub open spec fn signed_magnitude(t: Seq<char>) -> Option<int> {
    if t.len() > 0 && t[0] == '-' {
        match magnitude(t.drop_first()) {
            Some(m) => Some(-m),
            None => None,
        }
    } else if t.len() > 0 && t[0] == '+' {
        magnitude(t.drop_first())
    } else {
        magnitude(t)
    }
}

/// The value of reading `t` in millionths, where it has one.
pub open spec fn reading_of(t: Seq<char>) -> Option<int> {
    match signed_magnitude(t) {
        Some(v) => if -MAX_MILLIONTHS <= v <= MAX_MILLIONTHS {
            Some(v)
        } else {
            None
        },
        None => None,
    }
}

pub proof fn lemma_digits_bound(t: Seq<char>)
    requires
        all_digits(t),
    ensures
        0 <= digits_value(t) < pow10(t.len()),
    decreases t.len(),
{
    if t.len() > 0 {
        assert(is_digit(t[t.len() - 1]));
        lemma_digits_bound(t.drop_last());
    }
}

pub proof fn lemma_digits_prefix(t: Seq<char>, i: int)
    requires
        all_digits(t),
        0 <= i <= t.len(),
    ensures
        digits_value(t.subrange(0, i)) <= digits_value(t),
    decreases t.len(),
{
    if i < t.len() {
        assert(is_digit(t[t.len() - 1]));
        assert(t.drop_last().subrange(0, i) =~= t.subrange(0, i));
        lemma_digits_prefix(t.drop_last(), i);
        lemma_digits_bound(t.drop_last());
    } else {
        assert(t.subrange(0, i) =~= t);
    }
}

pub proof fn lemma_pow10_small()
    ensures
        pow10(0) == 1,
        pow10(1) == 10,
        pow10(2) == 100,
        pow10(3) == 1_000,
        pow10(4) == 10_000,
        pow10(5) == 100_000,
        pow10(6) == 1_000_000,
{
    reveal_with_fuel(pow10, 7);
}

/// Whether `s[lo..hi]` holds decimal digits only.
fn digits_only(s: &[char], lo: usize, hi: usize) -> (r: bool)
    requires
        lo <= hi <= s@.len(),
    ensures
        r == all_digits(s@.subrange(lo as int, hi as int)),
{
    let ghost t = s@.subrange(lo as int, hi as int);
    let mut k: usize = lo;
    while k < hi
        invariant
            lo <= k <= hi <= s@.len(),
            t == s@.subrange(lo as int, hi as int),
            forall|j: int| lo <= j < k ==> is_digit(#[trigger] s@[j]),
        decreases hi - k,
    {
        if !('0' <= s[k] && s[k] <= '9') {
            assert(!is_digit(t[k - lo]));
            return false;
        }
        k = k + 1;
    }
    assert forall|j: int| 0 <= j < t.len() implies is_digit(#[trigger] t[j]) by {
        assert(t[j] == s@[lo + j]);
    }
    true
}

/// The number that the digits `s[lo..hi]` denote, where it is at most `MAX_WHOLE`.
fn whole_value(s: &[char], lo: usize, hi: usize) -> (r: Option<u64>)
    requires
        lo <= hi <= s@.len(),
    ensures
        match r {
            Some(v) => all_digits(s@.subrange(lo as int, hi as int)) && v == digits_value(
                s@.subrange(lo as int, hi as int),
            ) && v <= MAX_WHOLE,
            None => !all_digits(s@.subrange(lo as int, hi as int)) || digits_value(
                s@.subrange(lo as int, hi as int),
            ) > MAX_WHOLE,
        },
{
    let ghost t = s@.subrange(lo as int, hi as int);
    let mut acc: u64 = 0;
    let mut i: usize = lo;
    while i < hi
        invariant
            lo <= i <= hi <= s@.len(),
            t == s@.subrange(lo as int, hi as int),
            acc <= MAX_WHOLE,
            acc == digits_value(s@.subrange(lo as int, i as int)),
            all_digits(s@.subrange(lo as int, i as int)),
        decreases hi - i,
    {
        let c = s[i];
        if !('0' <= c && c <= '9') {
            assert(!is_digit(t[i - lo]));
            return None;
        }
        let d = (c as u32 - '0' as u32) as u64;
        let ghost next = s@.subrange(lo as int, i + 1);
        assert(next.drop_last() =~= s@.subrange(lo as int, i as int));
        if acc > MAX_WHOLE / 10 || acc * 10 + d > MAX_WHOLE {
            proof {
                if all_digits(t) {
                    assert(t.subrange(0, i + 1 - lo) =~= next);
                    lemma_digits_prefix(t, i + 1 - lo);
                }
            }
            return None;
        }
        acc = acc * 10 + d;
        i = i + 1;
    }
    assert(s@.subrange(lo as int, i as int) =~= t);
    Some(acc)
}

/// Millionths that the fraction digits `s[lo..hi]` denote.
fn fraction_value(s: &[char], lo: usize, hi: usize) -> (r: u64)
    requires
        lo <= hi <= s@.len(),
        all_digits(s@.subrange(lo as int, hi as int)),
    ensures
        r == digits_value(six_places(s@.subrange(lo as int, hi as int))),
        r < 1_000_000,
{
    let ghost frac = s@.subrange(lo as int, hi as int);
    let ghost six = six_places(frac);
    proof {
        lemma_pow10_small();
    }
    let mut f: u64 = 0;
    let mut j: usize = 0;
    while j < 6
        invariant
            j <= 6,
            lo <= hi <= s@.len(),
            frac == s@.subrange(lo as int, hi as int),
            all_digits(frac),
            six == six_places(frac),
            f == digits_value(six.subrange(0, j as int)),
            f < pow10(j as nat),
            pow10(j as nat) <= 1_000_000,
            pow10(6) == 1_000_000,
            j < 6 ==> pow10(j as nat) <= 100_000,
        decreases 6 - j,
    {
        let c = if j < hi - lo {
            s[lo + j]
        } else {
            '0'
        };
        assert(c == six[j as int]);
        assert(six.subrange(0, j + 1).drop_last() =~= six.subrange(0, j as int));
        proof {
            lemma_pow10_small();
            if j < hi - lo {
                assert(is_digit(frac[j as int]));
            }
        }
        f = f * 10 + (c as u32 - '0' as u32) as u64;
        j = j + 1;
    }
    assert(six.subrange(0, 6) =~= six);
    f
}

/// Reads the unsigned reading `s[lo..hi]`.
fn parse_magnitude(s: &[char], lo: usize, hi: usize) -> (r: Option<u64>)
    requires
        lo <= hi <= s@.len(),
    ensures
        match r {
            Some(m) => magnitude(s@.subrange(lo as int, hi as int)) == Some(m as int) && m
                <= MAX_MILLIONTHS,
            None => magnitude(s@.subrange(lo as int, hi as int)) matches Some(m) ==> m
                > MAX_MILLIONTHS,
        },
{
    let ghost t = s@.subrange(lo as int, hi as int);
    let p0 = find_from(s, '.', lo);
    proof {
        lemma_next_index(s@, '.', lo as int);
        lemma_next_index_in_part(s@, '.', lo as int, hi as int, lo as int);
    }
    let p = if p0 < hi {
        p0
    } else {
        hi
    };
    let fs = if p < hi {
        p + 1
    } else {
        hi
    };
    let ghost whole = t.subrange(0, p - lo);
    let ghost frac = s@.subrange(fs as int, hi as int);
    assert(whole =~= s@.subrange(lo as int, p as int));
    assert(p - lo < t.len() ==> frac =~= t.subrange(p - lo + 1, t.len() as int));
    assert(p - lo >= t.len() ==> frac =~= Seq::<char>::empty());
    if p == lo && fs == hi {
        return None;
    }
    if !digits_only(s, fs, hi) {
        return None;
    }
    match whole_value(s, lo, p) {
        None => {
            proof {
                lemma_digits_bound(six_places(frac));
                lemma_pow10_small();
            }
            None
        },
        Some(w) => {
            let f = fraction_value(s, fs, hi);
            let total: u64 = w * 1_000_000 + f;
            if total > MAX_MILLIONTHS as u64 {
                return None;
            }
            Some(total)
        },
    }
}

/// Reads the reading `s[lo..hi]`: its value in millionths.
pub fn parse_reading(s: &[char], lo: usize, hi: usize) -> (r: Option<i64>)
    requires
        lo <= hi <= s@.len(),
    ensures
        match r {
            Some(v) => reading_of(s@.subrange(lo as int, hi as int)) == Some(v as int),
            None => reading_of(s@.subrange(lo as int, hi as int)) is None,
        },
{
    let ghost t = s@.subrange(lo as int, hi as int);
    if lo < hi && (s[lo] == '-' || s[lo] == '+') {
        assert(t[0] == s@[lo as int]);
        assert(t.drop_first() =~= s@.subrange(lo + 1, hi as int));
        match parse_magnitude(s, lo + 1, hi) {
            Some(m) => {
                if s[lo] == '-' {
                    Some(-(m as i64))
                } else {
                    Some(m as i64)
                }
            },
            None => None,
        }
    } else {
        match parse_magnitude(s, lo, hi) {
            Some(m) => Some(m as i64),
            None => None,
        }
    }
}

} // verus!
