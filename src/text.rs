//! Locating a field's value text inside a loosely structured metrics body.
//!
//! A body is split into lines at `'\n'`. The first line that contains the
//! field's token is taken; its value is the text between the first `'='` and
//! the next `'='` (or the end of the line), with surrounding white space
//! removed.
use vstd::prelude::*;

verus! {

/// First index at or after `from` where `s` holds `c`, or `s.len()` if none does.
pub open spec fn next_index(s: Seq<char>, c: char, from: int) -> int
    decreases s.len() - from,
{
    if from >= s.len() {
        s.len() as int
    } else if s[from] == c {
        from
    } else {
        next_index(s, c, from + 1)
    }
}

/// `token` occurs in `line` starting at position `k`.
pub open spec fn occurs_at(line: Seq<char>, token: Seq<char>, k: int) -> bool {
    0 <= k && k + token.len() <= line.len() && line.subrange(k, k + token.len()) == token
}

pub open spec fn contains(line: Seq<char>, token: Seq<char>) -> bool {
    exists|k: int| occurs_at(line, token, k)
}

/// End (exclusive) of the line of `s` that starts at `start`.
pub open spec fn line_end(s: Seq<char>, start: int) -> int {
    next_index(s, '\n', start)
}

/// Start of the first line of `s`, at or after the line starting at `start`,
/// that contains `token`.
pub open spec fn first_line_with(s: Seq<char>, token: Seq<char>, start: int) -> Option<int>
    decreases s.len() - start,
    when 0 <= start
    via first_line_with_decreases
{
    if start > s.len() {
        None
    } else if contains(s.subrange(start, line_end(s, start)), token) {
        Some(start)
    } else if line_end(s, start) >= s.len() {
        None
    } else {
        first_line_with(s, token, line_end(s, start) + 1)
    }
}

#[via_fn]
proof fn first_line_with_decreases(s: Seq<char>, token: Seq<char>, start: int) {
    if start <= s.len() {
        lemma_next_index(s, '\n', start);
    }
}

pub proof fn lemma_next_index(s: Seq<char>, c: char, from: int)
    requires
        0 <= from <= s.len(),
    ensures
        from <= next_index(s, c, from) <= s.len(),
        next_index(s, c, from) < s.len() ==> s[next_index(s, c, from)] == c,
        forall|k: int| from <= k < next_index(s, c, from) ==> s[k] != c,
    decreases s.len() - from,
{
    if from < s.len() && s[from] != c {
        lemma_next_index(s, c, from + 1);
    }
}

/// The white space that `str::trim` removes (Unicode `White_Space`).
pub open spec fn is_white(c: char) -> bool {
    let u = c as u32;
    (0x9 <= u <= 0xd) || u == 0x20 || u == 0x85 || u == 0xa0 || u == 0x1680 || (0x2000 <= u
        <= 0x200a) || u == 0x2028 || u == 0x2029 || u == 0x202f || u == 0x205f || u == 0x3000
}

/// First index at or after `i` that holds no white space, or `t.len()`.
pub open spec fn skip_white(t: Seq<char>, i: int) -> int
    decreases t.len() - i,
{
    if i >= t.len() {
        t.len() as int
    } else if is_white(t[i]) {
        skip_white(t, i + 1)
    } else {
        i
    }
}

/// Drops white space at the end of `t[lo..j]`: the new end.
pub open spec fn back_white(t: Seq<char>, lo: int, j: int) -> int
    decreases j - lo,
{
    if j <= lo {
        j
    } else if is_white(t[j - 1]) {
        back_white(t, lo, j - 1)
    } else {
        j
    }
}

/// `t` without white space at either end.
pub open spec fn trimmed(t: Seq<char>) -> Seq<char> {
    let a = skip_white(t, 0);
    t.subrange(a, back_white(t, a, t.len() as int))
}

/// The text after the first `'='` of `line`, up to the next `'='`.
pub open spec fn value_segment(line: Seq<char>) -> Option<Seq<char>> {
    let a = next_index(line, '=', 0);
    if a >= line.len() {
        None
    } else {
        Some(line.subrange(a + 1, next_index(line, '=', a + 1)))
    }
}

/// The trimmed value text of the first line of `body` that contains `token`.
pub open spec fn field_text(body: Seq<char>, token: Seq<char>) -> Option<Seq<char>> {
    match first_line_with(body, token, 0) {
        Some(start) => match value_segment(body.subrange(start, line_end(body, start))) {
            Some(v) => Some(trimmed(v)),
            None => None,
        },
        None => None,
    }
}

/// Relies on `str::chars`: it yields the characters of the string in order.
#[verifier::external_body]
pub(crate) fn chars_of(s: &str) -> (r: Vec<char>)
    ensures
        r@ == s@,
{
    s.chars().collect()
}

pub fn find_from(s: &[char], c: char, from: usize) -> (r: usize)
    requires
        from <= s@.len(),
    ensures
        r == next_index(s@, c, from as int),
{
    let mut i: usize = from;
    while i < s.len()
        invariant
            from <= i <= s@.len(),
            next_index(s@, c, from as int) == next_index(s@, c, i as int),
        decreases s@.len() - i,
    {
        if s[i] == c {
            return i;
        }
        i = i + 1;
    }
    i
}

/// Whether `t` occurs in `s` at position `k`.
fn matches_at(s: &[char], k: usize, t: &[char]) -> (r: bool)
    requires
        k + t@.len() <= s@.len(),
    ensures
        r == (s@.subrange(k as int, k + t@.len()) == t@),
{
    let slen = s.len();
    let mut j: usize = 0;
    while j < t.len()
        invariant
            slen == s@.len(),
            k + t@.len() <= s@.len(),
            j <= t@.len(),
            forall|jj: int| 0 <= jj < j ==> s@[k + jj] == t@[jj],
        decreases t@.len() - j,
    {
        if s[k + j] != t[j] {
            assert(s@.subrange(k as int, k + t@.len())[j as int] != t@[j as int]);
            return false;
        }
        j = j + 1;
    }
    assert(s@.subrange(k as int, k + t@.len()) =~= t@);
    true
}

/// Whether the part `s[start..end]` contains `t`.
pub fn segment_contains(s: &[char], start: usize, end: usize, t: &[char]) -> (r: bool)
    requires
        start <= end <= s@.len(),
    ensures
        r == contains(s@.subrange(start as int, end as int), t@),
{
    let ghost line = s@.subrange(start as int, end as int);
    if t.len() > end - start {
        assert forall|k: int| !occurs_at(line, t@, k) by {}
        return false;
    }
    if t.len() == 0 {
        assert(line.subrange(0, 0) =~= t@);
        assert(occurs_at(line, t@, 0));
        return true;
    }
    let last: usize = end - t.len();
    let mut k: usize = start;
    while k <= last
        invariant
            start <= k,
            t@.len() > 0,
            last + t@.len() == end,
            end <= s@.len(),
            line == s@.subrange(start as int, end as int),
            forall|kk: int|
                start <= kk < k ==> #[trigger] s@.subrange(kk, kk + t@.len()) != t@,
        decreases last + 1 - k,
    {
        if matches_at(s, k, t) {
            assert(line.subrange(k - start, k - start + t@.len()) =~= s@.subrange(
                k as int,
                k + t@.len(),
            ));
            assert(occurs_at(line, t@, k - start));
            return true;
        }
        k = k + 1;
    }
    assert forall|k2: int| !occurs_at(line, t@, k2) by {
        if occurs_at(line, t@, k2) {
            assert(line.subrange(k2, k2 + t@.len()) =~= s@.subrange(
                start + k2,
                start + k2 + t@.len(),
            ));
        }
    }
    false
}

/// Finds the first line of `s` that contains `t`: its start and end.
pub fn find_line(s: &[char], t: &[char]) -> (r: Option<(usize, usize)>)
    ensures
        match r {
            Some((a, b)) => a <= b <= s@.len() && first_line_with(s@, t@, 0) == Some(a as int)
                && b == line_end(s@, a as int),
            None => first_line_with(s@, t@, 0) is None,
        },
{
    let mut start: usize = 0;
    loop
        invariant
            start <= s@.len(),
            first_line_with(s@, t@, 0) == first_line_with(s@, t@, start as int),
        decreases s@.len() - start,
    {
        let end = find_from(s, '\n', start);
        proof {
            lemma_next_index(s@, '\n', start as int);
        }
        if segment_contains(s, start, end, t) {
            return Some((start, end));
        }
        if end >= s.len() {
            return None;
        }
        start = end + 1;
    }
}

/// Start of the trimmed part of `s[lo..hi]`.
fn skip_white_from(s: &[char], lo: usize, hi: usize) -> (r: usize)
    requires
        lo <= hi <= s@.len(),
    ensures
        r as int == skip_white(s@.subrange(lo as int, hi as int), 0) + lo,
        lo <= r <= hi,
{
    let ghost t = s@.subrange(lo as int, hi as int);
    let mut i: usize = lo;
    while i < hi && is_white_char(s[i])
        invariant
            lo <= i <= hi <= s@.len(),
            t == s@.subrange(lo as int, hi as int),
            skip_white(t, 0) == skip_white(t, i - lo),
        decreases hi - i,
    {
        i = i + 1;
    }
    i
}

/// End of the trimmed part of `s[lo..hi]`, where `s[lo..a]` is white space.
fn back_white_from(s: &[char], lo: usize, a: usize, hi: usize) -> (r: usize)
    requires
        lo <= a <= hi <= s@.len(),
    ensures
        r as int == back_white(s@.subrange(lo as int, hi as int), a - lo, hi - lo) + lo,
        a <= r <= hi,
{
    let ghost t = s@.subrange(lo as int, hi as int);
    let mut j: usize = hi;
    while j > a && is_white_char(s[j - 1])
        invariant
            lo <= a <= j <= hi <= s@.len(),
            t == s@.subrange(lo as int, hi as int),
            back_white(t, a - lo, hi - lo) == back_white(t, a - lo, j - lo),
        decreases j,
    {
        j = j - 1;
    }
    j
}

pub fn is_white_char(c: char) -> (r: bool)
    ensures
        r == is_white(c),
{
    let u = c as u32;
    (0x9 <= u && u <= 0xd) || u == 0x20 || u == 0x85 || u == 0xa0 || u == 0x1680 || (0x2000 <= u
        && u <= 0x200a) || u == 0x2028 || u == 0x2029 || u == 0x202f || u == 0x205f || u == 0x3000
}

/// Locates the value text of `token` in `body`: its bounds in `body`.
pub fn find_field_text(body: &[char], token: &[char]) -> (r: Option<(usize, usize)>)
    ensures
        match r {
            Some((a, b)) => a <= b <= body@.len() && field_text(body@, token@) == Some(
                body@.subrange(a as int, b as int),
            ),
            None => field_text(body@, token@) is None,
        },
{
    match find_line(body, token) {
        None => None,
        Some((start, end)) => {
            proof {
                lemma_next_index(body@, '\n', start as int);
            }
            let ghost line = body@.subrange(start as int, end as int);
            let eq = find_from(body, '=', start);
            proof {
                lemma_next_index(body@, '=', start as int);
                lemma_next_index(line, '=', 0);
                lemma_next_index_in_part(body@, '=', start as int, end as int, start as int);
            }
            if eq >= end {
                return None;
            }
            let stop0 = find_from(body, '=', eq + 1);
            let stop = if stop0 < end {
                stop0
            } else {
                end
            };
            proof {
                lemma_next_index(body@, '=', eq + 1);
                lemma_next_index(line, '=', eq + 1 - start);
                lemma_next_index_in_part(body@, '=', start as int, end as int, eq + 1);
            }
            let ghost v = line.subrange(eq + 1 - start, stop - start);
            assert(v =~= body@.subrange(eq + 1, stop as int));
            let a = skip_white_from(body, eq + 1, stop);
            let b = back_white_from(body, eq + 1, a, stop);
            assert(trimmed(v) =~= body@.subrange(a as int, b as int));
            Some((a, b))
        },
    }
}

/// Searching a line for `c` finds what searching the whole text does, up to the line's end.
pub proof fn lemma_next_index_in_part(s: Seq<char>, c: char, lo: int, hi: int, from: int)
    requires
        0 <= lo <= from <= hi <= s.len(),
    ensures
        next_index(s.subrange(lo, hi), c, from - lo) == if next_index(s, c, from) < hi {
            next_index(s, c, from) - lo
        } else {
            hi - lo
        },
    decreases hi - from,
{
    let part = s.subrange(lo, hi);
    lemma_next_index(s, c, from);
    if from < hi {
        assert(part[from - lo] == s[from]);
        if s[from] != c {
            lemma_next_index_in_part(s, c, lo, hi, from + 1);
            assert(next_index(s, c, from) == next_index(s, c, from + 1));
            assert(next_index(part, c, from - lo) == next_index(part, c, from + 1 - lo));
        }
    }
}

} // verus!
