//! Character-level text utilities shared by the other modules, with their
//! mathematical models over `Seq<char>`.
//!
//! The exec helpers work on a `Vec<char>` copy of a string and a half-open
//! range `lo..hi` inside it; every helper states its result against
//! `v@.subrange(lo, hi)`.

use vstd::prelude::*;

verus! {

broadcast use vstd::string::group_string_axioms;

/// `String::push` appends one character.
pub assume_specification[ String::push ](s: &mut String, ch: char)
    ensures
        final(s)@ == old(s)@.push(ch),
;

// ---------------------------------------------------------------------------
// Character classes
// ---------------------------------------------------------------------------

/// Unicode `White_Space`, as `char::is_whitespace` (and so `str::trim`) uses it.
pub open spec fn is_ws(c: char) -> bool {
    let u = c as u32;
    ||| u == 0x20
    ||| 0x09 <= u <= 0x0d
    ||| u == 0x85
    ||| u == 0xa0
    ||| u == 0x1680
    ||| 0x2000 <= u <= 0x200a
    ||| u == 0x2028
    ||| u == 0x2029
    ||| u == 0x202f
    ||| u == 0x205f
    ||| u == 0x3000
}

/// ASCII whitespace, as `split_ascii_whitespace` uses it.
pub open spec fn is_ascii_ws(c: char) -> bool {
    c == ' ' || c == '\t' || c == '\n' || c == '\x0C' || c == '\r'
}

pub fn is_whitespace(c: char) -> (b: bool)
    ensures
        b == is_ws(c),
{
    let u = c as u32;
    u == 0x20 || (0x09 <= u && u <= 0x0d) || u == 0x85 || u == 0xa0 || u == 0x1680 || (0x2000
        <= u && u <= 0x200a) || u == 0x2028 || u == 0x2029 || u == 0x202f || u == 0x205f || u
        == 0x3000
}

pub fn is_ascii_whitespace(c: char) -> (b: bool)
    ensures
        b == is_ascii_ws(c),
{
    c == ' ' || c == '\t' || c == '\n' || c == '\x0C' || c == '\r'
}

/// ASCII letters fold to lower case; every other character is kept.
pub open spec fn ascii_lower(c: char) -> char {
    if 'A' <= c && c <= 'Z' {
        ((c as u32) + 32) as char
    } else {
        c
    }
}

pub fn to_ascii_lower(c: char) -> (r: char)
    ensures
        r == ascii_lower(c),
{
    if 'A' <= c && c <= 'Z' {
        let b: u8 = ((c as u32) + 32) as u8;
        b as char
    } else {
        c
    }
}

pub open spec fn is_ascii_alpha(c: char) -> bool {
    ('a' <= c && c <= 'z') || ('A' <= c && c <= 'Z')
}

pub open spec fn is_ascii_digit(c: char) -> bool {
    '0' <= c && c <= '9'
}

pub open spec fn is_ascii_alnum(c: char) -> bool {
    is_ascii_alpha(c) || is_ascii_digit(c)
}

/// ASCII case-insensitive equality of two character sequences.
pub open spec fn eq_ignore_ascii_case(a: Seq<char>, b: Seq<char>) -> bool {
    a.len() == b.len() && forall|i: int| 0 <= i < a.len() ==> ascii_lower(#[trigger] a[i])
        == ascii_lower(b[i])
}

// ---------------------------------------------------------------------------
// Trimming and runs
// ---------------------------------------------------------------------------

/// Number of leading whitespace characters.
pub open spec fn ws_prefix_len(s: Seq<char>) -> nat
    decreases s.len(),
{
    if s.len() > 0 && is_ws(s[0]) {
        1 + ws_prefix_len(s.drop_first())
    } else {
        0
    }
}

/// Number of trailing whitespace characters.
pub open spec fn ws_suffix_len(s: Seq<char>) -> nat
    decreases s.len(),
{
    if s.len() > 0 && is_ws(s.last()) {
        1 + ws_suffix_len(s.drop_last())
    } else {
        0
    }
}

/// Number of leading copies of `c`.
pub open spec fn run_len(s: Seq<char>, c: char) -> nat
    decreases s.len(),
{
    if s.len() > 0 && s[0] == c {
        1 + run_len(s.drop_first(), c)
    } else {
        0
    }
}

/// Number of trailing copies of `c`.
pub open spec fn tail_run_len(s: Seq<char>, c: char) -> nat
    decreases s.len(),
{
    if s.len() > 0 && s.last() == c {
        1 + tail_run_len(s.drop_last(), c)
    } else {
        0
    }
}

/// Number of leading characters that are not ASCII whitespace.
pub open spec fn word_len(s: Seq<char>) -> nat
    decreases s.len(),
{
    if s.len() > 0 && !is_ascii_ws(s[0]) {
        1 + word_len(s.drop_first())
    } else {
        0
    }
}

/// Number of leading ASCII whitespace characters.
pub open spec fn ascii_ws_prefix_len(s: Seq<char>) -> nat
    decreases s.len(),
{
    if s.len() > 0 && is_ascii_ws(s[0]) {
        1 + ascii_ws_prefix_len(s.drop_first())
    } else {
        0
    }
}

/// `str::trim_start`.
pub open spec fn trim_start(s: Seq<char>) -> Seq<char> {
    s.skip(ws_prefix_len(s) as int)
}

/// `str::trim_end`.
pub open spec fn trim_end(s: Seq<char>) -> Seq<char> {
    s.take(s.len() - ws_suffix_len(s))
}

/// `str::trim`.
pub open spec fn trim(s: Seq<char>) -> Seq<char> {
    trim_end(trim_start(s))
}

/// `str::trim_end_matches(c)` for a single character `c`.
pub open spec fn trim_end_char(s: Seq<char>, c: char) -> Seq<char> {
    s.take(s.len() - tail_run_len(s, c))
}

/// `str::trim_matches(c)` for a single character `c`.
pub open spec fn trim_char(s: Seq<char>, c: char) -> Seq<char> {
    trim_end_char(s.skip(run_len(s, c) as int), c)
}

/// The first item of `split_ascii_whitespace`, or empty when there is none.
pub open spec fn first_ascii_word(s: Seq<char>) -> Seq<char> {
    let rest = s.skip(ascii_ws_prefix_len(s) as int);
    rest.take(word_len(rest) as int)
}

pub open spec fn starts_with(s: Seq<char>, p: Seq<char>) -> bool {
    p.len() <= s.len() && s.take(p.len() as int) == p
}

pub open spec fn ends_with(s: Seq<char>, p: Seq<char>) -> bool {
    p.len() <= s.len() && s.skip(s.len() - p.len()) == p
}

/// `p` occurs in `s` starting at index `i`.
pub open spec fn occurs_at(s: Seq<char>, p: Seq<char>, i: int) -> bool {
    0 <= i && i + p.len() <= s.len() && s.subrange(i, i + p.len()) == p
}

/// `str::contains`.
pub open spec fn contains(s: Seq<char>, p: Seq<char>) -> bool {
    find(s, p) is Some
}

/// First index `>= i` at which `p` occurs in `s`.
pub open spec fn next_occ(s: Seq<char>, p: Seq<char>, i: int) -> Option<int>
    decreases s.len() + 1 - i,
{
    if i < 0 || i > s.len() {
        None
    } else if occurs_at(s, p, i) {
        Some(i)
    } else {
        next_occ(s, p, i + 1)
    }
}

/// Index of the first occurrence of `p` in `s` (`str::find`).
pub open spec fn find(s: Seq<char>, p: Seq<char>) -> Option<int> {
    next_occ(s, p, 0)
}

/// Last index at or below `i` at which `p` occurs in `s`.
pub open spec fn prev_occ(s: Seq<char>, p: Seq<char>, i: int) -> Option<int>
    decreases i + 1,
{
    if i < 0 {
        None
    } else if occurs_at(s, p, i) {
        Some(i)
    } else {
        prev_occ(s, p, i - 1)
    }
}

/// Index of the last occurrence of `p` in `s` (`str::rfind`).
pub open spec fn rfind(s: Seq<char>, p: Seq<char>) -> Option<int> {
    prev_occ(s, p, s.len() as int)
}

pub proof fn lemma_next_occ_bounds(s: Seq<char>, p: Seq<char>, i: int)
    ensures
        match next_occ(s, p, i) {
            Some(k) => i <= k && occurs_at(s, p, k),
            None => true,
        },
    decreases s.len() + 1 - i,
{
    if 0 <= i <= s.len() && !occurs_at(s, p, i) {
        lemma_next_occ_bounds(s, p, i + 1);
    }
}

/// Searching a suffix is searching the whole from the suffix's start.
pub proof fn lemma_next_occ_shift(s: Seq<char>, p: Seq<char>, i: int, j: int)
    requires
        0 <= i <= j,
        i <= s.len(),
    ensures
        next_occ(s.skip(i), p, j - i) == match next_occ(s, p, j) {
            Some(k) => Some(k - i),
            None => None::<int>,
        },
    decreases s.len() + 1 - j,
{
    if j <= s.len() {
        assert(occurs_at(s.skip(i), p, j - i) == occurs_at(s, p, j)) by {
            if j + p.len() <= s.len() {
                assert(s.skip(i).subrange(j - i, j - i + p.len()) == s.subrange(j, j + p.len()));
            }
        }
        if !occurs_at(s, p, j) {
            lemma_next_occ_shift(s, p, i, j + 1);
        }
    }
}

/// `find` on the suffix of `v[..hi]` starting at `from`.
pub fn find_in(v: &Vec<char>, from: usize, hi: usize, p: &Vec<char>) -> (r: Option<usize>)
    requires
        from <= hi <= v.len(),
    ensures
        match r {
            Some(k) => find(v@.subrange(from as int, hi as int), p@) == Some(k as int) && from + k
                + p.len() <= hi,
            None => find(v@.subrange(from as int, hi as int), p@) is None,
        },
{
    let ghost s = v@.subrange(0, hi as int);
    proof {
        lemma_next_occ_shift(s, p@, from as int, from as int);
        assert(s.skip(from as int) == v@.subrange(from as int, hi as int));
    }
    match find_from(v, from, hi, p) {
        Some(i) => Some(i - from),
        None => None,
    }
}

/// `n` copies of `c`.
pub open spec fn repeat_char(c: char, n: nat) -> Seq<char> {
    Seq::new(n, |i: int| c)
}

// ---------------------------------------------------------------------------
// Exec helpers over a range of a `Vec<char>`
// ---------------------------------------------------------------------------

/// The characters of `s`, in order.
pub fn chars_of(s: &str) -> (v: Vec<char>)
    ensures
        v@ == s@,
{
    let mut v: Vec<char> = Vec::new();
    for c in it: s.chars()
        invariant
            v@ == it.seq().take(it.index() as int),
    {
        v.push(c);
    }
    v
}

/// A `String` holding `v[lo..hi]`.
pub fn string_of(v: &Vec<char>, lo: usize, hi: usize) -> (r: String)
    requires
        lo <= hi <= v.len(),
    ensures
        r@ == v@.subrange(lo as int, hi as int),
{
    let mut r = String::new();
    push_range(&mut r, v, lo, hi);
    r
}

/// Append `v[lo..hi]` to `out`.
pub fn push_range(out: &mut String, v: &Vec<char>, lo: usize, hi: usize)
    requires
        lo <= hi <= v.len(),
    ensures
        final(out)@ == old(out)@ + v@.subrange(lo as int, hi as int),
{
    let mut i = lo;
    while i < hi
        invariant
            lo <= i <= hi <= v.len(),
            out@ == old(out)@ + v@.subrange(lo as int, i as int),
        decreases hi - i,
    {
        out.push(v[i]);
        assert(v@.subrange(lo as int, i + 1) == v@.subrange(lo as int, i as int).push(v@[i as int]));
        i = i + 1;
    }
}

/// Append `src[lo..hi]` to the character vector `out`.
pub fn extend_chars(out: &mut Vec<char>, src: &Vec<char>, lo: usize, hi: usize)
    requires
        lo <= hi <= src.len(),
    ensures
        final(out)@ == old(out)@ + src@.subrange(lo as int, hi as int),
{
    let mut i = lo;
    while i < hi
        invariant
            lo <= i <= hi <= src.len(),
            out@ == old(out)@ + src@.subrange(lo as int, i as int),
        decreases hi - i,
    {
        out.push(src[i]);
        assert(src@.subrange(lo as int, i + 1) == src@.subrange(lo as int, i as int).push(
            src@[i as int],
        ));
        i = i + 1;
    }
}

/// Append a string slice to `out`.
pub fn push_str(out: &mut String, s: &str)
    ensures
        final(out)@ == old(out)@ + s@,
{
    out.append(s);
}

/// Index just past the leading whitespace of `v[lo..hi]`.
pub fn skip_ws(v: &Vec<char>, lo: usize, hi: usize) -> (i: usize)
    requires
        lo <= hi <= v.len(),
    ensures
        lo <= i <= hi,
        i - lo == ws_prefix_len(v@.subrange(lo as int, hi as int)),
{
    let mut i = lo;
    while i < hi && is_whitespace(v[i])
        invariant
            lo <= i <= hi <= v.len(),
            ws_prefix_len(v@.subrange(lo as int, hi as int)) == (i - lo) + ws_prefix_len(
                v@.subrange(i as int, hi as int),
            ),
        decreases hi - i,
    {
        assert(v@.subrange(i as int, hi as int).drop_first() == v@.subrange(i + 1, hi as int));
        i = i + 1;
    }
    i
}

/// Index where the trailing whitespace of `v[lo..hi]` starts.
pub fn skip_ws_back(v: &Vec<char>, lo: usize, hi: usize) -> (j: usize)
    requires
        lo <= hi <= v.len(),
    ensures
        lo <= j <= hi,
        hi - j == ws_suffix_len(v@.subrange(lo as int, hi as int)),
{
    let mut j = hi;
    while j > lo && is_whitespace(v[j - 1])
        invariant
            lo <= j <= hi <= v.len(),
            ws_suffix_len(v@.subrange(lo as int, hi as int)) == (hi - j) + ws_suffix_len(
                v@.subrange(lo as int, j as int),
            ),
        decreases j - lo,
    {
        assert(v@.subrange(lo as int, j as int).drop_last() == v@.subrange(lo as int, j - 1));
        j = j - 1;
    }
    j
}

/// Index just past the leading ASCII whitespace of `v[lo..hi]`.
pub fn skip_ascii_ws(v: &Vec<char>, lo: usize, hi: usize) -> (i: usize)
    requires
        lo <= hi <= v.len(),
    ensures
        lo <= i <= hi,
        i - lo == ascii_ws_prefix_len(v@.subrange(lo as int, hi as int)),
{
    let mut i = lo;
    while i < hi && is_ascii_whitespace(v[i])
        invariant
            lo <= i <= hi <= v.len(),
            ascii_ws_prefix_len(v@.subrange(lo as int, hi as int)) == (i - lo)
                + ascii_ws_prefix_len(v@.subrange(i as int, hi as int)),
        decreases hi - i,
    {
        assert(v@.subrange(i as int, hi as int).drop_first() == v@.subrange(i + 1, hi as int));
        i = i + 1;
    }
    i
}

/// Index just past the leading run of non-ASCII-whitespace characters.
pub fn skip_word(v: &Vec<char>, lo: usize, hi: usize) -> (i: usize)
    requires
        lo <= hi <= v.len(),
    ensures
        lo <= i <= hi,
        i - lo == word_len(v@.subrange(lo as int, hi as int)),
{
    let mut i = lo;
    while i < hi && !is_ascii_whitespace(v[i])
        invariant
            lo <= i <= hi <= v.len(),
            word_len(v@.subrange(lo as int, hi as int)) == (i - lo) + word_len(
                v@.subrange(i as int, hi as int),
            ),
        decreases hi - i,
    {
        assert(v@.subrange(i as int, hi as int).drop_first() == v@.subrange(i + 1, hi as int));
        i = i + 1;
    }
    i
}

/// Index just past the leading run of `c` in `v[lo..hi]`.
pub fn skip_run(v: &Vec<char>, lo: usize, hi: usize, c: char) -> (i: usize)
    requires
        lo <= hi <= v.len(),
    ensures
        lo <= i <= hi,
        i - lo == run_len(v@.subrange(lo as int, hi as int), c),
{
    let mut i = lo;
    while i < hi && v[i] == c
        invariant
            lo <= i <= hi <= v.len(),
            run_len(v@.subrange(lo as int, hi as int), c) == (i - lo) + run_len(
                v@.subrange(i as int, hi as int),
                c,
            ),
        decreases hi - i,
    {
        assert(v@.subrange(i as int, hi as int).drop_first() == v@.subrange(i + 1, hi as int));
        i = i + 1;
    }
    i
}

/// Index where the trailing run of `c` in `v[lo..hi]` starts.
pub fn skip_run_back(v: &Vec<char>, lo: usize, hi: usize, c: char) -> (j: usize)
    requires
        lo <= hi <= v.len(),
    ensures
        lo <= j <= hi,
        hi - j == tail_run_len(v@.subrange(lo as int, hi as int), c),
{
    let mut j = hi;
    while j > lo && v[j - 1] == c
        invariant
            lo <= j <= hi <= v.len(),
            tail_run_len(v@.subrange(lo as int, hi as int), c) == (hi - j) + tail_run_len(
                v@.subrange(lo as int, j as int),
                c,
            ),
        decreases j - lo,
    {
        assert(v@.subrange(lo as int, j as int).drop_last() == v@.subrange(lo as int, j - 1));
        j = j - 1;
    }
    j
}

/// Whether `p` occurs in `v` at index `at`, entirely before `hi`.
pub fn matches_at(v: &Vec<char>, at: usize, hi: usize, p: &Vec<char>) -> (b: bool)
    requires
        hi <= v.len(),
    ensures
        b == (at + p.len() <= hi && v@.subrange(at as int, at + p.len()) == p@),
{
    if at > hi || hi - at < p.len() {
        return false;
    }
    let mut k: usize = 0;
    while k < p.len()
        invariant
            at + p.len() <= hi <= v.len(),
            k <= p.len(),
            forall|m: int| 0 <= m < k ==> v@[at + m] == p@[m],
        decreases p.len() - k,
    {
        if v[at + k] != p[k] {
            assert(v@.subrange(at as int, at + p.len())[k as int] != p@[k as int]);
            return false;
        }
        k = k + 1;
    }
    assert(v@.subrange(at as int, at + p.len()) == p@);
    true
}

/// First index `>= from` at which `p` occurs inside `v[..hi]`.
pub fn find_from(v: &Vec<char>, from: usize, hi: usize, p: &Vec<char>) -> (r: Option<usize>)
    requires
        from <= hi <= v.len(),
    ensures
        match r {
            Some(i) => next_occ(v@.subrange(0, hi as int), p@, from as int) == Some(i as int)
                && occurs_at(v@.subrange(0, hi as int), p@, i as int) && from <= i <= hi,
            None => next_occ(v@.subrange(0, hi as int), p@, from as int) is None,
        },
{
    let ghost s = v@.subrange(0, hi as int);
    let mut i = from;
    loop
        invariant
            from <= i <= hi,
            hi <= v.len(),
            s == v@.subrange(0, hi as int),
            next_occ(s, p@, from as int) == next_occ(s, p@, i as int),
        decreases hi - i,
    {
        let m = matches_at(v, i, hi, p);
        if m {
            assert(s.subrange(i as int, i + p.len()) == v@.subrange(i as int, i + p.len()));
            return Some(i);
        }
        assert(!occurs_at(s, p@, i as int)) by {
            if occurs_at(s, p@, i as int) {
                assert(s.subrange(i as int, i + p.len()) == v@.subrange(i as int, i + p.len()));
            }
        }
        if i == hi {
            assert(next_occ(s, p@, hi + 1) is None);
            return None;
        }
        i = i + 1;
    }
}

/// Last index `<= at` at which `p` occurs inside `v[..hi]`.
pub fn rfind_from(v: &Vec<char>, at: usize, hi: usize, p: &Vec<char>) -> (r: Option<usize>)
    requires
        at <= hi <= v.len(),
    ensures
        match r {
            Some(i) => prev_occ(v@.subrange(0, hi as int), p@, at as int) == Some(i as int)
                && occurs_at(v@.subrange(0, hi as int), p@, i as int) && i <= at,
            None => prev_occ(v@.subrange(0, hi as int), p@, at as int) is None,
        },
{
    let ghost s = v@.subrange(0, hi as int);
    let mut i = at;
    loop
        invariant
            i <= at <= hi <= v.len(),
            s == v@.subrange(0, hi as int),
            prev_occ(s, p@, at as int) == prev_occ(s, p@, i as int),
        decreases i,
    {
        let m = matches_at(v, i, hi, p);
        if m {
            assert(s.subrange(i as int, i + p.len()) == v@.subrange(i as int, i + p.len()));
            return Some(i);
        }
        assert(!occurs_at(s, p@, i as int)) by {
            if occurs_at(s, p@, i as int) {
                assert(s.subrange(i as int, i + p.len()) == v@.subrange(i as int, i + p.len()));
            }
        }
        if i == 0 {
            assert(prev_occ(s, p@, -1) is None);
            return None;
        }
        i = i - 1;
    }
}

/// Number of leading characters of `s` that are not `c`.
pub open spec fn before_char(s: Seq<char>, c: char) -> nat
    decreases s.len(),
{
    if s.len() > 0 && s[0] != c {
        1 + before_char(s.drop_first(), c)
    } else {
        0
    }
}

/// Index of the first `c` at or after `lo` in `v[..hi]`, or `hi`.
pub fn scan_to_char(v: &Vec<char>, lo: usize, hi: usize, c: char) -> (i: usize)
    requires
        lo <= hi <= v.len(),
    ensures
        lo <= i <= hi,
        i - lo == before_char(v@.subrange(lo as int, hi as int), c),
{
    let mut i = lo;
    while i < hi && v[i] != c
        invariant
            lo <= i <= hi <= v.len(),
            before_char(v@.subrange(lo as int, hi as int), c) == (i - lo) + before_char(
                v@.subrange(i as int, hi as int),
                c,
            ),
        decreases hi - i,
    {
        assert(v@.subrange(i as int, hi as int).drop_first() == v@.subrange(i + 1, hi as int));
        i = i + 1;
    }
    i
}

/// `trim(v[lo..hi])` as a range of `v`.
pub fn trim_bounds(v: &Vec<char>, lo: usize, hi: usize) -> (r: (usize, usize))
    requires
        lo <= hi <= v.len(),
    ensures
        lo <= r.0 <= r.1 <= hi,
        v@.subrange(r.0 as int, r.1 as int) == trim(v@.subrange(lo as int, hi as int)),
{
    let x = skip_ws(v, lo, hi);
    assert(trim_start(v@.subrange(lo as int, hi as int)) == v@.subrange(x as int, hi as int));
    let y = skip_ws_back(v, x, hi);
    assert(trim_end(v@.subrange(x as int, hi as int)) == v@.subrange(x as int, y as int));
    (x, y)
}

/// Whether two character vectors are equal.
pub fn same_chars(a: &Vec<char>, b: &Vec<char>) -> (r: bool)
    ensures
        r == (a@ == b@),
{
    if a.len() != b.len() {
        return false;
    }
    let mut i: usize = 0;
    while i < a.len()
        invariant
            a.len() == b.len(),
            i <= a.len(),
            forall|j: int| 0 <= j < i ==> a@[j] == b@[j],
        decreases a.len() - i,
    {
        if a[i] != b[i] {
            return false;
        }
        i = i + 1;
    }
    assert(a@ =~= b@);
    true
}

/// Whether two strings hold the same characters.
pub fn str_eq(a: &str, b: &str) -> (r: bool)
    ensures
        r == (a@ == b@),
{
    let va = chars_of(a);
    let vb = chars_of(b);
    same_chars(&va, &vb)
}

/// `str::trim`.
pub fn trim_str(s: &str) -> (r: &str)
    ensures
        r@ == trim(s@),
{
    let v = chars_of(s);
    let n = v.len();
    assert(v@.subrange(0, n as int) == s@);
    let x = skip_ws(&v, 0, n);
    assert(trim_start(s@) == v@.subrange(x as int, n as int));
    let y = skip_ws_back(&v, x, n);
    assert(trim_end(v@.subrange(x as int, n as int)) == v@.subrange(x as int, y as int));
    s.substring_char(x, y)
}

// ---------------------------------------------------------------------------
// Decimal numbers
// ---------------------------------------------------------------------------

pub open spec fn digit_char(d: nat) -> char {
    if d == 0 {
        '0'
    } else if d == 1 {
        '1'
    } else if d == 2 {
        '2'
    } else if d == 3 {
        '3'
    } else if d == 4 {
        '4'
    } else if d == 5 {
        '5'
    } else if d == 6 {
        '6'
    } else if d == 7 {
        '7'
    } else if d == 8 {
        '8'
    } else {
        '9'
    }
}

/// Decimal digits of `n`, as `{}` formats an unsigned integer.
pub open spec fn decimal(n: nat) -> Seq<char>
    decreases n,
{
    if n < 10 {
        seq![digit_char(n)]
    } else {
        decimal(n / 10).push(digit_char(n % 10))
    }
}

fn digit(d: u64) -> (c: char)
    requires
        d < 10,
    ensures
        c == digit_char(d as nat),
{
    if d == 0 {
        '0'
    } else if d == 1 {
        '1'
    } else if d == 2 {
        '2'
    } else if d == 3 {
        '3'
    } else if d == 4 {
        '4'
    } else if d == 5 {
        '5'
    } else if d == 6 {
        '6'
    } else if d == 7 {
        '7'
    } else if d == 8 {
        '8'
    } else {
        '9'
    }
}

/// Append the decimal digits of `n` to `out`.
pub fn push_decimal(out: &mut String, n: u64)
    ensures
        final(out)@ == old(out)@ + decimal(n as nat),
    decreases n,
{
    if n >= 10 {
        push_decimal(out, n / 10);
    }
    out.push(digit(n % 10));
    assert(n >= 10 ==> decimal(n as nat) == decimal((n / 10) as nat).push(digit_char((n % 10) as nat)));
}

} // verus!
