//! Character-sequence utilities: literal conversion, decimal rendering,
//! pattern search and whitespace trimming, each proved against a direct
//! specification.
use vstd::prelude::*;
use vstd::string::StrSliceExecFns;

verus! {

/// Copies a string slice into a vector of its characters.
pub fn str_to_chars(s: &str) -> (r: Vec<char>)
    ensures
        r@ == s@,
{
    let n: usize = s.unicode_len();
    let mut r: Vec<char> = Vec::new();
    let mut i: usize = 0;
    while i < n
        invariant
            n == s@.len(),
            i <= n,
            r@ == s@.subrange(0, i as int),
        decreases n - i,
    {
        r.push(s.get_char(i));
        i = i + 1;
        assert(r@ =~= s@.subrange(0, i as int));
    }
    assert(r@ =~= s@);
    r
}

/// The character for one decimal digit.
pub open spec fn digit_char(d: int) -> char {
    if d == 0 {
        '0'
    } else if d == 1 {
        '1'
    } else if d == 2 {
        '2'
    } else if d == 3 {
        '3'
    } else if d == 4 {
        '4'
    } else if d == 5 {
        '5'
    } else if d == 6 {
        '6'
    } else if d == 7 {
        '7'
    } else if d == 8 {
        '8'
    } else {
        '9'
    }
}

/// The decimal rendering of a non-negative integer, most significant digit
/// first.
pub open spec fn dec_digits(n: int) -> Seq<char>
    recommends
        n >= 0,
    decreases n,
{
    if n < 10 {
        seq![digit_char(n)]
    } else {
        dec_digits(n / 10).push(digit_char(n % 10))
    }
}

fn digit_of(d: u64) -> (c: char)
    requires
        d < 10,
    ensures
        c == digit_char(d as int),
{
    if d == 0 {
        '0'
    } else if d == 1 {
        '1'
    } else if d == 2 {
        '2'
    } else if d == 3 {
        '3'
    } else if d == 4 {
        '4'
    } else if d == 5 {
        '5'
    } else if d == 6 {
        '6'
    } else if d == 7 {
        '7'
    } else if d == 8 {
        '8'
    } else {
        '9'
    }
}

/// Renders an unsigned integer in decimal.
pub fn u64_to_chars(n: u64) -> (r: Vec<char>)
    ensures
        r@ == dec_digits(n as int),
    decreases n,
{
    let d: u64 = n % 10;
    let c: char = digit_of(d);
    if n < 10 {
        let mut v: Vec<char> = Vec::new();
        v.push(c);
        assert(v@ =~= dec_digits(n as int));
        v
    } else {
        let mut v: Vec<char> = u64_to_chars(n / 10);
        v.push(c);
        assert(v@ =~= dec_digits(n as int));
        v
    }
}

/// Holds when `pat` occurs in `h` starting at index `i`.
pub open spec fn match_at(h: Seq<char>, pat: Seq<char>, i: int) -> bool {
    &&& 0 <= i
    &&& i + pat.len() <= h.len()
    &&& h.subrange(i, i + pat.len() as int) == pat
}

/// The index of the first occurrence of `pat` in `h` at or after `from`.
pub open spec fn first_match_from(h: Seq<char>, pat: Seq<char>, from: int) -> Option<int>
    recommends
        from >= 0,
    decreases h.len() - from + 1,
{
    if from < 0 || from + pat.len() > h.len() {
        None
    } else if match_at(h, pat, from) {
        Some(from)
    } else {
        first_match_from(h, pat, from + 1)
    }
}

proof fn lemma_first_match_skip(h: Seq<char>, pat: Seq<char>, from: int, upto: int)
    requires
        0 <= from <= upto,
        forall|k: int| from <= k < upto ==> !match_at(h, pat, k),
    ensures
        first_match_from(h, pat, from) == first_match_from(h, pat, upto),
    decreases upto - from,
{
    if from < upto {
        if from + pat.len() > h.len() {
            assert(upto + pat.len() > h.len());
        } else {
            lemma_first_match_skip(h, pat, from + 1, upto);
        }
    }
}

pub proof fn lemma_first_match_bounds(h: Seq<char>, pat: Seq<char>, from: int)
    requires
        0 <= from,
    ensures
        match first_match_from(h, pat, from) {
            Some(i) => from <= i && i + pat.len() <= h.len() && match_at(h, pat, i),
            None => true,
        },
    decreases h.len() - from + 1,
{
    if !(from + pat.len() > h.len()) && !match_at(h, pat, from) {
        lemma_first_match_bounds(h, pat, from + 1);
    }
}

fn pattern_matches_at(h: &Vec<char>, pat: &Vec<char>, i: usize) -> (b: bool)
    requires
        i + pat@.len() <= h@.len(),
    ensures
        b == match_at(h@, pat@, i as int),
{
    let hn: usize = h.len();
    let mut j: usize = 0;
    while j < pat.len()
        invariant
            i + pat@.len() <= h@.len(),
            h@.len() == hn,
            j <= pat@.len(),
            h@.subrange(i as int, i + j) =~= pat@.subrange(0, j as int),
        decreases pat@.len() - j,
    {
        if h[i + j] != pat[j] {
            assert(!match_at(h@, pat@, i as int)) by {
                if match_at(h@, pat@, i as int) {
                    assert(h@.subrange(i as int, i + pat@.len())[j as int] == pat@[j as int]);
                }
            }
            return false;
        }
        j = j + 1;
        assert(h@.subrange(i as int, i + j) =~= pat@.subrange(0, j as int));
    }
    assert(h@.subrange(i as int, i + pat@.len()) =~= pat@);
    true
}

/// Finds the first occurrence of `pat` in `h` at or after `from`.
pub fn find_pattern_from(h: &Vec<char>, pat: &Vec<char>, from: usize) -> (r: Option<usize>)
    requires
        pat@.len() >= 1,
    ensures
        match r {
            Some(i) => first_match_from(h@, pat@, from as int) == Some(i as int),
            None => first_match_from(h@, pat@, from as int) is None,
        },
{
    if pat.len() > h.len() || from > h.len() - pat.len() {
        return None;
    }
    let end: usize = h.len() - pat.len();
    let mut i: usize = from;
    while i <= end
        invariant
            from <= i <= end + 1,
            end == h@.len() - pat@.len(),
            end <= usize::MAX - 1,
            pat@.len() >= 1,
            forall|k: int| from <= k < i ==> !match_at(h@, pat@, k),
        decreases end + 1 - i,
    {
        if pattern_matches_at(h, pat, i) {
            proof {
                lemma_first_match_skip(h@, pat@, from as int, i as int);
            }
            return Some(i);
        }
        i = i + 1;
    }
    proof {
        lemma_first_match_skip(h@, pat@, from as int, i as int);
    }
    None
}

/// The index of the last occurrence of `c` in `h`.
pub open spec fn last_char_at(h: Seq<char>, c: char) -> Option<int>
    decreases h.len(),
{
    if h.len() == 0 {
        None
    } else if h[h.len() - 1] == c {
        Some(h.len() - 1)
    } else {
        last_char_at(h.drop_last(), c)
    }
}

proof fn lemma_last_char_found(h: Seq<char>, c: char, i: int)
    requires
        0 <= i < h.len(),
        h[i] == c,
        forall|k: int| i < k < h.len() ==> h[k] != c,
    ensures
        last_char_at(h, c) == Some(i),
    decreases h.len(),
{
    if i < h.len() - 1 {
        assert(h.drop_last() =~= h.subrange(0, h.len() - 1));
        lemma_last_char_found(h.drop_last(), c, i);
    }
}

proof fn lemma_last_char_missing(h: Seq<char>, c: char)
    requires
        forall|k: int| 0 <= k < h.len() ==> h[k] != c,
    ensures
        last_char_at(h, c) is None,
    decreases h.len(),
{
    if h.len() > 0 {
        lemma_last_char_missing(h.drop_last(), c);
    }
}

/// Finds the last occurrence of `c` in `h`.
pub fn rfind_char(h: &Vec<char>, c: char) -> (r: Option<usize>)
    ensures
        match r {
            Some(i) => i < h@.len() && last_char_at(h@, c) == Some(i as int),
            None => last_char_at(h@, c) is None,
        },
{
    let mut i: usize = h.len();
    while i > 0
        invariant
            i <= h@.len(),
            forall|k: int| i <= k < h@.len() ==> h@[k] != c,
        decreases i,
    {
        i = i - 1;
        if h[i] == c {
            proof {
                lemma_last_char_found(h@, c, i as int);
            }
            return Some(i);
        }
    }
    proof {
        lemma_last_char_missing(h@, c);
    }
    None
}

/// Whitespace as the standard trim sees it: the Unicode `White_Space`
/// code points.
pub open spec fn is_space(c: char) -> bool {
    ||| c == '\u{9}'
    ||| c == '\u{a}'
    ||| c == '\u{b}'
    ||| c == '\u{c}'
    ||| c == '\u{d}'
    ||| c == ' '
    ||| c == '\u{85}'
    ||| c == '\u{a0}'
    ||| c == '\u{1680}'
    ||| c == '\u{2000}'
    ||| c == '\u{2001}'
    ||| c == '\u{2002}'
    ||| c == '\u{2003}'
    ||| c == '\u{2004}'
    ||| c == '\u{2005}'
    ||| c == '\u{2006}'
    ||| c == '\u{2007}'
    ||| c == '\u{2008}'
    ||| c == '\u{2009}'
    ||| c == '\u{200a}'
    ||| c == '\u{2028}'
    ||| c == '\u{2029}'
    ||| c == '\u{202f}'
    ||| c == '\u{205f}'
    ||| c == '\u{3000}'
}

/// The first index at or after `i` holding a non-space character, or the
/// length of `s`.
pub open spec fn trim_start_idx(s: Seq<char>, i: int) -> int
    recommends
        0 <= i <= s.len(),
    decreases s.len() - i,
{
    if i < 0 || i >= s.len() {
        s.len() as int
    } else if is_space(s[i]) {
        trim_start_idx(s, i + 1)
    } else {
        i
    }
}

/// The end (exclusive) of the last non-space character strictly before `i`,
/// or zero.
pub open spec fn trim_end_idx(s: Seq<char>, i: int) -> int
    recommends
        0 <= i <= s.len(),
    decreases i,
{
    if i <= 0 || i > s.len() {
        0
    } else if is_space(s[i - 1]) {
        trim_end_idx(s, i - 1)
    } else {
        i
    }
}

/// `s` with leading and trailing whitespace removed.
pub open spec fn trim_spec(s: Seq<char>) -> Seq<char> {
    let a = trim_start_idx(s, 0);
    let b = trim_end_idx(s, s.len() as int);
    if a <= b {
        s.subrange(a, b)
    } else {
        Seq::empty()
    }
}

fn exec_is_space(c: char) -> (b: bool)
    ensures
        b == is_space(c),
{
    c == '\u{9}' || c == '\u{a}' || c == '\u{b}' || c == '\u{c}' || c == '\u{d}' || c == ' ' || c
        == '\u{85}' || c == '\u{a0}' || c == '\u{1680}' || c == '\u{2000}' || c == '\u{2001}' || c
        == '\u{2002}' || c == '\u{2003}' || c == '\u{2004}' || c == '\u{2005}' || c == '\u{2006}'
        || c == '\u{2007}' || c == '\u{2008}' || c == '\u{2009}' || c == '\u{200a}' || c
        == '\u{2028}' || c == '\u{2029}' || c == '\u{202f}' || c == '\u{205f}' || c == '\u{3000}'
}

/// Copies the range `[from, to)` of `h` into a fresh vector.
pub fn copy_range(h: &Vec<char>, from: usize, to: usize) -> (r: Vec<char>)
    requires
        from <= to <= h@.len(),
    ensures
        r@ == h@.subrange(from as int, to as int),
{
    let mut r: Vec<char> = Vec::new();
    let mut i: usize = from;
    while i < to
        invariant
            from <= i <= to <= h@.len(),
            r@ == h@.subrange(from as int, i as int),
        decreases to - i,
    {
        r.push(h[i]);
        i = i + 1;
        assert(r@ =~= h@.subrange(from as int, i as int));
    }
    r
}

/// Compares two texts character for character.
pub fn chars_equal(a: &Vec<char>, b: &Vec<char>) -> (r: bool)
    ensures
        r == (a@ == b@),
{
    if a.len() != b.len() {
        return false;
    }
    let mut i: usize = 0;
    while i < a.len()
        invariant
            a@.len() == b@.len(),
            i <= a@.len(),
            forall|k: int| 0 <= k < i ==> a@[k] == b@[k],
        decreases a@.len() - i,
    {
        if a[i] != b[i] {
            return false;
        }
        i = i + 1;
    }
    assert(a@ =~= b@);
    true
}

/// Removes leading and trailing whitespace.
pub fn trim_chars(s: &Vec<char>) -> (r: Vec<char>)
    ensures
        r@ == trim_spec(s@),
{
    let mut a: usize = 0;
    while a < s.len() && exec_is_space(s[a])
        invariant
            a <= s@.len(),
            trim_start_idx(s@, 0) == trim_start_idx(s@, a as int),
        decreases s@.len() - a,
    {
        a = a + 1;
    }
    assert(trim_start_idx(s@, a as int) == a as int);
    let mut b: usize = s.len();
    while b > 0 && exec_is_space(s[b - 1])
        invariant
            b <= s@.len(),
            trim_end_idx(s@, s@.len() as int) == trim_end_idx(s@, b as int),
        decreases b,
    {
        b = b - 1;
    }
    assert(trim_end_idx(s@, b as int) == b as int);
    if a <= b {
        copy_range(s, a, b)
    } else {
        let r: Vec<char> = Vec::new();
        assert(r@ =~= trim_spec(s@));
        r
    }
}

} // verus!
