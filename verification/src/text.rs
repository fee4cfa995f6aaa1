//! Operations on character sequences: searching, splitting, trimming and
//! matching, each with its meaning stated over `Seq<char>`.

use vstd::prelude::*;

verus! {

/// Whether `c` carries the Unicode `White_Space` property.
pub open spec fn is_space(c: char) -> bool {
    let u = c as u32;
    ||| 0x09 <= u <= 0x0d
    ||| u == 0x20
    ||| u == 0x85
    ||| u == 0xa0
    ||| u == 0x1680
    ||| 0x2000 <= u <= 0x200a
    ||| u == 0x2028
    ||| u == 0x2029
    ||| u == 0x202f
    ||| u == 0x205f
    ||| u == 0x3000
}

/// The first index at or after `from` at which `c` stands, or the length of
/// `s` where there is none.
pub open spec fn find_from(s: Seq<char>, c: char, from: int) -> int
    decreases s.len() - from,
{
    if from >= s.len() {
        s.len() as int
    } else if s[from] == c {
        from
    } else {
        find_from(s, c, from + 1)
    }
}

/// What stands before the first `c`; all of `s` where it holds no `c`.
pub open spec fn before(s: Seq<char>, c: char) -> Seq<char> {
    s.take(find_from(s, c, 0))
}

/// What stands after the first `c`, where there is one.
pub open spec fn after(s: Seq<char>, c: char) -> Option<Seq<char>> {
    let i = find_from(s, c, 0);
    if i < s.len() {
        Some(s.skip(i + 1))
    } else {
        None
    }
}

/// The first index at or after `from` that holds no white space.
pub open spec fn skip_spaces(s: Seq<char>, from: int) -> int
    decreases s.len() - from,
{
    if from < s.len() && is_space(s[from]) {
        skip_spaces(s, from + 1)
    } else {
        from
    }
}

/// The first index at or after `from` that holds white space.
pub open spec fn skip_word(s: Seq<char>, from: int) -> int
    decreases s.len() - from,
{
    if from < s.len() && !is_space(s[from]) {
        skip_word(s, from + 1)
    } else {
        from
    }
}

/// The end of `s[lo..hi]` once the white space at its end is taken away.
pub open spec fn back_spaces(s: Seq<char>, lo: int, hi: int) -> int
    decreases hi - lo,
{
    if lo < hi <= s.len() && is_space(s[hi - 1]) {
        back_spaces(s, lo, hi - 1)
    } else {
        hi
    }
}

/// `s` without the white space at its two ends.
pub open spec fn trimmed(s: Seq<char>) -> Seq<char> {
    let lo = skip_spaces(s, 0);
    s.subrange(lo, back_spaces(s, lo, s.len() as int))
}

/// The first run of characters of `s` that are no white space; empty where
/// `s` holds nothing else.
pub open spec fn first_word(s: Seq<char>) -> Seq<char> {
    let lo = skip_spaces(s, 0);
    s.subrange(lo, skip_word(s, lo))
}

/// Whether `p` occurs in `s` as a contiguous run.
pub open spec fn occurs_in(p: Seq<char>, s: Seq<char>) -> bool {
    exists|i: int| occurs_at(p, s, i)
}

/// Whether `p` stands in `s` at index `i`.
pub open spec fn occurs_at(p: Seq<char>, s: Seq<char>, i: int) -> bool {
    0 <= i && i + p.len() <= s.len() && s.subrange(i, i + p.len()) == p
}

/// The content of the line of `s` that starts at `from`: up to the next line
/// feed, without the carriage return that stands right before that line feed.
pub open spec fn line_at(s: Seq<char>, from: int) -> Seq<char> {
    let e = find_from(s, '\n', from);
    if from < e < s.len() && s[e - 1] == '\r' {
        s.subrange(from, e - 1)
    } else {
        s.subrange(from, e)
    }
}

/// Where the line after the one that starts at `from` begins.
pub open spec fn next_line(s: Seq<char>, from: int) -> int {
    find_from(s, '\n', from) + 1
}

/// The first line of `s`; empty where `s` is.
pub open spec fn first_line(s: Seq<char>) -> Seq<char> {
    line_at(s, 0)
}

/// The lower-case form of a string, as `str::to_lowercase` gives it.
pub uninterp spec fn lowercased(s: Seq<char>) -> Seq<char>;

/// Where `find_from` points: at or after `from`, at a `c` unless nothing is
/// left, with no `c` before it.
pub proof fn lemma_find_from(s: Seq<char>, c: char, from: int)
    requires
        0 <= from <= s.len(),
    ensures
        from <= find_from(s, c, from) <= s.len(),
        forall|j: int| from <= j < find_from(s, c, from) ==> s[j] != c,
        find_from(s, c, from) < s.len() ==> s[find_from(s, c, from)] == c,
    decreases s.len() - from,
{
    if from < s.len() && s[from] != c {
        lemma_find_from(s, c, from + 1);
    }
}

/// Where `skip_spaces` points: at or after `from`, at a character that is no
/// white space unless nothing is left, with white space only before it.
pub proof fn lemma_skip_spaces(s: Seq<char>, from: int)
    requires
        0 <= from <= s.len(),
    ensures
        from <= skip_spaces(s, from) <= s.len(),
        forall|j: int| from <= j < skip_spaces(s, from) ==> is_space(s[j]),
        skip_spaces(s, from) < s.len() ==> !is_space(s[skip_spaces(s, from)]),
    decreases s.len() - from,
{
    if from < s.len() && is_space(s[from]) {
        lemma_skip_spaces(s, from + 1);
    }
}

/// Where `back_spaces` points: between `lo` and `hi`, right after a character
/// that is no white space unless it is `lo`, with white space only after it.
pub proof fn lemma_back_spaces(s: Seq<char>, lo: int, hi: int)
    requires
        0 <= lo <= hi <= s.len(),
    ensures
        lo <= back_spaces(s, lo, hi) <= hi,
        forall|j: int| back_spaces(s, lo, hi) <= j < hi ==> is_space(s[j]),
        lo < back_spaces(s, lo, hi) ==> !is_space(s[back_spaces(s, lo, hi) - 1]),
    decreases hi - lo,
{
    if lo < hi && is_space(s[hi - 1]) {
        lemma_back_spaces(s, lo, hi - 1);
    }
}

/// An index is that of the first `c` at or after `from` where `c` stands
/// there, or nothing is left, and does not stand between `from` and it.
pub proof fn lemma_find_is(s: Seq<char>, c: char, from: int, at: int)
    requires
        0 <= from <= at <= s.len(),
        forall|j: int| from <= j < at ==> s[j] != c,
        at < s.len() ==> s[at] == c,
    ensures
        find_from(s, c, from) == at,
    decreases at - from,
{
    if from < at {
        lemma_find_is(s, c, from + 1, at);
    }
}

/// The bounds between which `trimmed` cuts: before the first and after the
/// second stands white space only, and where they differ they enclose a
/// character at each end that is none.
pub proof fn lemma_trimmed_bounds(s: Seq<char>) -> (r: (int, int))
    ensures
        0 <= r.0 <= r.1 <= s.len(),
        trimmed(s) == s.subrange(r.0, r.1),
        forall|j: int| 0 <= j < r.0 ==> is_space(s[j]),
        forall|j: int| r.1 <= j < s.len() ==> is_space(s[j]),
        r.0 < r.1 ==> !is_space(s[r.0]) && !is_space(s[r.1 - 1]),
        r.0 == r.1 ==> r.0 == s.len(),
{
    let lo = skip_spaces(s, 0);
    lemma_skip_spaces(s, 0);
    let hi = back_spaces(s, lo, s.len() as int);
    lemma_back_spaces(s, lo, s.len() as int);
    (lo, hi)
}

/// A part of `s` is `trimmed(s)` where white space only stands before and
/// after it and, unless it is empty, it starts and ends with a character
/// that is none.
pub proof fn lemma_trimmed_is(s: Seq<char>, a: int, b: int)
    requires
        0 <= a <= b <= s.len(),
        forall|j: int| 0 <= j < a ==> is_space(s[j]),
        forall|j: int| b <= j < s.len() ==> is_space(s[j]),
        a < b ==> !is_space(s[a]) && !is_space(s[b - 1]),
    ensures
        trimmed(s) == s.subrange(a, b),
{
    let (lo, hi) = lemma_trimmed_bounds(s);
    if a < b {
        assert(lo == a) by {
            if lo < a {
                assert(is_space(s[lo]));
            } else if lo > a {
                assert(is_space(s[a]));
            }
        }
        assert(hi == b) by {
            if hi < b {
                assert(is_space(s[b - 1]));
            } else if hi > b {
                assert(is_space(s[hi - 1]));
            }
        }
    } else {
        if lo < hi {
            assert(is_space(s[lo]));
        }
        assert(s.subrange(lo, hi) =~= s.subrange(a, b));
    }
}

/// Trimming what is trimmed changes nothing.
pub proof fn lemma_trimmed_twice(s: Seq<char>)
    ensures
        trimmed(trimmed(s)) == trimmed(s),
{
    let (lo, hi) = lemma_trimmed_bounds(s);
    let t = trimmed(s);
    lemma_trimmed_is(t, 0, t.len() as int);
    assert(t.subrange(0, t.len() as int) =~= t);
}

/// Whether `c` is white space.
pub fn char_is_space(c: char) -> (r: bool)
    ensures
        r == is_space(c),
{
    let u: u32 = c as u32;
    (0x09 <= u && u <= 0x0d) || u == 0x20 || u == 0x85 || u == 0xa0 || u == 0x1680 || (0x2000 <= u
        && u <= 0x200a) || u == 0x2028 || u == 0x2029 || u == 0x202f || u == 0x205f || u == 0x3000
}

/// The characters of `s`, in order.
pub fn chars_of(s: &str) -> (v: Vec<char>)
    ensures
        v@ == s@,
{
    let mut v: Vec<char> = Vec::new();
    for c in it: s.chars()
        invariant
            v@ == it.seq().take(it.index() as int),
    {
        v.push(c);
    }
    v
}

/// Calls `str::to_lowercase`, which maps a string to its lower-case form by
/// the Unicode case tables. The form is a function of the characters alone;
/// the contract gives it a name and says nothing else of it.
#[verifier::external_body]
pub(crate) fn lowercase(s: &str) -> (r: String)
    ensures
        r@ == lowercased(s@),
{
    s.to_lowercase()
}

/// Calls `String::from_iter` on a run of characters: the string that holds
/// these characters, in this order.
#[verifier::external_body]
pub(crate) fn string_of(s: &[char]) -> (r: String)
    ensures
        r@ == s@,
{
    String::from_iter(s)
}

/// The lower-case form of a run of characters.
pub fn lowercase_chars(s: &[char]) -> (v: Vec<char>)
    ensures
        v@ == lowercased(s@),
{
    let text: String = string_of(s);
    let lower: String = lowercase(text.as_str());
    chars_of(lower.as_str())
}

/// The part of `s` from index `i` up to, not including, index `j`.
pub fn range_of(s: &[char], i: usize, j: usize) -> (r: &[char])
    requires
        i <= j <= s.len(),
    ensures
        r@ == s@.subrange(i as int, j as int),
{
    vstd::slice::slice_subrange(s, i, j)
}

/// The first index at or after `from` at which `c` stands, or the length of
/// `s`.
pub fn find_char(s: &[char], c: char, from: usize) -> (r: usize)
    ensures
        r == find_from(s@, c, from as int),
        r <= s.len(),
        from <= s.len() ==> from <= r,
{
    if from >= s.len() {
        return s.len();
    }
    let mut i: usize = from;
    while i < s.len() && s[i] != c
        invariant
            from <= i <= s.len(),
            find_from(s@, c, from as int) == find_from(s@, c, i as int),
        decreases s.len() - i,
    {
        i += 1;
    }
    i
}

/// What stands before the first `c`.
pub fn take_before(s: &[char], c: char) -> (r: &[char])
    ensures
        r@ == before(s@, c),
{
    let i: usize = find_char(s, c, 0);
    range_of(s, 0, i)
}

/// What stands after the first `c`, where there is one.
pub fn take_after(s: &[char], c: char) -> (r: Option<&[char]>)
    ensures
        match r {
            Some(t) => after(s@, c) == Some(t@),
            None => after(s@, c) is None,
        },
{
    let i: usize = find_char(s, c, 0);
    if i < s.len() {
        Some(range_of(s, i + 1, s.len()))
    } else {
        None
    }
}

/// `s` without the white space at its two ends.
pub fn trim(s: &[char]) -> (r: &[char])
    ensures
        r@ == trimmed(s@),
{
    let mut lo: usize = 0;
    while lo < s.len() && char_is_space(s[lo])
        invariant
            lo <= s.len(),
            skip_spaces(s@, 0) == skip_spaces(s@, lo as int),
        decreases s.len() - lo,
    {
        lo += 1;
    }
    let mut hi: usize = s.len();
    while lo < hi && char_is_space(s[hi - 1])
        invariant
            lo <= hi <= s.len(),
            back_spaces(s@, lo as int, s@.len() as int) == back_spaces(s@, lo as int, hi as int),
        decreases hi,
    {
        hi -= 1;
    }
    range_of(s, lo, hi)
}

/// The first run of characters of `s` that are no white space.
pub fn take_first_word(s: &[char]) -> (r: &[char])
    ensures
        r@ == first_word(s@),
{
    let mut lo: usize = 0;
    while lo < s.len() && char_is_space(s[lo])
        invariant
            lo <= s.len(),
            skip_spaces(s@, 0) == skip_spaces(s@, lo as int),
        decreases s.len() - lo,
    {
        lo += 1;
    }
    let mut hi: usize = lo;
    while hi < s.len() && !char_is_space(s[hi])
        invariant
            lo <= hi <= s.len(),
            skip_word(s@, lo as int) == skip_word(s@, hi as int),
        decreases s.len() - hi,
    {
        hi += 1;
    }
    range_of(s, lo, hi)
}

/// Whether `s` and `t` hold the same characters.
pub fn same_chars(s: &[char], t: &[char]) -> (r: bool)
    ensures
        r == (s@ == t@),
{
    if s.len() != t.len() {
        return false;
    }
    let mut i: usize = 0;
    while i < s.len()
        invariant
            i <= s.len(),
            s.len() == t.len(),
            forall|j: int| 0 <= j < i ==> s@[j] == t@[j],
        decreases s.len() - i,
    {
        if s[i] != t[i] {
            return false;
        }
        i += 1;
    }
    assert(s@ =~= t@);
    true
}

/// Whether `s` starts with `p`.
pub fn has_prefix(s: &[char], p: &[char]) -> (r: bool)
    ensures
        r == p@.is_prefix_of(s@),
{
    if p.len() > s.len() {
        return false;
    }
    same_chars(range_of(s, 0, p.len()), p)
}

/// Whether `s` ends with `p`.
pub fn has_suffix(s: &[char], p: &[char]) -> (r: bool)
    ensures
        r == p@.is_suffix_of(s@),
{
    if p.len() > s.len() {
        return false;
    }
    same_chars(range_of(s, s.len() - p.len(), s.len()), p)
}

/// Whether `p` occurs in `s` as a contiguous run.
pub fn has_part(s: &[char], p: &[char]) -> (r: bool)
    ensures
        r == occurs_in(p@, s@),
{
    if p.len() > s.len() {
        assert(forall|i: int| !occurs_at(p@, s@, i));
        return false;
    }
    let last: usize = s.len() - p.len();
    let mut i: usize = 0;
    loop
        invariant
            i <= last,
            last == s.len() - p.len(),
            forall|j: int| 0 <= j < i ==> !occurs_at(p@, s@, j),
        decreases last - i,
    {
        if same_chars(range_of(s, i, i + p.len()), p) {
            assert(occurs_at(p@, s@, i as int));
            return true;
        }
        if i == last {
            assert(forall|j: int| !occurs_at(p@, s@, j));
            return false;
        }
        i += 1;
    }
}

/// The content of the line that starts at `from`, and the index at which that
/// line ends: that of its line feed, or the length of `s` where it has none.
pub fn take_line(s: &[char], from: usize) -> (r: (&[char], usize))
    requires
        from <= s.len(),
    ensures
        r.0@ == line_at(s@, from as int),
        r.1 == find_from(s@, '\n', from as int),
        from <= r.1 <= s.len(),
{
    let e: usize = find_char(s, '\n', from);
    if from < e && e < s.len() && s[e - 1] == '\r' {
        (range_of(s, from, e - 1), e)
    } else {
        (range_of(s, from, e), e)
    }
}

} // verus!
