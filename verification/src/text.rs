//! Character-level string tools: whitespace trimming, searching and
//! comparison over the `Seq<char>` view of a string.

use vstd::prelude::*;
use vstd::std_specs::iter::IteratorSpec;

verus! {

broadcast use vstd::string::group_string_axioms;

/// The whole character sequence of `s`, collected into a vector.
pub fn chars_of(s: &str) -> (v: Vec<char>)
    ensures
        v@ == s@,
{
    let mut v: Vec<char> = Vec::new();
    let mut it = s.chars();
    loop
        invariant
            v@ + it.remaining() == s@,
            it.decrease() is Some,
        ensures
            v@ == s@,
        decreases it.decrease()->0,
    {
        match it.next() {
            Some(c) => {
                v.push(c);
            },
            None => {
                break;
            },
        }
    }
    v
}

} // verus!

verus! {

/// The Unicode `White_Space` property, which `char::is_whitespace` (and so
/// `str::trim`) tests: U+0009 to U+000D, U+0020, U+0085, U+00A0, U+1680,
/// U+2000 to U+200A, U+2028, U+2029, U+202F, U+205F and U+3000.
pub open spec fn char_is_whitespace(c: char) -> bool {
    let u = c as u32;
    ||| 0x09 <= u <= 0x0d
    ||| u == 0x20
    ||| u == 0x85
    ||| u == 0xa0
    ||| u == 0x1680
    ||| 0x2000 <= u <= 0x200a
    ||| u == 0x2028
    ||| u == 0x2029
    ||| u == 0x202f
    ||| u == 0x205f
    ||| u == 0x3000
}

/// Whether `c` is a whitespace character, as `char::is_whitespace` decides.
pub fn is_whitespace(c: char) -> (r: bool)
    ensures
        r == char_is_whitespace(c),
{
    let u = c as u32;
    (0x09 <= u && u <= 0x0d) || u == 0x20 || u == 0x85 || u == 0xa0 || u == 0x1680 || (0x2000 <= u
        && u <= 0x200a) || u == 0x2028 || u == 0x2029 || u == 0x202f || u == 0x205f || u == 0x3000
}

/// Index of the first non-whitespace character at or after `i`
/// (or `s.len()` when there is none).
pub open spec fn skip_ws_from(s: Seq<char>, i: int) -> int
    decreases s.len() - i,
{
    if 0 <= i < s.len() && char_is_whitespace(s[i]) {
        skip_ws_from(s, i + 1)
    } else {
        i
    }
}

/// End index of `s.take(j)` once its trailing whitespace is removed.
pub open spec fn back_ws_from(s: Seq<char>, j: int) -> int
    decreases j,
{
    if 0 < j <= s.len() && char_is_whitespace(s[j - 1]) {
        back_ws_from(s, j - 1)
    } else {
        j
    }
}

/// `s` without its leading whitespace (what `str::trim_start` gives).
pub open spec fn trim_start_spec(s: Seq<char>) -> Seq<char> {
    s.skip(skip_ws_from(s, 0))
}

/// Bounds of `s` once leading and trailing whitespace are removed.
pub open spec fn trim_bounds(s: Seq<char>) -> (int, int) {
    let a: int = skip_ws_from(s, 0);
    let b: int = back_ws_from(s, s.len() as int);
    if b <= a {
        (a, a)
    } else {
        (a, b)
    }
}

/// `s` without leading and trailing whitespace (what `str::trim` gives).
pub open spec fn trim_spec(s: Seq<char>) -> Seq<char> {
    s.subrange(trim_bounds(s).0, trim_bounds(s).1)
}

pub proof fn lemma_skip_ws_from(s: Seq<char>, i: int)
    requires
        0 <= i <= s.len(),
    ensures
        i <= skip_ws_from(s, i) <= s.len(),
        forall|k: int| i <= k < skip_ws_from(s, i) ==> char_is_whitespace(#[trigger] s[k]),
        skip_ws_from(s, i) < s.len() ==> !char_is_whitespace(s[skip_ws_from(s, i)]),
    decreases s.len() - i,
{
    if i < s.len() && char_is_whitespace(s[i]) {
        lemma_skip_ws_from(s, i + 1);
    }
}

pub proof fn lemma_back_ws_from(s: Seq<char>, j: int)
    requires
        0 <= j <= s.len(),
    ensures
        0 <= back_ws_from(s, j) <= j,
        forall|k: int| back_ws_from(s, j) <= k < j ==> char_is_whitespace(#[trigger] s[k]),
        back_ws_from(s, j) > 0 ==> !char_is_whitespace(s[back_ws_from(s, j) - 1]),
    decreases j,
{
    if 0 < j && char_is_whitespace(s[j - 1]) {
        lemma_back_ws_from(s, j - 1);
    }
}

/// Facts that pin down the trimmed bounds.
pub proof fn lemma_trim_bounds(s: Seq<char>)
    ensures
        0 <= trim_bounds(s).0 <= trim_bounds(s).1 <= s.len(),
        trim_bounds(s).0 == skip_ws_from(s, 0),
        forall|k: int| 0 <= k < trim_bounds(s).0 ==> char_is_whitespace(#[trigger] s[k]),
        forall|k: int| trim_bounds(s).1 <= k < s.len() ==> char_is_whitespace(#[trigger] s[k]),
        trim_bounds(s).0 < trim_bounds(s).1 ==> !char_is_whitespace(s[trim_bounds(s).0])
            && !char_is_whitespace(s[trim_bounds(s).1 - 1]),
        trim_bounds(s).0 == trim_bounds(s).1 ==> trim_bounds(s).0 == s.len() || trim_bounds(s).1
            == back_ws_from(s, s.len() as int),
{
    lemma_skip_ws_from(s, 0);
    lemma_back_ws_from(s, s.len() as int);
    let a: int = skip_ws_from(s, 0);
    let b: int = back_ws_from(s, s.len() as int);
    if b <= a && a < s.len() {
        // s[a] is not whitespace, yet every index in [b, len) is
        assert(char_is_whitespace(s[a]));
    }
}

/// Removes leading and trailing whitespace, as `str::trim` does.
pub fn trim(s: &str) -> (r: &str)
    ensures
        r@ == trim_spec(s@),
{
    let cs = chars_of(s);
    let n: usize = cs.len();
    let mut i: usize = 0;
    while i < n
        invariant
            cs@ == s@,
            n == s@.len(),
            0 <= i <= n,
            skip_ws_from(s@, i as int) == skip_ws_from(s@, 0),
        ensures
            0 <= i <= n,
            skip_ws_from(s@, 0) == i,
        decreases n - i,
    {
        if !is_whitespace(cs[i]) {
            break;
        }
        i = i + 1;
    }
    proof {
        lemma_trim_bounds(s@);
    }
    let mut j: usize = n;
    while j > i
        invariant
            cs@ == s@,
            n == s@.len(),
            0 <= i <= j <= n,
            skip_ws_from(s@, 0) == i,
            back_ws_from(s@, j as int) == back_ws_from(s@, n as int),
        ensures
            0 <= i <= j <= n,
            back_ws_from(s@, j as int) == back_ws_from(s@, n as int),
            j == i || back_ws_from(s@, j as int) == j,
        decreases j,
    {
        if !is_whitespace(cs[j - 1]) {
            break;
        }
        j = j - 1;
    }
    proof {
        lemma_back_ws_from(s@, j as int);
        lemma_skip_ws_from(s@, 0);
        if j == i && i < n {
            lemma_back_ws_from(s@, n as int);
        }
    }
    s.substring_char(i, j)
}

/// Removes leading whitespace, as `str::trim_start` does.
pub fn trim_start(s: &str) -> (r: &str)
    ensures
        r@ == trim_start_spec(s@),
{
    let cs = chars_of(s);
    let n: usize = cs.len();
    let mut i: usize = 0;
    while i < n
        invariant
            cs@ == s@,
            n == s@.len(),
            0 <= i <= n,
            skip_ws_from(s@, i as int) == skip_ws_from(s@, 0),
        ensures
            0 <= i <= n,
            skip_ws_from(s@, 0) == i,
        decreases n - i,
    {
        if !is_whitespace(cs[i]) {
            break;
        }
        i = i + 1;
    }
    s.substring_char(i, n)
}

} // verus!

verus! {

/// `p` occurs in `s` starting at index `i`.
pub open spec fn occurs_at(s: Seq<char>, p: Seq<char>, i: int) -> bool {
    0 <= i && i + p.len() <= s.len() && s.subrange(i, i + p.len()) == p
}

/// Index of the first occurrence of `p` in `s` at or after `i`, or -1.
pub open spec fn first_occurrence_from(s: Seq<char>, p: Seq<char>, i: int) -> int
    decreases s.len() - i,
{
    if 0 <= i < s.len() {
        if occurs_at(s, p, i) {
            i
        } else {
            first_occurrence_from(s, p, i + 1)
        }
    } else {
        -1
    }
}

/// Index of the last occurrence of `p` in `s` starting before `k`, or -1.
pub open spec fn last_occurrence_before(s: Seq<char>, p: Seq<char>, k: int) -> int
    decreases k,
{
    if k <= 0 {
        -1
    } else if occurs_at(s, p, k - 1) {
        k - 1
    } else {
        last_occurrence_before(s, p, k - 1)
    }
}

/// `s` begins with `p`.
pub open spec fn has_prefix(s: Seq<char>, p: Seq<char>) -> bool {
    p.len() <= s.len() && s.take(p.len() as int) == p
}

/// Whether `p` occurs in `s` at index `i`.
pub fn matches_at(s: &Vec<char>, p: &Vec<char>, i: usize) -> (r: bool)
    ensures
        r == occurs_at(s@, p@, i as int),
{
    if i > s.len() || p.len() > s.len() - i {
        return false;
    }
    let sn: usize = s.len();
    let mut k: usize = 0;
    while k < p.len()
        invariant
            sn == s@.len(),
            i + p@.len() <= s@.len(),
            0 <= k <= p@.len(),
            forall|m: int| 0 <= m < k ==> s@[i + m] == p@[m],
        decreases p.len() - k,
    {
        if s[i + k] != p[k] {
            assert(s@.subrange(i as int, i + p@.len())[k as int] != p@[k as int]);
            return false;
        }
        k = k + 1;
    }
    assert(s@.subrange(i as int, i + p@.len()) =~= p@);
    true
}

/// First occurrence of the non-empty pattern `p` in `s`, as `str::find` reports it.
pub fn find_first(s: &Vec<char>, p: &Vec<char>) -> (r: Option<usize>)
    ensures
        match r {
            Some(i) => i == first_occurrence_from(s@, p@, 0),
            None => first_occurrence_from(s@, p@, 0) == -1,
        },
{
    let n: usize = s.len();
    let mut i: usize = 0;
    while i < n
        invariant
            n == s@.len(),
            0 <= i <= n,
            first_occurrence_from(s@, p@, i as int) == first_occurrence_from(s@, p@, 0),
        decreases n - i,
    {
        if matches_at(s, p, i) {
            return Some(i);
        }
        i = i + 1;
    }
    None
}

/// Last occurrence of the non-empty pattern `p` in `s`, as `str::rfind` reports it.
pub fn find_last(s: &Vec<char>, p: &Vec<char>) -> (r: Option<usize>)
    ensures
        match r {
            Some(i) => i == last_occurrence_before(s@, p@, s@.len() as int),
            None => last_occurrence_before(s@, p@, s@.len() as int) == -1,
        },
{
    let mut k: usize = s.len();
    while k > 0
        invariant
            0 <= k <= s@.len(),
            last_occurrence_before(s@, p@, k as int) == last_occurrence_before(
                s@,
                p@,
                s@.len() as int,
            ),
        decreases k,
    {
        if matches_at(s, p, k - 1) {
            return Some(k - 1);
        }
        k = k - 1;
    }
    None
}

/// Whether two strings hold the same characters.
pub fn str_eq(a: &str, b: &str) -> (r: bool)
    ensures
        r == (a@ == b@),
{
    let x = chars_of(a);
    let y = chars_of(b);
    if x.len() != y.len() {
        return false;
    }
    let r = matches_at(&x, &y, 0);
    assert(x@.subrange(0, y@.len() as int) =~= x@);
    r
}

/// Whether `s` begins with `p`, as `str::starts_with` reports it.
pub fn starts_with(s: &str, p: &str) -> (r: bool)
    ensures
        r == has_prefix(s@, p@),
{
    let x = chars_of(s);
    let y = chars_of(p);
    let r = matches_at(&x, &y, 0);
    assert(r ==> x@.subrange(0, y@.len() as int) =~= x@.take(y@.len() as int));
    assert(has_prefix(s@, p@) ==> x@.subrange(0, y@.len() as int) =~= x@.take(y@.len() as int));
    r
}

/// Name for what `str::to_lowercase` returns: the Unicode lowercase mapping of
/// every character of `s`.
pub uninterp spec fn lowercase(s: Seq<char>) -> Seq<char>;

/// Calls `str::to_lowercase`; the contract says only that the result is the
/// named lowercase mapping of `s` (the Unicode case tables are not restated).
#[verifier::external_body]
pub(crate) fn to_lowercase(s: &str) -> (r: String)
    ensures
        r@ == lowercase(s@),
{
    s.to_lowercase()
}

} // verus!

verus! {

pub proof fn lemma_first_occurrence_bounds(s: Seq<char>, p: Seq<char>, i: int)
    requires
        0 <= i,
    ensures
        first_occurrence_from(s, p, i) == -1 || (i <= first_occurrence_from(s, p, i) < s.len()
            && occurs_at(s, p, first_occurrence_from(s, p, i))),
    decreases s.len() - i,
{
    if 0 <= i < s.len() && !occurs_at(s, p, i) {
        lemma_first_occurrence_bounds(s, p, i + 1);
    }
}

pub proof fn lemma_last_occurrence_bounds(s: Seq<char>, p: Seq<char>, k: int)
    ensures
        last_occurrence_before(s, p, k) == -1 || (0 <= last_occurrence_before(s, p, k) < k
            && occurs_at(s, p, last_occurrence_before(s, p, k))),
    decreases k,
{
    if k > 0 && !occurs_at(s, p, k - 1) {
        lemma_last_occurrence_bounds(s, p, k - 1);
    }
}

} // verus!

verus! {

/// `x` is a contiguous piece of `s`.
pub open spec fn is_slice_of(x: Seq<char>, s: Seq<char>) -> bool {
    exists|i: int, j: int| 0 <= i <= j <= s.len() && x == s.subrange(i, j)
}

pub proof fn lemma_slice_of_subrange(s: Seq<char>, i: int, j: int)
    requires
        0 <= i <= j <= s.len(),
    ensures
        is_slice_of(s.subrange(i, j), s),
{
}

pub proof fn lemma_slice_of_trans(x: Seq<char>, y: Seq<char>, z: Seq<char>)
    requires
        is_slice_of(x, y),
        is_slice_of(y, z),
    ensures
        is_slice_of(x, z),
{
    let (i1, j1): (int, int) = choose|i: int, j: int| 0 <= i <= j <= y.len() && x == y.subrange(i, j);
    let (i2, j2): (int, int) = choose|i: int, j: int| 0 <= i <= j <= z.len() && y == z.subrange(i, j);
    assert(x =~= z.subrange(i2 + i1, i2 + j1));
}

pub proof fn lemma_trim_is_slice(s: Seq<char>)
    ensures
        is_slice_of(trim_spec(s), s),
{
    lemma_trim_bounds(s);
    lemma_slice_of_subrange(s, trim_bounds(s).0, trim_bounds(s).1);
}

pub proof fn lemma_trim_start_is_slice(s: Seq<char>)
    ensures
        is_slice_of(trim_start_spec(s), s),
{
    lemma_skip_ws_from(s, 0);
    assert(trim_start_spec(s) =~= s.subrange(skip_ws_from(s, 0), s.len() as int));
    lemma_slice_of_subrange(s, skip_ws_from(s, 0), s.len() as int);
}

/// Trimming twice gives what trimming once gives.
pub proof fn lemma_trim_idempotent(s: Seq<char>)
    ensures
        trim_spec(trim_spec(s)) == trim_spec(s),
{
    lemma_trim_bounds(s);
    let t = trim_spec(s);
    lemma_trim_bounds(t);
    if t.len() > 0 {
        assert(t[0] == s[trim_bounds(s).0]);
        assert(t[t.len() - 1] == s[trim_bounds(s).1 - 1]);
        assert(skip_ws_from(t, 0) == 0);
        assert(back_ws_from(t, t.len() as int) == t.len());
        assert(trim_spec(t) =~= t);
    } else {
        assert(trim_spec(t) =~= t);
    }
}

} // verus!
