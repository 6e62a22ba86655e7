//! The JSON reply format and the removal of a Markdown code fence around it.

use vstd::prelude::*;
use crate::text::{
    char_is_whitespace, trim_bounds,
    chars_of, find_first, find_last, first_occurrence_from, has_prefix, is_slice_of,
    last_occurrence_before, lemma_first_occurrence_bounds, lemma_last_occurrence_bounds,
    lemma_slice_of_subrange, lemma_slice_of_trans, lemma_trim_idempotent, lemma_trim_is_slice,
    lemma_trim_bounds, lemma_trim_start_is_slice, occurs_at, skip_ws_from, starts_with, trim, trim_spec, trim_start, trim_start_spec,
};

verus! {

/// The reply the model is asked to give, once its JSON is read.
#[derive(Clone, Debug)]
pub struct NecoResponse {
    pub command_or_script: String,
    pub file_name: String,
    pub is_script: bool,
    pub from_cache: bool,
    pub description: String,
}

/// The opening (and bare closing) Markdown code fence.
pub open spec fn fence() -> Seq<char> {
    "```"@
}

/// A closing fence on a line of its own.
pub open spec fn closing_fence() -> Seq<char> {
    "\n```"@
}

/// `a` begins with the language tag `json`, in any letter case.
pub open spec fn has_json_tag(a: Seq<char>) -> bool {
    &&& a.len() >= 4
    &&& (a[0] == 'j' || a[0] == 'J')
    &&& (a[1] == 's' || a[1] == 'S')
    &&& (a[2] == 'o' || a[2] == 'O')
    &&& (a[3] == 'n' || a[3] == 'N')
}

/// The text after the opening fence and after the optional `json` tag, with
/// leading whitespace removed.
pub open spec fn fence_inner(c: Seq<char>) -> Seq<char> {
    let a = trim_start_spec(c.skip(3));
    if has_json_tag(a) {
        trim_start_spec(a.skip(4))
    } else {
        a
    }
}

/// Where the fenced body ends: at the last closing fence on its own line,
/// otherwise at the first bare fence, otherwise at the end.
pub open spec fn fence_body_end(b: Seq<char>) -> int {
    let e: int = last_occurrence_before(b, closing_fence(), b.len() as int);
    if e >= 0 {
        e
    } else {
        let f: int = first_occurrence_from(b, fence(), 0);
        if f >= 0 {
            f
        } else {
            b.len() as int
        }
    }
}

/// The text of `s` once surrounding whitespace and a Markdown code fence
/// (with an optional `json` tag) are removed.
pub open spec fn stripped(s: Seq<char>) -> Seq<char> {
    let c = trim_spec(s);
    if has_prefix(c, fence()) {
        let b = fence_inner(c);
        trim_spec(b.take(fence_body_end(b)))
    } else {
        c
    }
}

/// Removes surrounding whitespace and a Markdown code fence ```` ```json ... ``` ````
/// or ```` ``` ... ``` ```` and returns what was inside; text without an
/// opening fence comes back only trimmed.
pub fn strip_markdown_code_block(content: &str) -> (r: &str)
    ensures
        r@ == stripped(content@),
{
    let c = trim(content);
    if !starts_with(c, "```") {
        return c;
    }
    proof {
        reveal_strlit("```");
        reveal_strlit("\n```");
    }
    let n: usize = c.unicode_len();
    let a = trim_start(c.substring_char(3, n));
    let ac = chars_of(a);
    let b: &str = if ac.len() >= 4 && (ac[0] == 'j' || ac[0] == 'J') && (ac[1] == 's' || ac[1]
        == 'S') && (ac[2] == 'o' || ac[2] == 'O') && (ac[3] == 'n' || ac[3] == 'N') {
        trim_start(a.substring_char(4, ac.len()))
    } else {
        a
    };
    assert(b@ == fence_inner(c@));
    let bc = chars_of(b);
    let closing = chars_of("\n```");
    let bare = chars_of("```");
    let end: usize = match find_last(&bc, &closing) {
        Some(e) => e,
        None => match find_first(&bc, &bare) {
            Some(f) => f,
            None => bc.len(),
        },
    };
    proof {
        lemma_last_occurrence_bounds(b@, closing_fence(), b@.len() as int);
        lemma_first_occurrence_bounds(b@, fence(), 0);
    }
    assert(end == fence_body_end(b@));
    let body = b.substring_char(0, end);
    assert(body@ == b@.take(end as int));
    trim(body)
}

} // verus!

verus! {

/// What the fence removal gives back is always a contiguous piece of its
/// input (it is a slice of it).
pub proof fn lemma_stripped_is_slice_of_input(s: Seq<char>)
    ensures
        is_slice_of(stripped(s), s),
{
    reveal_strlit("```");
    let c = trim_spec(s);
    lemma_trim_is_slice(s);
    if has_prefix(c, fence()) {
        lemma_fenced_result_after_fence(s);
        lemma_slice_of_subrange(c, 3, c.len() as int);
        assert(c.skip(3) =~= c.subrange(3, c.len() as int));
        lemma_slice_of_trans(stripped(s), c.skip(3), c);
        lemma_slice_of_trans(stripped(s), c, s);
    }
}

/// When the trimmed input opens with a fence, the result lies entirely after
/// that fence: the fence itself is never returned.
pub proof fn lemma_fenced_result_after_fence(s: Seq<char>)
    requires
        has_prefix(trim_spec(s), fence()),
    ensures
        is_slice_of(stripped(s), trim_spec(s).skip(3)),
{
    let c = trim_spec(s);
    let a = trim_start_spec(c.skip(3));
    lemma_trim_start_is_slice(c.skip(3));
    let b = fence_inner(c);
    if has_json_tag(a) {
        lemma_trim_start_is_slice(a.skip(4));
        assert(a.skip(4) =~= a.subrange(4, a.len() as int));
        lemma_slice_of_subrange(a, 4, a.len() as int);
        lemma_slice_of_trans(b, a.skip(4), a);
    } else {
        assert(a.subrange(0, a.len() as int) =~= a);
        lemma_slice_of_subrange(a, 0, a.len() as int);
    }
    lemma_slice_of_trans(b, a, c.skip(3));
    let end: int = fence_body_end(b);
    lemma_last_occurrence_bounds(b, closing_fence(), b.len() as int);
    lemma_first_occurrence_bounds(b, fence(), 0);
    assert(0 <= end <= b.len());
    assert(b.take(end) =~= b.subrange(0, end));
    lemma_slice_of_subrange(b, 0, end);
    lemma_trim_is_slice(b.take(end));
    lemma_slice_of_trans(stripped(s), b.take(end), b);
    lemma_slice_of_trans(stripped(s), b, c.skip(3));
}

/// The result never has leading or trailing whitespace.
pub proof fn lemma_stripped_is_trimmed(s: Seq<char>)
    ensures
        trim_spec(stripped(s)) == stripped(s),
{
    let c = trim_spec(s);
    if has_prefix(c, fence()) {
        let b = fence_inner(c);
        lemma_trim_idempotent(b.take(fence_body_end(b)));
    } else {
        lemma_trim_idempotent(s);
    }
}

/// Whitespace around the reply makes no difference: stripping the trimmed
/// text gives the same result as stripping the text itself.
pub proof fn lemma_stripped_ignores_surrounding_whitespace(s: Seq<char>)
    ensures
        stripped(trim_spec(s)) == stripped(s),
{
    lemma_trim_idempotent(s);
}

/// A result that does not itself open with a fence is left as it is by a
/// second removal.
pub proof fn lemma_stripped_stable(s: Seq<char>)
    requires
        !has_prefix(stripped(s), fence()),
    ensures
        stripped(stripped(s)) == stripped(s),
{
    lemma_stripped_is_trimmed(s);
}

} // verus!

verus! {

/// A fence opening with the `json` tag, on a line of its own.
pub open spec fn json_fence_open() -> Seq<char> {
    "```json\n"@
}

proof fn lemma_last_occurrence_skip(s: Seq<char>, p: Seq<char>, k: int, m: int)
    requires
        0 <= m <= k,
        forall|i: int| m <= i < k ==> !occurs_at(s, p, i),
    ensures
        last_occurrence_before(s, p, k) == last_occurrence_before(s, p, m),
    decreases k - m,
{
    if k > m {
        lemma_last_occurrence_skip(s, p, k - 1, m);
    }
}

proof fn lemma_trimmed_ends(s: Seq<char>)
    requires
        trim_spec(s) == s,
        s.len() > 0,
    ensures
        !char_is_whitespace(s[0]),
        !char_is_whitespace(s[s.len() - 1]),
{
    lemma_trim_bounds(s);
}

/// The text a `json` fence around `s` leaves after the opening fence, its
/// tag and the whitespace that follows them.
proof fn lemma_json_fence_inner(s: Seq<char>, tail2: Seq<char>)
    requires
        trim_spec(s) == s,
    ensures
        fence_inner(json_fence_open() + s + closing_fence() + tail2) == if s.len() > 0 {
            s + closing_fence() + tail2
        } else {
            fence() + tail2
        },
{
    reveal_strlit("```json\n");
    reveal_strlit("\n```");
    reveal_strlit("```");
    let c = closing_fence();
    let tt = json_fence_open() + s + c + tail2;
    let a0 = tt.skip(3);
    assert(a0[0] == 'j');
    assert(skip_ws_from(a0, 0) == 0);
    assert(trim_start_spec(a0) =~= a0);
    assert(has_json_tag(a0));
    let y = a0.skip(4);
    assert(y =~= seq!['\n'] + s + c + tail2);
    assert(char_is_whitespace(y[0]));
    assert(skip_ws_from(y, 0) == skip_ws_from(y, 1));
    if s.len() > 0 {
        lemma_trimmed_ends(s);
        assert(y[1] == s[0]);
        assert(skip_ws_from(y, 1) == 1);
        assert(y.skip(1) =~= s + c + tail2);
    } else {
        assert(y =~= seq!['\n'] + c + tail2);
        assert(char_is_whitespace(y[1]));
        assert(skip_ws_from(y, 1) == skip_ws_from(y, 2));
        assert(y[2] == '`');
        assert(skip_ws_from(y, 2) == 2);
        assert(y.skip(2) =~= fence() + tail2);
    }
}

/// Where the fenced body ends in what [`lemma_json_fence_inner`] describes.
proof fn lemma_json_fence_end(s: Seq<char>, tail2: Seq<char>)
    requires
        forall|i: int| !occurs_at(tail2, closing_fence(), i),
    ensures
        s.len() > 0 ==> fence_body_end(s + closing_fence() + tail2) == s.len(),
        fence_body_end(fence() + tail2) == 0,
{
    reveal_strlit("\n```");
    reveal_strlit("```");
    let c = closing_fence();
    if s.len() > 0 {
        let b = s + c + tail2;
        let ls: int = s.len() as int;
        assert forall|i: int| ls + 1 <= i < b.len() implies !occurs_at(b, c, i) by {
            if occurs_at(b, c, i) {
                assert(b.subrange(i, i + 4)[0] == c[0]);
                if i < ls + 4 {
                    assert(b[i] == c[i - ls]);
                } else {
                    assert(b.subrange(i, i + 4) =~= tail2.subrange(i - ls - 4, i - ls));
                    assert(occurs_at(tail2, c, i - ls - 4));
                }
            }
        }
        lemma_last_occurrence_skip(b, c, b.len() as int, ls + 1);
        assert(b.subrange(ls, ls + 4) =~= c);
        assert(occurs_at(b, c, ls));
    }
    let b = fence() + tail2;
    assert forall|i: int| 0 <= i < b.len() implies !occurs_at(b, c, i) by {
        if occurs_at(b, c, i) {
            assert(b.subrange(i, i + 4)[0] == c[0]);
            if i < 3 {
                assert(b[i] == '`');
            } else {
                assert(b.subrange(i, i + 4) =~= tail2.subrange(i - 3, i + 1));
                assert(occurs_at(tail2, c, i - 3));
            }
        }
    }
    lemma_last_occurrence_skip(b, c, b.len() as int, 0);
    assert(b.subrange(0, 3) =~= fence());
    assert(occurs_at(b, fence(), 0));
}

/// A JSON body in a `json` fence, followed by any text without another
/// closing fence on its own line, comes back exactly, as long as the body has
/// no surrounding whitespace.
pub proof fn lemma_json_fence_body(s: Seq<char>, tail: Seq<char>)
    requires
        trim_spec(s) == s,
        forall|i: int| !occurs_at(tail, closing_fence(), i),
    ensures
        stripped(json_fence_open() + s + closing_fence() + tail) == s,
{
    reveal_strlit("```json\n");
    reveal_strlit("\n```");
    reveal_strlit("```");
    let o = json_fence_open();
    let c = closing_fence();
    let t = o + s + c + tail;
    let n0: int = 8 + s.len() as int + 4;
    assert(t[0] == '`');
    assert(t[n0 - 1] == '`');
    lemma_trim_bounds(t);
    let back: int = trim_bounds(t).1;
    assert(back >= n0) by {
        if back < n0 {
            assert(char_is_whitespace(t[n0 - 1]));
        }
    }
    assert(trim_bounds(t).0 == 0);
    let tail2 = tail.take(back - n0);
    let tt = trim_spec(t);
    assert(tt =~= o + s + c + tail2);
    assert(has_prefix(tt, fence())) by {
        assert(tt.take(3) =~= fence());
    }
    assert forall|i: int| !occurs_at(tail2, c, i) by {
        if occurs_at(tail2, c, i) {
            assert(tail2.subrange(i, i + 4) =~= tail.subrange(i, i + 4));
            assert(occurs_at(tail, c, i));
        }
    }
    lemma_json_fence_inner(s, tail2);
    lemma_json_fence_end(s, tail2);
    let b = fence_inner(tt);
    if s.len() > 0 {
        assert(b.take(s.len() as int) =~= s);
    } else {
        assert(b.take(0) =~= s);
        lemma_trim_bounds(s);
    }
}

/// Round trip: a body without surrounding whitespace, wrapped in a `json`
/// fence, is given back by the fence removal.
pub proof fn lemma_json_fence_round_trip(s: Seq<char>)
    requires
        trim_spec(s) == s,
    ensures
        stripped(json_fence_open() + s + closing_fence()) == s,
{
    let e = Seq::<char>::empty();
    assert(json_fence_open() + s + closing_fence() + e =~= json_fence_open() + s + closing_fence());
    reveal_strlit("\n```");
    assert forall|i: int| !occurs_at(e, closing_fence(), i) by {}
    lemma_json_fence_body(s, e);
}

/// Text after the closing fence is ignored, as long as it holds no further
/// closing fence on its own line.
pub proof fn lemma_text_after_closing_fence_ignored(s: Seq<char>, tail: Seq<char>)
    requires
        trim_spec(s) == s,
        forall|i: int| !occurs_at(tail, closing_fence(), i),
    ensures
        stripped(json_fence_open() + s + closing_fence() + tail) == stripped(
            json_fence_open() + s + closing_fence(),
        ),
{
    lemma_json_fence_body(s, tail);
    lemma_json_fence_round_trip(s);
}

} // verus!
