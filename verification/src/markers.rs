//! The four literal conflict-marker tokens and substring search.
//!
//! The markers are a wire-level contract: the merge primitive writes them
//! around each conflicting region and the segmenter finds them again. They
//! must not change independently on either side.

use vstd::prelude::*;

verus! {

/// The token that opens a conflict region, before the "ours" span.
pub open spec fn start_seq() -> Seq<char> {
    "<<<<<<< ours"@
}

/// The token that separates the "ours" span from the captured baseline span.
pub open spec fn mid1_seq() -> Seq<char> {
    "||||||| original"@
}

/// The token that separates the baseline span from the "theirs" span.
pub open spec fn mid2_seq() -> Seq<char> {
    "======="@
}

/// The token that closes a conflict region, after the "theirs" span.
pub open spec fn end_seq() -> Seq<char> {
    ">>>>>>> theirs"@
}

pub fn start_marker() -> (r: &'static str)
    ensures
        r@ == start_seq(),
{
    "<<<<<<< ours"
}

pub fn mid1_marker() -> (r: &'static str)
    ensures
        r@ == mid1_seq(),
{
    "||||||| original"
}

pub fn mid2_marker() -> (r: &'static str)
    ensures
        r@ == mid2_seq(),
{
    "======="
}

pub fn end_marker() -> (r: &'static str)
    ensures
        r@ == end_seq(),
{
    ">>>>>>> theirs"
}

/// The lengths of the four marker tokens, in characters.
pub proof fn lemma_marker_lens()
    ensures
        start_seq().len() == 12,
        mid1_seq().len() == 16,
        mid2_seq().len() == 7,
        end_seq().len() == 14,
{
    reveal_strlit("<<<<<<< ours");
    reveal_strlit("||||||| original");
    reveal_strlit("=======");
    reveal_strlit(">>>>>>> theirs");
}

/// Pattern `p` occurs in `s` at position `i`.
pub open spec fn matches_at(s: Seq<char>, p: Seq<char>, i: int) -> bool {
    &&& 0 <= i
    &&& i + p.len() <= s.len()
    &&& s.subrange(i, i + p.len() as int) == p
}

/// Position of the first occurrence of a nonempty pattern `p` in `s` at or
/// after `from`; `None` when there is none (or `p` is empty).
pub open spec fn first_match_from(s: Seq<char>, p: Seq<char>, from: int) -> Option<int>
    decreases s.len() - from,
{
    if p.len() <= 0 || from < 0 || from + p.len() > s.len() {
        None
    } else if s.subrange(from, from + p.len() as int) == p {
        Some(from)
    } else {
        first_match_from(s, p, from + 1)
    }
}

pub proof fn lemma_first_match_bounds(s: Seq<char>, p: Seq<char>, from: int)
    ensures
        first_match_from(s, p, from) matches Some(i) ==> {
            &&& from <= i
            &&& 0 < p.len()
            &&& matches_at(s, p, i)
        },
    decreases s.len() - from,
{
    if p.len() <= 0 || from < 0 || from + p.len() > s.len() {
    } else if s.subrange(from, from + p.len() as int) == p {
    } else {
        lemma_first_match_bounds(s, p, from + 1);
    }
}

/// A first match found in the suffix `s.subrange(k, s.len())` sits `k`
/// positions earlier than the same match found in `s` itself.
pub proof fn lemma_first_match_offset(s: Seq<char>, p: Seq<char>, k: int, from: int)
    requires
        0 <= k <= from,
        k <= s.len(),
    ensures
        first_match_from(s, p, from) == match first_match_from(
            s.subrange(k, s.len() as int),
            p,
            from - k,
        ) {
            Some(i) => Some(i + k),
            None => None::<int>,
        },
    decreases s.len() - from,
{
    let t = s.subrange(k, s.len() as int);
    if p.len() <= 0 || from < 0 || from + p.len() > s.len() {
        assert(first_match_from(s, p, from) is None);
        assert(p.len() <= 0 || from - k < 0 || from - k + p.len() > t.len());
    } else {
        assert(s.subrange(from, from + p.len() as int) =~= t.subrange(
            from - k,
            from - k + p.len() as int,
        ));
        if s.subrange(from, from + p.len() as int) == p {
        } else {
            lemma_first_match_offset(s, p, k, from + 1);
        }
    }
}

fn match_at_exec(s: &str, p: &str, i: usize, plen: usize) -> (r: bool)
    requires
        plen == p@.len(),
        i + plen <= s@.len(),
        s@.len() <= usize::MAX,
    ensures
        r == matches_at(s@, p@, i as int),
{
    let mut j: usize = 0;
    while j < plen
        invariant
            j <= plen,
            plen == p@.len(),
            i + plen <= s@.len(),
            s@.len() <= usize::MAX,
            forall|k: int| 0 <= k < j ==> s@[i + k] == p@[k],
        decreases plen - j,
    {
        if s.get_char(i + j) != p.get_char(j) {
            assert(s@.subrange(i as int, i + plen as int)[j as int] != p@[j as int]);
            return false;
        }
        j += 1;
    }
    assert(s@.subrange(i as int, i + plen as int) =~= p@);
    true
}

/// First occurrence of `p` in `s` at or after position `from`, by characters.
pub fn find_from(s: &str, p: &str, from: usize) -> (r: Option<usize>)
    ensures
        match r {
            Some(i) => first_match_from(s@, p@, from as int) == Some(i as int),
            None => first_match_from(s@, p@, from as int) is None,
        },
{
    let n = s.unicode_len();
    let plen = p.unicode_len();
    if plen == 0 || from > n || plen > n - from {
        return None;
    }
    let mut i: usize = from;
    while i <= n - plen
        invariant
            from <= i,
            plen >= 1,
            plen <= n,
            n == s@.len(),
            plen == p@.len(),
            first_match_from(s@, p@, from as int) == first_match_from(s@, p@, i as int),
        decreases n - i,
    {
        if match_at_exec(s, p, i, plen) {
            assert(first_match_from(s@, p@, i as int) == Some(i as int));
            return Some(i);
        }
        assert(first_match_from(s@, p@, i as int) == first_match_from(s@, p@, i + 1));
        i += 1;
    }
    assert(first_match_from(s@, p@, i as int) is None);
    None
}

} // verus!
