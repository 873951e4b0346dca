//! The round-trip law of segmentation.
//!
//! Merge-marked text is modelled as leading plain text followed by regions,
//! each wrapped in the literal markers and followed by plain text. For any
//! such text whose plain parts and spans do not themselves stray into the
//! marker vocabulary (the well-formedness below; text that does is the
//! accepted fragility of the format), segmenting and rejoining reproduces
//! the input exactly: when no region matches the heuristic, the resolver
//! returns the whole input unchanged, as `Ok` when there is no region at
//! all and as `Err` when at least one region is left.

use vstd::prelude::*;

use crate::markers::end_seq;
use crate::markers::first_match_from;
use crate::markers::lemma_first_match_bounds;
use crate::markers::lemma_first_match_offset;
use crate::markers::lemma_marker_lens;
use crate::markers::mid1_seq;
use crate::markers::mid2_seq;
use crate::markers::start_seq;
use crate::resolver::chunk_out;
use crate::resolver::next_cut;
use crate::resolver::parse_chunk;
use crate::resolver::resolve_from;
use crate::resolver::resolve_marked_text;
use crate::resolver::resolve_region;

verus! {

/// The three spans of one modelled region.
pub struct RegionParts {
    pub ours: Seq<char>,
    pub original: Seq<char>,
    pub theirs: Seq<char>,
}

/// Merge-marked text: leading plain text, then regions each followed by
/// plain text.
pub struct MarkedText {
    pub lead: Seq<char>,
    pub rest: Seq<(RegionParts, Seq<char>)>,
}

/// The body of a region: the three spans around the two mid markers.
pub open spec fn region_chunk(r: RegionParts) -> Seq<char> {
    r.ours + mid1_seq() + r.original + mid2_seq() + r.theirs
}

/// A region as it stands in the text: its body wrapped in the start and
/// end markers.
pub open spec fn region_with_markers(r: RegionParts) -> Seq<char> {
    start_seq() + region_chunk(r) + end_seq()
}

pub open spec fn render_rest(rest: Seq<(RegionParts, Seq<char>)>) -> Seq<char>
    decreases rest.len(),
{
    if rest.len() == 0 {
        Seq::empty()
    } else {
        region_with_markers(rest[0].0) + rest[0].1 + render_rest(rest.drop_first())
    }
}

/// The rendered text of the whole model.
pub open spec fn render_marked(m: MarkedText) -> Seq<char> {
    m.lead + render_rest(m.rest)
}

/// A region's body parses back to its own three spans: the first mid
/// markers of the body are the ones it was built with.
pub open spec fn wf_region(r: RegionParts) -> bool {
    let c = region_chunk(r);
    &&& first_match_from(c, mid1_seq(), 0) == Some(r.ours.len() as int)
    &&& first_match_from(c, mid2_seq(), 0) == Some(
        (r.ours.len() + mid1_seq().len() + r.original.len()) as int,
    )
}

/// Plain text before the rendered remainder: not itself a conflict body,
/// and the first start or end marker of what follows is the one that opens
/// the remainder (none at all when nothing follows).
pub open spec fn wf_gap(t: Seq<char>, rest: Seq<(RegionParts, Seq<char>)>) -> bool {
    let v = t + render_rest(rest);
    &&& parse_chunk(t) is None
    &&& if rest.len() == 0 {
        &&& first_match_from(v, start_seq(), 0) is None
        &&& first_match_from(v, end_seq(), 0) is None
    } else {
        &&& first_match_from(v, start_seq(), 0) == Some(t.len() as int)
        &&& (first_match_from(v, end_seq(), 0) matches Some(j) ==> j > t.len())
    }
}

/// After a region's opening marker, the next cut is its own closing end
/// marker: no stray marker occurrence inside the body.
pub open spec fn wf_region_close(
    r: RegionParts,
    t: Seq<char>,
    rest1: Seq<(RegionParts, Seq<char>)>,
) -> bool {
    let u = region_with_markers(r) + t + render_rest(rest1);
    let clen = region_chunk(r).len() as int;
    &&& first_match_from(u, end_seq(), 12) == Some(12 + clen)
    &&& (first_match_from(u, start_seq(), 12) matches Some(i) ==> i > 12 + clen)
}

pub open spec fn wf_rest(rest: Seq<(RegionParts, Seq<char>)>) -> bool
    decreases rest.len(),
{
    rest.len() == 0 || {
        &&& wf_region(rest[0].0)
        &&& wf_region_close(rest[0].0, rest[0].1, rest.drop_first())
        &&& wf_gap(rest[0].1, rest.drop_first())
        &&& wf_rest(rest.drop_first())
    }
}

/// Well-formed merge-marked text.
pub open spec fn wf_marked(m: MarkedText) -> bool {
    wf_gap(m.lead, m.rest) && wf_rest(m.rest)
}

/// No region of the model matches the heuristic.
pub open spec fn no_region_resolves(m: MarkedText) -> bool {
    forall|i: int|
        0 <= i < m.rest.len() ==> resolve_region(
            (#[trigger] m.rest[i]).0.ours,
            m.rest[i].0.original,
            m.rest[i].0.theirs,
        ) is None
}

/// A well-formed region's body parses back to exactly its three spans.
pub proof fn lemma_parse_region(r: RegionParts)
    requires
        wf_region(r),
    ensures
        parse_chunk(region_chunk(r)) == Some((r.ours, r.original, r.theirs)),
{
    lemma_marker_lens();
    let c = region_chunk(r);
    let i = r.ours.len() as int;
    let j = r.ours.len() + mid1_seq().len() + r.original.len();
    assert(c.subrange(0, i) =~= r.ours);
    assert(c.subrange(i + 16, j as int) =~= r.original);
    assert(c.subrange(j as int + 7, c.len() as int) =~= r.theirs);
}

/// An unresolved well-formed region is wrapped again byte for byte: the
/// heuristic's rejection path reproduces the original marker-wrapped
/// region exactly.
pub proof fn lemma_unresolved_region_kept(r: RegionParts)
    requires
        wf_region(r),
        resolve_region(r.ours, r.original, r.theirs) is None,
    ensures
        chunk_out(region_chunk(r)) == (region_with_markers(r), false),
{
    lemma_parse_region(r);
}

/// The resolver's scan is the same on a suffix taken as a text of its own.
pub proof fn lemma_resolve_from_shift(s: Seq<char>, k: int, from: int)
    requires
        0 <= k <= from <= s.len(),
    ensures
        resolve_from(s, from) == resolve_from(s.subrange(k, s.len() as int), from - k),
    decreases s.len() - from,
{
    let t = s.subrange(k, s.len() as int);
    lemma_marker_lens();
    lemma_first_match_offset(s, start_seq(), k, from);
    lemma_first_match_offset(s, end_seq(), k, from);
    match next_cut(s, from) {
        None => {
            assert(s.subrange(from, s.len() as int) =~= t.subrange(from - k, t.len() as int));
        },
        Some((cut, mlen)) => {
            lemma_first_match_bounds(s, start_seq(), from);
            lemma_first_match_bounds(s, end_seq(), from);
            assert(next_cut(t, from - k) == Some((cut - k, mlen)));
            assert(s.subrange(from, cut) =~= t.subrange(from - k, cut - k));
            lemma_resolve_from_shift(s, k, cut + mlen);
        },
    }
}

/// The round-trip law: on well-formed merge-marked text none of whose
/// regions matches the heuristic, the resolver returns the input exactly,
/// resolved only when there is no region at all.
pub proof fn lemma_round_trip_rec(m: MarkedText)
    requires
        wf_marked(m),
        no_region_resolves(m),
    ensures
        resolve_from(render_marked(m), 0) == (render_marked(m), m.rest.len() == 0),
    decreases m.rest.len(),
{
    lemma_marker_lens();
    let s = render_marked(m);
    assert(m.lead + render_rest(m.rest) == s);
    if m.rest.len() == 0 {
        assert(s =~= m.lead);
        assert(next_cut(s, 0) is None);
        assert(resolve_from(s, 0) == chunk_out(s.subrange(0, s.len() as int)));
        assert(s.subrange(0, s.len() as int) =~= s);
        assert(chunk_out(s) == (s, true));
    } else {
        let r = m.rest[0].0;
        let t1 = m.rest[0].1;
        let rest1 = m.rest.drop_first();
        let chunk = region_chunk(r);
        let clen = chunk.len() as int;
        let llen = m.lead.len() as int;
        assert(render_rest(m.rest) == region_with_markers(r) + t1 + render_rest(rest1));

        // The first cut is the opening marker, right after the lead.
        assert(next_cut(s, 0) == Some((llen, 12int)));
        assert(s.subrange(0, llen) =~= m.lead);
        assert(chunk_out(m.lead) == (m.lead, true));

        // The second cut is the closing marker of the first region.
        let u = region_with_markers(r) + t1 + render_rest(rest1);
        assert(u =~= s.subrange(llen, s.len() as int));
        lemma_first_match_offset(s, end_seq(), llen, llen + 12);
        lemma_first_match_offset(s, start_seq(), llen, llen + 12);
        assert(next_cut(s, llen + 12) == Some((llen + 12 + clen, 14int)));
        assert(s.subrange(llen + 12, llen + 12 + clen) =~= chunk);
        assert(resolve_region(r.ours, r.original, r.theirs) is None);
        lemma_unresolved_region_kept(r);

        // The remainder is itself a well-formed marked text.
        let m1 = MarkedText { lead: t1, rest: rest1 };
        assert(wf_marked(m1));
        assert(no_region_resolves(m1)) by {
            assert(forall|i: int|
                0 <= i < rest1.len() ==> rest1[i] == (#[trigger] m.rest[i + 1]));
        }
        lemma_round_trip_rec(m1);
        let p2 = llen + 12 + clen + 14;
        lemma_resolve_from_shift(s, p2, p2);
        assert(s.subrange(p2, s.len() as int) =~= render_marked(m1));

        // Put the three parts back together.
        assert(resolve_from(s, 0) == (chunk_out(s.subrange(0, llen)).0 + resolve_from(
            s,
            llen + 12,
        ).0, chunk_out(s.subrange(0, llen)).1 && resolve_from(s, llen + 12).1));
        assert(resolve_from(s, llen + 12) == (chunk_out(s.subrange(llen + 12, llen + 12 + clen)).0
            + resolve_from(s, p2).0, chunk_out(s.subrange(llen + 12, llen + 12 + clen)).1
            && resolve_from(s, p2).1));
        assert(m.lead + (region_with_markers(r) + render_marked(m1)) =~= s);
        assert(resolve_from(s, 0).0 == s);
        assert(resolve_from(s, 0).1 == false);
    }
}

/// The law stated over the resolver's public result: such text comes back
/// as `Ok` unchanged when it has no region, and as `Err` unchanged when at
/// least one unresolvable region is in it.
pub proof fn lemma_round_trip(m: MarkedText)
    requires
        wf_marked(m),
        no_region_resolves(m),
    ensures
        m.rest.len() == 0 ==> resolve_marked_text(render_marked(m)) == Ok::<Seq<char>, Seq<char>>(
            render_marked(m),
        ),
        m.rest.len() > 0 ==> resolve_marked_text(render_marked(m)) == Err::<Seq<char>, Seq<char>>(
            render_marked(m),
        ),
{
    lemma_round_trip_rec(m);
}

} // verus!
