//! Segmentation of conflict-marked text and the deterministic heuristic.
//!
//! Text coming back from the merge primitive is cut at every occurrence of
//! the start and end marker tokens, in one pass from left to right. Each
//! piece ("chunk") between two cuts is a conflict body exactly when it
//! holds both mid markers, in order; any other piece is plain text. A
//! conflict body is resolved when one side together with the captured
//! baseline span is blank; an unresolved body is wrapped again in the
//! literal start and end markers, byte for byte, so a later tool or a human
//! can still find it. A chunk whose own text happens to contain one of the
//! marker tokens is misclassified; there is no escaping mechanism, and that
//! fragility is accepted.

use vstd::prelude::*;

use crate::markers::end_marker;
use crate::markers::end_seq;
use crate::markers::find_from;
use crate::markers::first_match_from;
use crate::markers::lemma_first_match_bounds;
use crate::markers::lemma_marker_lens;
use crate::markers::mid1_marker;
use crate::markers::mid1_seq;
use crate::markers::mid2_marker;
use crate::markers::mid2_seq;
use crate::markers::start_marker;
use crate::markers::start_seq;
use vstd::string::StrSliceExecFns;
use vstd::string::StringExecFns;

verus! {

/// The three spans of one conflict region: the accumulated-output side,
/// the baseline span the merge primitive captured, and the layer side.
pub struct Conflict<'a> {
    pub ours: &'a str,
    pub original: &'a str,
    pub theirs: &'a str,
}

/// A character the heuristic ignores: the Unicode white-space characters.
pub open spec fn is_blank_char(c: char) -> bool {
    ||| c == ' '
    ||| c == '\t'
    ||| c == '\n'
    ||| c == '\r'
    ||| c == '\u{000B}'
    ||| c == '\u{000C}'
    ||| c == '\u{0085}'
    ||| c == '\u{00A0}'
    ||| c == '\u{1680}'
    ||| c == '\u{2000}'
    ||| c == '\u{2001}'
    ||| c == '\u{2002}'
    ||| c == '\u{2003}'
    ||| c == '\u{2004}'
    ||| c == '\u{2005}'
    ||| c == '\u{2006}'
    ||| c == '\u{2007}'
    ||| c == '\u{2008}'
    ||| c == '\u{2009}'
    ||| c == '\u{200A}'
    ||| c == '\u{2028}'
    ||| c == '\u{2029}'
    ||| c == '\u{202F}'
    ||| c == '\u{205F}'
    ||| c == '\u{3000}'
}

/// A span normalizes to empty: every character is white space.
pub open spec fn is_blank_text(s: Seq<char>) -> bool {
    forall|i: int| 0 <= i < s.len() ==> is_blank_char(s[i])
}

/// The heuristic, per region: a span added against a blank-and-unchanged
/// ancestor region wins outright; anything else stays unresolved.
pub open spec fn resolve_region(ours: Seq<char>, original: Seq<char>, theirs: Seq<char>) -> Option<
    Seq<char>,
> {
    if is_blank_text(ours) && is_blank_text(original) {
        Some(theirs)
    } else if is_blank_text(theirs) && is_blank_text(original) {
        Some(ours)
    } else {
        None
    }
}

/// The three spans of a conflict body, if the chunk is one: it must hold
/// both mid markers with the first wholly before the second. The first
/// occurrence of each mid marker decides the cut, so a span whose own text
/// contains a mid marker is sliced wrongly (the accepted fragility).
pub open spec fn parse_chunk(c: Seq<char>) -> Option<(Seq<char>, Seq<char>, Seq<char>)> {
    match (first_match_from(c, mid1_seq(), 0), first_match_from(c, mid2_seq(), 0)) {
        (Some(i), Some(j)) => if i + mid1_seq().len() <= j {
            Some(
                (
                    c.subrange(0, i),
                    c.subrange(i + mid1_seq().len() as int, j),
                    c.subrange(j + mid2_seq().len() as int, c.len() as int),
                ),
            )
        } else {
            None
        },
        _ => None,
    }
}

/// What one chunk contributes to the output, and whether it is resolved:
/// plain text passes through; a resolved region becomes the winning span; an
/// unresolved region is wrapped again in the start and end markers.
pub open spec fn chunk_out(c: Seq<char>) -> (Seq<char>, bool) {
    match parse_chunk(c) {
        None => (c, true),
        Some(r) => match resolve_region(r.0, r.1, r.2) {
            Some(t) => (t, true),
            None => (start_seq() + c + end_seq(), false),
        },
    }
}

/// The next cut at or after `from`: the earliest occurrence of the start or
/// end marker, with that marker's length.
pub open spec fn next_cut(s: Seq<char>, from: int) -> Option<(int, int)> {
    match (first_match_from(s, start_seq(), from), first_match_from(s, end_seq(), from)) {
        (Some(i), Some(j)) => if i <= j {
            Some((i, start_seq().len() as int))
        } else {
            Some((j, end_seq().len() as int))
        },
        (Some(i), None) => Some((i, start_seq().len() as int)),
        (None, Some(j)) => Some((j, end_seq().len() as int)),
        (None, None) => None,
    }
}

/// The resolver's result on the suffix of `s` from `from`: the rebuilt text
/// and whether every region in it was resolved.
pub open spec fn resolve_from(s: Seq<char>, from: int) -> (Seq<char>, bool)
    decreases s.len() - from,
    via resolve_from_decreases
{
    match next_cut(s, from) {
        None => chunk_out(s.subrange(from, s.len() as int)),
        Some((cut, mlen)) => {
            let head = chunk_out(s.subrange(from, cut));
            let rest = resolve_from(s, cut + mlen);
            (head.0 + rest.0, head.1 && rest.1)
        },
    }
}

#[via_fn]
proof fn resolve_from_decreases(s: Seq<char>, from: int) {
    lemma_first_match_bounds(s, start_seq(), from);
    lemma_first_match_bounds(s, end_seq(), from);
    lemma_marker_lens();
}

/// The whole file: `Ok` with the rebuilt text when every region resolved,
/// `Err` with the partially resolved text otherwise.
pub open spec fn resolve_marked_text(s: Seq<char>) -> Result<Seq<char>, Seq<char>> {
    let r = resolve_from(s, 0);
    if r.1 {
        Ok(r.0)
    } else {
        Err(r.0)
    }
}

/// Every character of `s` is white space.
pub fn text_is_blank(s: &str) -> (r: bool)
    ensures
        r == is_blank_text(s@),
{
    let n = s.unicode_len();
    let mut k: usize = 0;
    while k < n
        invariant
            k <= n,
            n == s@.len(),
            forall|t: int| 0 <= t < k ==> is_blank_char(s@[t]),
        decreases n - k,
    {
        if !char_is_blank(s.get_char(k)) {
            return false;
        }
        k += 1;
    }
    true
}

/// Whether `c` is one of the Unicode white-space characters.
pub fn char_is_blank(c: char) -> (r: bool)
    ensures
        r == is_blank_char(c),
{
    c == ' ' || c == '\t' || c == '\n' || c == '\r' || c == '\u{000B}' || c == '\u{000C}' || c
        == '\u{0085}' || c == '\u{00A0}' || c == '\u{1680}' || c == '\u{2000}' || c == '\u{2001}'
        || c == '\u{2002}' || c == '\u{2003}' || c == '\u{2004}' || c == '\u{2005}' || c
        == '\u{2006}' || c == '\u{2007}' || c == '\u{2008}' || c == '\u{2009}' || c == '\u{200A}'
        || c == '\u{2028}' || c == '\u{2029}' || c == '\u{202F}' || c == '\u{205F}' || c
        == '\u{3000}'
}

/// The heuristic on one region: `Ok` with the winning span where one side
/// and the baseline span are blank, `Err` where neither side is.
pub fn resolve_conflict<'a>(conflict: Conflict<'a>) -> (r: Result<&'a str, ()>)
    ensures
        match resolve_region(conflict.ours@, conflict.original@, conflict.theirs@) {
            Some(t) => r matches Ok(s) && s@ == t,
            None => r is Err,
        },
{
    let ours_blank = text_is_blank(conflict.ours);
    let original_blank = text_is_blank(conflict.original);
    if ours_blank && original_blank {
        return Ok(conflict.theirs);
    }
    let theirs_blank = text_is_blank(conflict.theirs);
    if theirs_blank && original_blank {
        return Ok(conflict.ours);
    }
    Err(())
}

/// Appends to `out` what the chunk contributes; returns whether the chunk
/// is resolved (plain text counts as resolved).
fn emit_chunk(chunk: &str, out: &mut String) -> (ok: bool)
    ensures
        final (out)@ == old(out)@ + chunk_out(chunk@).0,
        ok == chunk_out(chunk@).1,
{
    proof {
        lemma_marker_lens();
        lemma_first_match_bounds(chunk@, mid1_seq(), 0);
        lemma_first_match_bounds(chunk@, mid2_seq(), 0);
    }
    let n = chunk.unicode_len();
    let oi = find_from(chunk, mid1_marker(), 0);
    let ei = find_from(chunk, mid2_marker(), 0);
    match (oi, ei) {
        (Some(i), Some(j)) => {
            if i + 16 <= j {
                let ours = chunk.substring_char(0, i);
                let original = chunk.substring_char(i + 16, j);
                let theirs = chunk.substring_char(j + 7, n);
                let region = Conflict { ours, original, theirs };
                match resolve_conflict(region) {
                    Ok(winner) => {
                        out.append(winner);
                        true
                    },
                    Err(()) => {
                        out.append(start_marker());
                        out.append(chunk);
                        out.append(end_marker());
                        proof {
                            assert(old(out)@ + (start_seq() + chunk@ + end_seq()) =~= ((old(out)@
                                + start_seq()) + chunk@) + end_seq());
                        }
                        false
                    },
                }
            } else {
                out.append(chunk);
                true
            }
        },
        _ => {
            out.append(chunk);
            true
        },
    }
}

/// Takes the string content of a file with merge conflicts and tries to
/// resolve them with the heuristic. Returns `Ok` with the new content when
/// every conflict was resolved, and `Err` with the semi-resolved content
/// (unresolved regions wrapped again in the literal markers) when one or
/// more conflicts are left.
pub fn resolve_conflicts_in_file(input: &str) -> (r: Result<String, String>)
    ensures
        match r {
            Ok(s) => resolve_marked_text(input@) == Ok::<Seq<char>, Seq<char>>(s@),
            Err(s) => resolve_marked_text(input@) == Err::<Seq<char>, Seq<char>>(s@),
        },
{
    proof {
        lemma_marker_lens();
    }
    let n = input.unicode_len();
    let mut out = String::new();
    let mut all_ok: bool = true;
    let mut pos: usize = 0;
    loop
        invariant_except_break
            pos <= n,
            n == input@.len(),
            out@ + resolve_from(input@, pos as int).0 == resolve_from(input@, 0).0,
            (all_ok && resolve_from(input@, pos as int).1) == resolve_from(input@, 0).1,
        ensures
            out@ == resolve_from(input@, 0).0,
            all_ok == resolve_from(input@, 0).1,
        decreases n - pos,
    {
        let ns = find_from(input, start_marker(), pos);
        let ne = find_from(input, end_marker(), pos);
        proof {
            lemma_first_match_bounds(input@, start_seq(), pos as int);
            lemma_first_match_bounds(input@, end_seq(), pos as int);
            lemma_marker_lens();
        }
        let cut: usize;
        let mlen: usize;
        match (ns, ne) {
            (Some(i), Some(j)) => {
                if i <= j {
                    cut = i;
                    mlen = 12;
                } else {
                    cut = j;
                    mlen = 14;
                }
            },
            (Some(i), None) => {
                cut = i;
                mlen = 12;
            },
            (None, Some(j)) => {
                cut = j;
                mlen = 14;
            },
            (None, None) => {
                assert(next_cut(input@, pos as int) is None);
                assert(resolve_from(input@, pos as int) == chunk_out(
                    input@.subrange(pos as int, n as int),
                ));
                let chunk = input.substring_char(pos, n);
                let ok = emit_chunk(chunk, &mut out);
                all_ok = all_ok && ok;
                break ;
            },
        }
        assert(next_cut(input@, pos as int) == Some((cut as int, mlen as int)));
        let ghost out0 = out@;
        let ghost all_ok0 = all_ok;
        let chunk = input.substring_char(pos, cut);
        let ok = emit_chunk(chunk, &mut out);
        all_ok = all_ok && ok;
        proof {
            let head = chunk_out(input@.subrange(pos as int, cut as int));
            let rest = resolve_from(input@, cut as int + mlen as int);
            assert(resolve_from(input@, pos as int) == (head.0 + rest.0, head.1 && rest.1));
            assert((out0 + head.0) + rest.0 =~= out0 + (head.0 + rest.0));
        }
        pos = cut + mlen;
    }
    if all_ok {
        Ok(out)
    } else {
        Err(out)
    }
}

} // verus!
