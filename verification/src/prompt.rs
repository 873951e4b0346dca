//! The interactive-terminal fallback strategy.
//!
//! For each conflict region it prints the captured baseline span and a
//! textual diff of the two sides for visual inspection, then resolves the
//! region to the baseline span. No interactive editing loop exists: the
//! baseline span is returned regardless of any human input. That is a known
//! limitation, kept deliberately.

use vstd::prelude::*;

use crate::markers::end_marker;
use crate::markers::end_seq;
use crate::markers::find_from;
use crate::markers::lemma_first_match_bounds;
use crate::markers::lemma_marker_lens;
use crate::markers::mid1_marker;
use crate::markers::mid1_seq;
use crate::markers::mid2_marker;
use crate::markers::mid2_seq;
use crate::markers::start_marker;
use crate::markers::start_seq;
use crate::resolver::next_cut;
use crate::resolver::parse_chunk;
use std::io::Write;
use vstd::string::StrSliceExecFns;
use vstd::string::StringExecFns;

verus! {

/// What one chunk contributes under this strategy: plain text passes
/// through; a conflict body becomes its baseline span.
pub open spec fn prompt_chunk_out(c: Seq<char>) -> Seq<char> {
    match parse_chunk(c) {
        None => c,
        Some(r) => r.1,
    }
}

/// The strategy's output on the suffix of `s` from `from`.
pub open spec fn prompt_from(s: Seq<char>, from: int) -> Seq<char>
    decreases s.len() - from,
    via prompt_from_decreases
{
    match next_cut(s, from) {
        None => prompt_chunk_out(s.subrange(from, s.len() as int)),
        Some((cut, mlen)) => prompt_chunk_out(s.subrange(from, cut)) + prompt_from(s, cut + mlen),
    }
}

#[via_fn]
proof fn prompt_from_decreases(s: Seq<char>, from: int) {
    lemma_first_match_bounds(s, start_seq(), from);
    lemma_first_match_bounds(s, end_seq(), from);
    lemma_marker_lens();
}

/// Relies on std::io::stdout: writes one line of text to the terminal.
#[verifier::external_body]
fn print_text_line(s: &str) {
    let mut w = std::io::stdout();
    let _ = writeln!(w, "{}", s);
}

/// Relies on difference::Changeset::new and its Display impl: computes a
/// line-by-line diff of the two sides and writes it to the terminal.
#[verifier::external_body]
fn print_sides_diff(ours: &str, theirs: &str) {
    let mut w = std::io::stdout();
    let _ = writeln!(w, "{}", difference::Changeset::new(ours, theirs, "\n"));
}

/// Appends to `out` what the chunk contributes under this strategy; for a
/// conflict body, first shows the baseline span and the diff of the sides.
fn emit_prompt_chunk(chunk: &str, out: &mut String)
    ensures
        final (out)@ == old(out)@ + prompt_chunk_out(chunk@),
{
    proof {
        lemma_marker_lens();
        lemma_first_match_bounds(chunk@, mid1_seq(), 0);
        lemma_first_match_bounds(chunk@, mid2_seq(), 0);
    }
    let n = chunk.unicode_len();
    let oi = find_from(chunk, mid1_marker(), 0);
    let ei = find_from(chunk, mid2_marker(), 0);
    match (oi, ei) {
        (Some(i), Some(j)) => {
            if i + 16 <= j {
                let ours = chunk.substring_char(0, i);
                let original = chunk.substring_char(i + 16, j);
                let theirs = chunk.substring_char(j + 7, n);
                print_text_line(original);
                print_sides_diff(ours, theirs);
                out.append(original);
            } else {
                out.append(chunk);
            }
        },
        _ => {
            out.append(chunk);
        },
    }
}

/// Takes the string content of a file with merge conflicts, shows each
/// region's baseline span and a diff of the two sides on the terminal, and
/// returns the content with every conflict body replaced by its baseline
/// span. Plain text between regions passes through unchanged.
pub fn prompt_conflicts_in_file(input: &str) -> (r: String)
    ensures
        r@ == prompt_from(input@, 0),
{
    proof {
        lemma_marker_lens();
    }
    let n = input.unicode_len();
    let mut out = String::new();
    let mut pos: usize = 0;
    loop
        invariant_except_break
            pos <= n,
            n == input@.len(),
            out@ + prompt_from(input@, pos as int) == prompt_from(input@, 0),
        ensures
            out@ == prompt_from(input@, 0),
        decreases n - pos,
    {
        let ns = find_from(input, start_marker(), pos);
        let ne = find_from(input, end_marker(), pos);
        proof {
            lemma_first_match_bounds(input@, start_seq(), pos as int);
            lemma_first_match_bounds(input@, end_seq(), pos as int);
            lemma_marker_lens();
        }
        let cut: usize;
        let mlen: usize;
        match (ns, ne) {
            (Some(i), Some(j)) => {
                if i <= j {
                    cut = i;
                    mlen = 12;
                } else {
                    cut = j;
                    mlen = 14;
                }
            },
            (Some(i), None) => {
                cut = i;
                mlen = 12;
            },
            (None, Some(j)) => {
                cut = j;
                mlen = 14;
            },
            (None, None) => {
                assert(next_cut(input@, pos as int) is None);
                assert(prompt_from(input@, pos as int) == prompt_chunk_out(
                    input@.subrange(pos as int, n as int),
                ));
                let chunk = input.substring_char(pos, n);
                emit_prompt_chunk(chunk, &mut out);
                break ;
            },
        }
        assert(next_cut(input@, pos as int) == Some((cut as int, mlen as int)));
        let ghost out0 = out@;
        let chunk = input.substring_char(pos, cut);
        emit_prompt_chunk(chunk, &mut out);
        proof {
            let head = prompt_chunk_out(input@.subrange(pos as int, cut as int));
            let rest = prompt_from(input@, cut as int + mlen as int);
            assert(prompt_from(input@, pos as int) == head + rest);
            assert((out0 + head) + rest =~= out0 + (head + rest));
        }
        pos = cut + mlen;
    }
    out
}

} // verus!
