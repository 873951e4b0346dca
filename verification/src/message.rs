//! The structured message emitted per conflicted file.
//!
//! In structured-output mode each file the heuristic could not finish is
//! described by one message: file identity, originating layer name, and an
//! ordered list of conflict descriptors, each carrying the three spans plus
//! bounded context windows around the region, clamped to the start and end
//! of the text. Serializing and emitting the message, and watching the file
//! afterwards, happen outside this crate; here the message is only built.

use vstd::prelude::*;

use crate::markers::end_seq;
use crate::markers::find_from;
use crate::markers::first_match_from;
use crate::markers::lemma_first_match_bounds;
use crate::markers::lemma_marker_lens;
use crate::markers::mid1_marker;
use crate::markers::mid1_seq;
use crate::markers::mid2_marker;
use crate::markers::mid2_seq;
use crate::markers::start_marker;
use crate::markers::start_seq;
use crate::markers::end_marker;
use vstd::string::StrSliceExecFns;
use vstd::string::StringExecFns;

verus! {

/// Characters of context taken before and after each region.
pub const CONTEXT_WINDOW: usize = 300;

/// One conflict region as reported to the outside: the three spans plus
/// bounded context windows and the window size used.
pub struct ConflictDescriptor {
    pub ours: String,
    pub original: String,
    pub theirs: String,
    /// Text just before the region, at most the window size, clamped to the
    /// start of the text.
    pub context_before: String,
    /// Text just after the region, at most the window size, clamped to the
    /// end of the text.
    pub context_after: String,
    /// The window size the two contexts were cut with.
    pub context_original_size: usize,
}

/// One message: file identity, originating layer name, and the ordered
/// conflict descriptors. An empty message (all fields empty) is the
/// end-of-run sentinel.
pub struct Message {
    pub conflicts: Vec<ConflictDescriptor>,
    pub file_name: String,
    pub file_path: String,
    pub mod_name: String,
}

/// The spans and windows of one region, as sequences.
pub struct RegionWindow {
    pub ours: Seq<char>,
    pub original: Seq<char>,
    pub theirs: Seq<char>,
    pub context_before: Seq<char>,
    pub context_after: Seq<char>,
}

/// The regions of `s` at or after `from`, in order, with their context
/// windows. Each step takes the first start and end marker at or after
/// `from` and the first mid markers (defaulting to the end marker's
/// position where one is missing); a step whose markers are out of order
/// ends the scan.
pub open spec fn scan_regions(s: Seq<char>, from: int) -> Seq<RegionWindow>
    decreases s.len() - from,
    via scan_regions_decreases
{
    match (first_match_from(s, start_seq(), from), first_match_from(s, end_seq(), from)) {
        (Some(si), Some(ei)) => {
            let osi = match first_match_from(s, mid1_seq(), from) {
                Some(k) => k,
                None => ei,
            };
            let oei = match first_match_from(s, mid2_seq(), from) {
                Some(k) => k,
                None => ei,
            };
            if si + 12 <= osi && osi + 16 <= oei && oei + 7 <= ei {
                let w = RegionWindow {
                    ours: s.subrange(si + 12, osi),
                    original: s.subrange(osi + 16, oei),
                    theirs: s.subrange(oei + 7, ei),
                    context_before: s.subrange(
                        if si - CONTEXT_WINDOW >= from {
                            si - CONTEXT_WINDOW
                        } else {
                            from
                        },
                        si,
                    ),
                    context_after: s.subrange(
                        ei + 14,
                        if ei + 14 + CONTEXT_WINDOW <= s.len() {
                            ei + 14 + CONTEXT_WINDOW
                        } else {
                            s.len() as int
                        },
                    ),
                };
                seq![w] + scan_regions(s, ei + 14)
            } else {
                Seq::empty()
            }
        },
        _ => Seq::empty(),
    }
}

#[via_fn]
proof fn scan_regions_decreases(s: Seq<char>, from: int) {
    lemma_first_match_bounds(s, start_seq(), from);
    lemma_first_match_bounds(s, end_seq(), from);
    lemma_marker_lens();
}

/// The descriptor carries exactly the spans and windows of the region.
pub open spec fn descriptor_matches(d: ConflictDescriptor, w: RegionWindow) -> bool {
    &&& d.ours@ == w.ours
    &&& d.original@ == w.original
    &&& d.theirs@ == w.theirs
    &&& d.context_before@ == w.context_before
    &&& d.context_after@ == w.context_after
    &&& d.context_original_size == CONTEXT_WINDOW
}

/// Builds the message for one conflicted file: identity fields are taken
/// as given, and the conflict list describes, in order, every region of
/// the scan.
pub fn build_conflict_message(input: &str, file_name: &str, file_path: &str, mod_name: &str) -> (m:
    Message)
    ensures
        m.file_name@ == file_name@,
        m.file_path@ == file_path@,
        m.mod_name@ == mod_name@,
        m.conflicts@.len() == scan_regions(input@, 0).len(),
        forall|i: int|
            0 <= i < m.conflicts@.len() ==> descriptor_matches(
                #[trigger] m.conflicts@[i],
                scan_regions(input@, 0)[i],
            ),
{
    proof {
        lemma_marker_lens();
    }
    let n = input.unicode_len();
    let mut conflicts: Vec<ConflictDescriptor> = Vec::new();
    let ghost mut seen: Seq<RegionWindow> = Seq::empty();
    let mut pos: usize = 0;
    loop
        invariant_except_break
            pos <= n,
            n == input@.len(),
            scan_regions(input@, 0) == seen + scan_regions(input@, pos as int),
            conflicts@.len() == seen.len(),
            forall|i: int|
                0 <= i < conflicts@.len() ==> descriptor_matches(
                    #[trigger] conflicts@[i],
                    seen[i],
                ),
        ensures
            conflicts@.len() == scan_regions(input@, 0).len(),
            forall|i: int|
                0 <= i < conflicts@.len() ==> descriptor_matches(
                    #[trigger] conflicts@[i],
                    scan_regions(input@, 0)[i],
                ),
        decreases n - pos,
    {
        let ns = find_from(input, start_marker(), pos);
        let ne = find_from(input, end_marker(), pos);
        proof {
            lemma_first_match_bounds(input@, start_seq(), pos as int);
            lemma_first_match_bounds(input@, end_seq(), pos as int);
            lemma_first_match_bounds(input@, mid1_seq(), pos as int);
            lemma_first_match_bounds(input@, mid2_seq(), pos as int);
            lemma_marker_lens();
        }
        let si: usize;
        let ei: usize;
        match (ns, ne) {
            (Some(a), Some(b)) => {
                si = a;
                ei = b;
            },
            _ => {
                assert(scan_regions(input@, pos as int) =~= Seq::<RegionWindow>::empty());
                break ;
            },
        }
        let om = find_from(input, mid1_marker(), pos);
        let em = find_from(input, mid2_marker(), pos);
        let osi = match om {
            Some(k) => k,
            None => ei,
        };
        let oei = match em {
            Some(k) => k,
            None => ei,
        };
        let in_order = osi >= si && osi - si >= 12 && oei >= osi && oei - osi >= 16 && ei >= oei
            && ei - oei >= 7;
        if !in_order {
            assert(scan_regions(input@, pos as int) =~= Seq::<RegionWindow>::empty());
            break ;
        }
        assert(si + 12 <= osi && osi + 16 <= oei && oei + 7 <= ei);
        let left = if si >= CONTEXT_WINDOW && si - CONTEXT_WINDOW >= pos {
            si - CONTEXT_WINDOW
        } else {
            pos
        };
        let right = if n - (ei + 14) >= CONTEXT_WINDOW {
            ei + 14 + CONTEXT_WINDOW
        } else {
            n
        };
        let d = ConflictDescriptor {
            ours: String::from_str(input.substring_char(si + 12, osi)),
            original: String::from_str(input.substring_char(osi + 16, oei)),
            theirs: String::from_str(input.substring_char(oei + 7, ei)),
            context_before: String::from_str(input.substring_char(left, si)),
            context_after: String::from_str(input.substring_char(ei + 14, right)),
            context_original_size: CONTEXT_WINDOW,
        };
        proof {
            let w0 = scan_regions(input@, pos as int)[0];
            assert(scan_regions(input@, pos as int) == seq![w0] + scan_regions(
                input@,
                ei + 14 as int,
            ));
            assert(descriptor_matches(d, w0));
            assert((seen + seq![w0]) + scan_regions(input@, ei + 14 as int) =~= seen + (seq![w0]
                + scan_regions(input@, ei + 14 as int)));
            seen = seen + seq![w0];
        }
        conflicts.push(d);
        pos = ei + 14;
    }
    Message {
        conflicts,
        file_name: String::from_str(file_name),
        file_path: String::from_str(file_path),
        mod_name: String::from_str(mod_name),
    }
}

/// The end-of-run sentinel: one message with an empty conflict list and
/// empty identifying fields, emitted once after all layers and files are
/// processed.
pub fn empty_message() -> (m: Message)
    ensures
        m.conflicts@.len() == 0,
        m.file_name@.len() == 0,
        m.file_path@.len() == 0,
        m.mod_name@.len() == 0,
{
    Message {
        conflicts: Vec::new(),
        file_name: String::new(),
        file_path: String::new(),
        mod_name: String::new(),
    }
}

} // verus!
