//! The merge invoker and the per-file decision.
//!
//! Wraps the external three-way-merge primitive and converts its outcome
//! into this crate's vocabulary: clean merged text is passed through, text
//! with conflict markers goes to the heuristic resolver, and whatever the
//! heuristic leaves is handed back for a fallback strategy to finish.

use vstd::prelude::*;

use crate::resolver::resolve_conflicts_in_file;
use crate::resolver::resolve_marked_text;

verus! {

/// Name for what the external three-way merge returns on three given texts:
/// the result depends on the texts alone. `Ok` carries clean merged text,
/// `Err` carries text with one or more conflict-marked regions.
pub uninterp spec fn three_way_merge(base: Seq<char>, prev: Seq<char>, layer: Seq<char>) -> Result<
    Seq<char>,
    Seq<char>,
>;

/// Relies on diffy::merge: a three-way merge of (ancestor, ours, theirs)
/// that returns `Ok` with merged text when there is no conflict and `Err`
/// with conflict-marked text otherwise; the result is a function of the
/// three texts alone.
#[verifier::external_body]
fn diffy_merge(base: &str, prev: &str, layer: &str) -> (r: Result<String, String>)
    ensures
        match r {
            Ok(s) => three_way_merge(base@, prev@, layer@) == Ok::<Seq<char>, Seq<char>>(s@),
            Err(s) => three_way_merge(base@, prev@, layer@) == Err::<Seq<char>, Seq<char>>(s@),
        },
{
    diffy::merge(base, prev, layer)
}

/// Outcome of merging one file's three texts.
pub enum MergeOutcome {
    /// The merge primitive reported no conflict: its text can be written out.
    CleanMerged(String),
    /// There were conflicts and the heuristic resolved every one of them.
    AutoResolved(String),
    /// Conflicts are left; the text still holds marker-wrapped regions and
    /// must go to a fallback resolution strategy before the run can go on.
    Conflicted(String),
}

/// Merges one file: baseline text, accumulated-output text and layer text,
/// in that argument order. On conflict the heuristic runs over every
/// region; the outcome says whether anything is left for a fallback
/// strategy.
pub fn merge_texts(base: &str, prev: &str, layer: &str) -> (r: MergeOutcome)
    ensures
        match three_way_merge(base@, prev@, layer@) {
            Ok(m) => r matches MergeOutcome::CleanMerged(s) && s@ == m,
            Err(c) => match resolve_marked_text(c) {
                Ok(t) => r matches MergeOutcome::AutoResolved(s) && s@ == t,
                Err(t) => r matches MergeOutcome::Conflicted(s) && s@ == t,
            },
        },
{
    match diffy_merge(base, prev, layer) {
        Ok(merged) => MergeOutcome::CleanMerged(merged),
        Err(marked) => match resolve_conflicts_in_file(marked.as_str()) {
            Ok(content) => MergeOutcome::AutoResolved(content),
            Err(content) => MergeOutcome::Conflicted(content),
        },
    }
}

/// What to do with one relative path, given which of the three candidate
/// files exist.
#[derive(Clone, Copy, Debug, PartialEq, Eq)]
pub enum FileAction {
    /// Copy the layer's file into the output tree verbatim: either there is
    /// no baseline file (no three-way ancestor, not merge-eligible) or no
    /// accumulated-output file exists yet at that path.
    Copy,
    /// Both the baseline and the accumulated-output file exist: hand the
    /// three texts to the merge invoker.
    Merge,
}

/// A merge is attempted exactly when both the baseline and the
/// accumulated-output file exist; in every other case the layer file is
/// copied verbatim and the merge primitive is never called.
pub fn decide_file_action(baseline_exists: bool, output_exists: bool) -> (r: FileAction)
    ensures
        r == (if baseline_exists && output_exists {
            FileAction::Merge
        } else {
            FileAction::Copy
        }),
{
    if baseline_exists && output_exists {
        FileAction::Merge
    } else {
        FileAction::Copy
    }
}

} // verus!
