//! The configuration value, strategy selection and the exclusion filter.
//!
//! One immutable configuration value is produced at the edge of the program
//! and threaded through the run; nothing here re-reads it at nested call
//! sites. The exclusion filter suppresses whole layers or single files
//! before any merge work happens.

use vstd::prelude::*;

use vstd::string::StrSliceExecFns;
use vstd::string::StringExecFns;

verus! {

/// The configuration surface the orchestrator consumes: the three roots,
/// the optional external editor, the two flags and the exclusion tokens.
pub struct Args {
    /// Path to the folder of layers ("mods") to merge.
    pub input: String,
    /// Path to the baseline scripts.
    pub source: String,
    /// Path to the accumulated-output folder.
    pub output: String,
    /// Path to an external editor used to resolve conflicts; setting it
    /// disables the structured output.
    pub text_editor: Option<String>,
    /// Whether the output directory is removed before the run.
    pub clean: bool,
    /// Whether conflicts are reported as structured messages on standard
    /// output, watching the conflicting file until it changes.
    pub json: bool,
    /// Exclusion tokens: a bare layer name, or `layer-name:relative-path`.
    pub ignored: Vec<String>,
}

/// The three mutually exclusive fallback strategies for regions the
/// heuristic cannot resolve.
#[derive(Clone, Copy, Debug, PartialEq, Eq)]
pub enum ResolutionStrategy {
    /// Write the semi-resolved text, then open the configured editor on it
    /// and wait for it to exit.
    ExternalEditor,
    /// Write the semi-resolved text, emit one structured message, then
    /// watch the file until it changes.
    MessageWatch,
    /// Print each region's baseline span and a diff of the two sides, then
    /// resolve to the baseline span.
    InteractiveTerminal,
}

/// Strategy precedence, evaluated once against the configuration: a
/// configured editor wins, then structured-output mode, else the terminal.
pub open spec fn strategy_spec(has_editor: bool, json: bool) -> ResolutionStrategy {
    if has_editor {
        ResolutionStrategy::ExternalEditor
    } else if json {
        ResolutionStrategy::MessageWatch
    } else {
        ResolutionStrategy::InteractiveTerminal
    }
}

/// Selects the fallback strategy from the configuration, once per run.
pub fn select_strategy(text_editor: &Option<String>, json: bool) -> (r: ResolutionStrategy)
    ensures
        r == strategy_spec(text_editor is Some, json),
{
    match text_editor {
        Some(_) => ResolutionStrategy::ExternalEditor,
        None => if json {
            ResolutionStrategy::MessageWatch
        } else {
            ResolutionStrategy::InteractiveTerminal
        },
    }
}

/// A directory under the input root is a layer when its name begins with
/// this prefix.
pub open spec fn layer_dir_spec(name: Seq<char>) -> bool {
    name.len() >= 3 && name.subrange(0, 3) == "mod"@
}

/// Whether a directory name designates a layer to be merged.
pub fn is_layer_dir_name(name: &str) -> (r: bool)
    ensures
        r == layer_dir_spec(name@),
{
    proof {
        reveal_strlit("mod");
    }
    let n = name.unicode_len();
    if n < 3 {
        return false;
    }
    let r = name.get_char(0) == 'm' && name.get_char(1) == 'o' && name.get_char(2) == 'd';
    proof {
        if r {
            assert(name@.subrange(0, 3) =~= "mod"@);
        } else {
            if name@[0] != 'm' {
                assert(name@.subrange(0, 3)[0] != "mod"@[0]);
            } else if name@[1] != 'o' {
                assert(name@.subrange(0, 3)[1] != "mod"@[1]);
            } else {
                assert(name@.subrange(0, 3)[2] != "mod"@[2]);
            }
        }
    }
    r
}

/// The token that excludes one file of one layer.
pub open spec fn exclusion_token(layer: Seq<char>, path: Seq<char>) -> Seq<char> {
    layer + ":"@ + path
}

/// A layer/path pair is excluded when some token names the whole layer or
/// exactly that file of that layer.
pub open spec fn excluded_spec(tokens: Seq<Seq<char>>, layer: Seq<char>, path: Seq<char>) -> bool {
    exists|i: int|
        0 <= i < tokens.len() && (#[trigger] tokens[i] == layer || tokens[i] == exclusion_token(
            layer,
            path,
        ))
}

/// Whether the exclusion list suppresses this layer/path pair.
pub fn is_excluded(tokens: &Vec<String>, layer_name: &str, relative_path: &str) -> (r: bool)
    ensures
        r == excluded_spec(tokens.deep_view(), layer_name@, relative_path@),
{
    let layer_token = String::from_str(layer_name);
    let file_token = String::from_str(layer_name).concat(":").concat(relative_path);
    assert(file_token@ == exclusion_token(layer_name@, relative_path@));
    let n = tokens.len();
    let mut i: usize = 0;
    while i < n
        invariant
            i <= n,
            n == tokens.len(),
            layer_token@ == layer_name@,
            file_token@ == exclusion_token(layer_name@, relative_path@),
            forall|k: int|
                0 <= k < i ==> !(#[trigger] tokens.deep_view()[k] == layer_name@
                    || tokens.deep_view()[k] == exclusion_token(layer_name@, relative_path@)),
        decreases n - i,
    {
        if tokens[i] == layer_token || tokens[i] == file_token {
            assert(tokens.deep_view()[i as int] == tokens[i as int]@);
            return true;
        }
        assert(tokens.deep_view()[i as int] == tokens[i as int]@);
        i += 1;
    }
    false
}

/// A bare layer token excludes every file of that layer: no write from that
/// layer can happen past the filter.
pub proof fn lemma_layer_exclusion(tokens: Seq<Seq<char>>, layer: Seq<char>)
    requires
        exists|i: int| 0 <= i < tokens.len() && #[trigger] tokens[i] == layer,
    ensures
        forall|path: Seq<char>| excluded_spec(tokens, layer, path),
{
    let i = choose|i: int| 0 <= i < tokens.len() && #[trigger] tokens[i] == layer;
    assert forall|path: Seq<char>| excluded_spec(tokens, layer, path) by {
        assert(0 <= i < tokens.len() && tokens[i] == layer);
    }
}

/// A single file-level token excludes exactly that one file: a sibling path
/// of the same layer passes the filter.
pub proof fn lemma_file_exclusion_exact(
    tokens: Seq<Seq<char>>,
    layer: Seq<char>,
    path: Seq<char>,
    other: Seq<char>,
)
    requires
        tokens =~= seq![exclusion_token(layer, path)],
    ensures
        excluded_spec(tokens, layer, other) <==> other == path,
{
    reveal_strlit(":");
    let t = exclusion_token(layer, path);
    assert(t.len() == layer.len() + 1 + path.len());
    if other == path {
        assert(tokens[0] == exclusion_token(layer, other));
    }
    if excluded_spec(tokens, layer, other) {
        let i = choose|i: int|
            0 <= i < tokens.len() && (#[trigger] tokens[i] == layer || tokens[i]
                == exclusion_token(layer, other));
        assert(i == 0);
        assert(tokens[0] != layer);
        assert(tokens[0] == exclusion_token(layer, other));
        assert(other =~= exclusion_token(layer, other).subrange(
            layer.len() as int + 1,
            exclusion_token(layer, other).len() as int,
        ));
        assert(path =~= t.subrange(layer.len() as int + 1, t.len() as int));
        assert(other == path);
    }
}

} // verus!
