//! Heuristic status classification of one line of output.
//!
//! A line is lowered, then searched for a fixed set of cues. Cues that ask
//! the user for something win over cues that announce activity; a line with
//! neither is idle.

use vstd::prelude::*;
use crate::model::SessionState;

verus! {

/// The lowercase form that `str::to_lowercase` gives a text.
pub uninterp spec fn lowercase_of(text: Seq<char>) -> Seq<char>;

/// `pattern` occurs in `text` as a contiguous run of characters.
pub open spec fn has_substring(text: Seq<char>, pattern: Seq<char>) -> bool {
    exists|start: int|
        0 <= start && start + pattern.len() <= text.len() && #[trigger] text.subrange(
            start,
            start + pattern.len(),
        ) == pattern
}

/// A lowered line asks the user for input.
pub open spec fn has_waiting_cue(lowered: Seq<char>) -> bool {
    ||| has_substring(lowered, "continue?"@)
    ||| has_substring(lowered, "enter input:"@)
    ||| has_substring(lowered, "(y/n)"@)
    ||| has_substring(lowered, "(yes/no)"@)
}

/// A lowered line announces activity.
pub open spec fn has_working_cue(lowered: Seq<char>) -> bool {
    ||| has_substring(lowered, "calling tool:"@)
    ||| has_substring(lowered, "reading file:"@)
    ||| has_substring(lowered, "writing to file:"@)
    ||| has_substring(lowered, "executing command:"@)
    ||| has_substring(lowered, "thinking..."@)
    ||| has_substring(lowered, "processing"@)
}

/// The status that a lowered line signals: waiting cues are looked for
/// first, then working cues.
pub open spec fn state_of_lowered(lowered: Seq<char>) -> SessionState {
    if has_waiting_cue(lowered) {
        SessionState::Waiting
    } else if has_working_cue(lowered) {
        SessionState::Working
    } else {
        SessionState::Idle
    }
}

/// The status that a line signals, whatever its letter case.
pub open spec fn state_of_text(text: Seq<char>) -> SessionState {
    state_of_lowered(lowercase_of(text))
}

/// Calls `str::to_lowercase`. Trusted: the result is the lowercase form of
/// the argument, which depends on the argument alone.
#[verifier::external_body]
fn lowered(text: &str) -> (lower: String)
    ensures
        lower@ == lowercase_of(text@),
{
    text.to_lowercase()
}

/// Calls `str::contains` with a string pattern. Trusted: the answer is
/// whether the pattern occurs in the text as a contiguous run of characters.
#[verifier::external_body]
fn contains_text(text: &str, pattern: &str) -> (found: bool)
    ensures
        found == has_substring(text@, pattern@),
{
    text.contains(pattern)
}

/// Classifies a line that is already in lowercase.
pub fn classify_lowered(lowered: &str) -> (state: SessionState)
    ensures
        state == state_of_lowered(lowered@),
{
    if contains_text(lowered, "continue?") || contains_text(lowered, "enter input:")
        || contains_text(lowered, "(y/n)") || contains_text(lowered, "(yes/no)") {
        return SessionState::Waiting;
    }
    if contains_text(lowered, "calling tool:") || contains_text(lowered, "reading file:")
        || contains_text(lowered, "writing to file:") || contains_text(
        lowered,
        "executing command:",
    ) || contains_text(lowered, "thinking...") || contains_text(lowered, "processing") {
        return SessionState::Working;
    }
    SessionState::Idle
}

/// Classifies one line of output. The result depends on the text alone.
pub fn detect_state(text: &str) -> (state: SessionState)
    ensures
        state == state_of_text(text@),
{
    let lower = lowered(text);
    classify_lowered(lower.as_str())
}

} // verus!
