//! Bounded history of a session's output: the most recent lines, oldest
//! first, with the oldest dropped once the bound is reached.

use std::collections::VecDeque;
use vstd::prelude::*;
use crate::model::{line_views, OutputLine, OutputLineView};

verus! {

/// The number of lines a session's history keeps.
pub const MAX_OUTPUT_LINES: usize = 10000;

/// What a history holds after `line` is appended to one that held `lines`:
/// the oldest line leaves first where the bound was reached.
pub open spec fn appended(lines: Seq<OutputLineView>, line: OutputLineView) -> Seq<OutputLineView> {
    if lines.len() >= MAX_OUTPUT_LINES {
        lines.drop_first().push(line)
    } else {
        lines.push(line)
    }
}

/// What a history that held `lines` holds after each of `added` was appended
/// in turn.
pub open spec fn appended_all(lines: Seq<OutputLineView>, added: Seq<OutputLineView>) -> Seq<
    OutputLineView,
>
    decreases added.len(),
{
    if added.len() == 0 {
        lines
    } else {
        appended(appended_all(lines, added.drop_last()), added.last())
    }
}

/// The last `count` items of `items`, or all of them where there are fewer.
pub open spec fn newest(items: Seq<OutputLineView>, count: nat) -> Seq<OutputLineView> {
    if items.len() <= count {
        items
    } else {
        items.subrange(items.len() - count, items.len() as int)
    }
}

/// Appending any run of lines to a history within the bound leaves exactly
/// the most recent lines, as many as the bound allows, oldest first and
/// newest last.
pub proof fn lemma_appended_all_keeps_newest(lines: Seq<OutputLineView>, added: Seq<OutputLineView>)
    requires
        lines.len() <= MAX_OUTPUT_LINES,
    ensures
        appended_all(lines, added) == newest(lines + added, MAX_OUTPUT_LINES as nat),
        appended_all(lines, added).len() <= MAX_OUTPUT_LINES,
    decreases added.len(),
{
    if added.len() == 0 {
        assert(lines + added =~= lines);
    } else {
        let earlier = added.drop_last();
        lemma_appended_all_keeps_newest(lines, earlier);
        let before = lines + earlier;
        let all = lines + added;
        assert(all =~= before.push(added.last()));
        assert(appended_all(lines, added) =~= newest(all, MAX_OUTPUT_LINES as nat));
    }
}

/// The test that a line carries the tag of a stream.
pub open spec fn carries(tag: Seq<char>) -> spec_fn(OutputLineView) -> bool {
    |line: OutputLineView| line.line_type == tag
}

/// The lines among `lines` that carry `tag`, in the same order.
pub open spec fn lines_from(lines: Seq<OutputLineView>, tag: Seq<char>) -> Seq<OutputLineView> {
    lines.filter(carries(tag))
}

/// The lines of one stream keep the order in which they were appended,
/// however the lines of another stream fall between them: what a history
/// holds of a stream is the tail of what was appended of that stream, and
/// all of it where nothing had to leave.
pub proof fn lemma_stream_order_kept(
    lines: Seq<OutputLineView>,
    added: Seq<OutputLineView>,
    tag: Seq<char>,
)
    requires
        lines.len() <= MAX_OUTPUT_LINES,
    ensures
        lines_from(lines + added, tag) == lines_from(lines, tag) + lines_from(added, tag),
        lines_from(appended_all(lines, added), tag).is_suffix_of(lines_from(lines + added, tag)),
        lines.len() + added.len() <= MAX_OUTPUT_LINES ==> lines_from(
            appended_all(lines, added),
            tag,
        ) == lines_from(lines, tag) + lines_from(added, tag),
{
    lemma_appended_all_keeps_newest(lines, added);
    let all = lines + added;
    let kept = appended_all(lines, added);
    let gone = all.subrange(0, all.len() - kept.len());
    assert(all =~= gone + kept);
    Seq::filter_distributes_over_add(lines, added, carries(tag));
    Seq::filter_distributes_over_add(gone, kept, carries(tag));
    let held = lines_from(kept, tag);
    let seen = lines_from(all, tag);
    assert(seen == lines_from(gone, tag) + held);
    assert(held =~= seen.subrange(seen.len() - held.len(), seen.len() as int));
}

/// A session's bounded output history.
pub struct OutputBuffer {
    lines: VecDeque<OutputLine>,
}

impl View for OutputBuffer {
    type V = Seq<OutputLineView>;

    closed spec fn view(&self) -> Seq<OutputLineView> {
        line_views(self.lines@)
    }
}

impl OutputBuffer {
    /// The history holds no more lines than the bound.
    pub closed spec fn wf(&self) -> bool {
        self.lines@.len() <= MAX_OUTPUT_LINES
    }

    /// A well-formed history is within the bound.
    pub proof fn lemma_within_bound(&self)
        requires
            self.wf(),
        ensures
            self@.len() <= MAX_OUTPUT_LINES,
    {
    }

    /// An empty history.
    pub fn new() -> (buffer: OutputBuffer)
        ensures
            buffer.wf(),
            buffer@ == Seq::<OutputLineView>::empty(),
    {
        let buffer = OutputBuffer { lines: VecDeque::new() };
        assert(buffer@ =~= Seq::<OutputLineView>::empty());
        buffer
    }

    /// Adds one line at the end; where the history is full, the oldest line
    /// leaves first.
    pub fn append(&mut self, line: OutputLine)
        requires
            old(self).wf(),
        ensures
            final(self).wf(),
            final(self)@ == appended(old(self)@, line@),
            final(self)@.len() <= MAX_OUTPUT_LINES,
    {
        if self.lines.len() >= MAX_OUTPUT_LINES {
            let _ = self.lines.pop_front();
        }
        self.lines.push_back(line);
        assert(self@ =~= appended(old(self)@, line@));
    }

    /// The number of lines held, never more than the bound.
    pub fn count(&self) -> (n: usize)
        requires
            self.wf(),
        ensures
            n == self@.len(),
            n <= MAX_OUTPUT_LINES,
    {
        self.lines.len()
    }

    /// A copy of every line held, oldest first.
    pub fn snapshot(&self) -> (lines: Vec<OutputLine>)
        ensures
            line_views(lines@) == self@,
    {
        let mut lines: Vec<OutputLine> = Vec::new();
        let n: usize = self.lines.len();
        let mut i: usize = 0;
        while i < n
            invariant
                n == self.lines@.len(),
                i <= n,
                lines@.len() == i,
                forall|k: int| 0 <= k < i ==> lines@[k]@ == self.lines@[k]@,
            decreases n - i,
        {
            lines.push(self.lines[i].duplicate());
            i += 1;
        }
        assert(line_views(lines@) =~= self@);
        lines
    }
}

} // verus!
