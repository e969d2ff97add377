//! What replaying steps does to the lines of the editor buffer.

use vstd::prelude::*;

use crate::buffer::{insert_char_at, lines_after_delete_line, lines_after_insert_char, lines_after_insert_line, pad_lines};
use crate::compile::{file_steps, last_char, line_delta, lemma_file_line_offset, total_additions, total_deletions, typing_steps};
use crate::diff::DiffHunk;
use crate::step::StepView;
use crate::text::content_lines;

verus! {

/// The buffer lines after executing step `s` on `lines`; a character for the
/// line at the largest `usize`, which no buffer can reach, is dropped.
pub open spec fn apply_step(lines: Seq<Seq<char>>, s: StepView) -> Seq<Seq<char>> {
    match s {
        StepView::InsertChar { line, col, ch } => if line < usize::MAX {
            lines_after_insert_char(lines, line, col, ch)
        } else {
            lines
        },
        StepView::InsertLine { line, content } => lines_after_insert_line(lines, line, content),
        StepView::DeleteLine { line } => lines_after_delete_line(lines, line),
        StepView::SwitchFile { old_content, .. } => content_lines(old_content),
        StepView::ResetState => seq![Seq::<char>::empty()],
        _ => lines,
    }
}

/// The buffer lines after executing `steps` in order on `lines`.
pub open spec fn replay(lines: Seq<Seq<char>>, steps: Seq<StepView>) -> Seq<Seq<char>>
    decreases steps.len(),
{
    if steps.len() == 0 {
        lines
    } else {
        apply_step(replay(lines, steps.drop_last()), steps.last())
    }
}

/// Replaying the character steps of a text, in the order they are emitted,
/// on an empty line of the buffer writes exactly that text into it and
/// leaves the other lines alone.
pub proof fn lemma_typing_rebuilds_line(lines: Seq<Seq<char>>, line: nat, text: Seq<char>)
    requires
        line < lines.len(),
        line < usize::MAX,
        lines[line as int].len() == 0,
    ensures
        replay(lines, typing_steps(line, text)) == lines.update(line as int, text),
    decreases text.len(),
{
    if text.len() == 0 {
        assert(lines[line as int] =~= text);
        assert(lines.update(line as int, text) =~= lines);
    } else {
        let init = text.drop_last();
        lemma_typing_rebuilds_line(lines, line, init);
        let steps = typing_steps(line, text);
        assert(steps.drop_last() =~= typing_steps(line, init));
        let prev = lines.update(line as int, init);
        assert(pad_lines(prev, line + 1) == prev);
        let ch = last_char(text);
        let col = (text.len() - 1) as nat;
        assert(insert_char_at(init, col, ch) =~= text);
        assert(prev.update(line as int, text) =~= lines.update(line as int, text));
    }
}

/// Every edit of `steps`, replayed from `lines`, acts on a line that exists
/// (or, for an inserted line, right after the last one), and no deletion
/// removes the only line.
pub open spec fn edits_in_range(lines: Seq<Seq<char>>, steps: Seq<StepView>) -> bool
    decreases steps.len(),
{
    if steps.len() == 0 {
        true
    } else {
        let before = replay(lines, steps.drop_last());
        &&& edits_in_range(lines, steps.drop_last())
        &&& match steps.last() {
            StepView::InsertChar { line, .. } => line < before.len() && line < usize::MAX,
            StepView::InsertLine { line, .. } => line <= before.len(),
            StepView::DeleteLine { line } => line < before.len() && before.len() >= 2,
            StepView::SwitchFile { .. } | StepView::ResetState => false,
            _ => true,
        }
    }
}

/// Replaying steps whose edits stay in range changes the number of lines by
/// the lines they insert minus the lines they delete.
pub proof fn lemma_replay_line_count(lines: Seq<Seq<char>>, steps: Seq<StepView>)
    requires
        edits_in_range(lines, steps),
    ensures
        replay(lines, steps).len() == lines.len() + line_delta(steps),
    decreases steps.len(),
{
    if steps.len() > 0 {
        lemma_replay_line_count(lines, steps.drop_last());
    }
}

/// Replaying a file's steps on its old lines, where every edit stays in
/// range, leaves as many lines as the old file had plus its additions minus
/// its deletions.
pub proof fn lemma_file_replay_line_count(old_lines: Seq<Seq<char>>, hunks: Seq<DiffHunk>, speed_ms: nat)
    requires
        edits_in_range(old_lines, file_steps(hunks, speed_ms)),
    ensures
        replay(old_lines, file_steps(hunks, speed_ms)).len() == old_lines.len() + total_additions(hunks)
            - total_deletions(hunks),
{
    lemma_replay_line_count(old_lines, file_steps(hunks, speed_ms));
    lemma_file_line_offset(hunks, speed_ms);
}

/// Where a file's steps, replayed on the lines of its old content with every
/// edit in range, give the lines of its new content, the new content has as
/// many more lines than the old as the hunks have additions over deletions.
pub proof fn lemma_diff_line_count(old_content: Seq<char>, new_content: Seq<char>, hunks: Seq<DiffHunk>, speed_ms: nat)
    requires
        edits_in_range(content_lines(old_content), file_steps(hunks, speed_ms)),
        replay(content_lines(old_content), file_steps(hunks, speed_ms)) == content_lines(new_content),
    ensures
        content_lines(new_content).len() - content_lines(old_content).len() == total_additions(hunks)
            - total_deletions(hunks),
{
    lemma_file_replay_line_count(content_lines(old_content), hunks, speed_ms);
}

} // verus!
