//! Compiles the hunks of one file into the ordered steps that replay them.

use vstd::prelude::*;

use crate::diff::{DiffHunk, LineChange, LineChangeType};
use crate::motion::{MAX_TRAVEL, cursor_motion_steps, cursor_pause, push_cursor_motion, waypoint_pause};
use crate::step::{AnimationStep, StepView, scale_ms, scaled_ms, step_views};
use crate::text::{char_at, chars_of};

verus! {

broadcast use crate::step::lemma_step_views_push;

/// Pause after deleting a line, in hundredths of the base speed.
pub const DELETE_LINE_PAUSE: u64 = 1000;

/// Pause after typing an added line, in hundredths of the base speed.
pub const INSERT_LINE_PAUSE: u64 = 670;

/// Pause after each hunk, in hundredths of the base speed.
pub const HUNK_PAUSE: u64 = 5000;

/// Pause after moving to a context line, in hundredths of the base speed.
pub const CURSOR_MOVE_PAUSE: u64 = 50;

/// Largest line number and largest count of hunk lines in a file that the
/// compiler takes: every line index it computes then fits in 32 bits.
pub const LINE_LIMIT: usize = 0x4000_0000;

/// The last character of `text`.
pub open spec fn last_char(text: Seq<char>) -> char {
    text.last()
}

/// One insert-character step per character of `text`, at increasing columns
/// of line `line`.
pub open spec fn typing_steps(line: nat, text: Seq<char>) -> Seq<StepView>
    decreases text.len(),
{
    if text.len() == 0 {
        Seq::empty()
    } else {
        typing_steps(line, text.drop_last()).push(
            StepView::InsertChar { line, col: (text.len() - 1) as nat, ch: last_char(text) },
        )
    }
}

/// Steps, buffer line and cursor line after replaying `lines` from buffer
/// line `start` with the cursor on line `cursor`.
pub open spec fn hunk_fold(lines: Seq<LineChange>, start: nat, cursor: nat, speed_ms: nat) -> (
    Seq<StepView>,
    nat,
    nat,
)
    decreases lines.len(),
{
    if lines.len() == 0 {
        (Seq::empty(), start, cursor)
    } else {
        let prev = hunk_fold(lines.drop_last(), start, cursor, speed_ms);
        let st = prev.0;
        let b = prev.1;
        let c = prev.2;
        let l = lines.last();
        match l.change_type {
            LineChangeType::Deletion => (
                st + seq![
                    StepView::DeleteLine { line: b },
                    StepView::Pause { duration_ms: scaled_ms(speed_ms, DELETE_LINE_PAUSE as nat) },
                ],
                b,
                b,
            ),
            LineChangeType::Addition => (
                st + seq![StepView::InsertLine { line: b, content: Seq::empty() }] + typing_steps(
                    b,
                    l.content@,
                ) + seq![StepView::Pause { duration_ms: scaled_ms(speed_ms, INSERT_LINE_PAUSE as nat) }],
                b + 1,
                b,
            ),
            LineChangeType::Context => (
                st + if b != c {
                    seq![
                        StepView::MoveCursor { line: b, col: 0 },
                        StepView::Pause {
                            duration_ms: scaled_ms(speed_ms, CURSOR_MOVE_PAUSE as nat),
                        },
                    ]
                } else {
                    Seq::empty()
                },
                (b + 1) as nat,
                b,
            ),
        }
    }
}

/// Number of additions among `lines`.
pub open spec fn additions(lines: Seq<LineChange>) -> nat
    decreases lines.len(),
{
    if lines.len() == 0 {
        0
    } else {
        additions(lines.drop_last()) + if lines.last().change_type == LineChangeType::Addition {
            1nat
        } else {
            0nat
        }
    }
}

/// Number of deletions among `lines`.
pub open spec fn deletions(lines: Seq<LineChange>) -> nat
    decreases lines.len(),
{
    if lines.len() == 0 {
        0
    } else {
        deletions(lines.drop_last()) + if lines.last().change_type == LineChangeType::Deletion {
            1nat
        } else {
            0nat
        }
    }
}

/// Number of lines, of every kind, in `hunks`.
pub open spec fn hunk_line_total(hunks: Seq<DiffHunk>) -> nat
    decreases hunks.len(),
{
    if hunks.len() == 0 {
        0
    } else {
        hunk_line_total(hunks.drop_last()) + hunks.last().lines@.len()
    }
}

/// The hunks of a file are within the compiler's limits.
pub open spec fn hunks_fit(hunks: Seq<DiffHunk>) -> bool {
    &&& forall|k: int| 0 <= k < hunks.len() ==> #[trigger] hunks[k].old_start <= LINE_LIMIT
    &&& hunk_line_total(hunks) <= LINE_LIMIT
}

/// Line that a hunk starts on in the buffer: its old start, made 0-based and
/// moved by the lines that earlier hunks added or removed, and not below 0.
pub open spec fn hunk_target(old_start: nat, line_offset: int) -> nat {
    let t = old_start - 1 + line_offset;
    if t < 0 {
        0
    } else {
        t as nat
    }
}

/// Steps that move the cursor from `from` to `to`: the eased path, or a
/// single jump where the travel is longer than `MAX_TRAVEL`.
pub open spec fn travel_steps(from: nat, to: nat, speed_ms: nat) -> Seq<StepView> {
    let d = if from <= to {
        (to - from) as nat
    } else {
        (from - to) as nat
    };
    if d <= MAX_TRAVEL {
        cursor_motion_steps(from, to, speed_ms)
    } else {
        seq![
            StepView::MoveCursor { line: to, col: 0 },
            StepView::Pause { duration_ms: waypoint_pause(speed_ms, d) },
        ]
    }
}

/// Steps, cursor line and line offset after compiling `hunks`.
pub open spec fn file_fold(hunks: Seq<DiffHunk>, speed_ms: nat) -> (Seq<StepView>, nat, int)
    decreases hunks.len(),
{
    if hunks.len() == 0 {
        (Seq::empty(), 0, 0)
    } else {
        let prev = file_fold(hunks.drop_last(), speed_ms);
        let h = hunks.last();
        let target = hunk_target(h.old_start as nat, prev.2);
        let body = hunk_fold(h.lines@, target, target, speed_ms);
        (
            prev.0 + travel_steps(prev.1, target, speed_ms) + body.0 + seq![
                StepView::Pause { duration_ms: scaled_ms(speed_ms, HUNK_PAUSE as nat) },
            ],
            body.2,
            prev.2 + additions(h.lines@) - deletions(h.lines@),
        )
    }
}

/// The steps that replay `hunks` at base speed `speed_ms`.
pub open spec fn file_steps(hunks: Seq<DiffHunk>, speed_ms: nat) -> Seq<StepView> {
    file_fold(hunks, speed_ms).0
}

proof fn lemma_hunk_fold_bounds(lines: Seq<LineChange>, start: nat, cursor: nat, speed_ms: nat)
    ensures
        ({
            let r = hunk_fold(lines, start, cursor, speed_ms);
            &&& start <= r.1 <= start + lines.len()
            &&& r.2 == cursor || start <= r.2 <= start + lines.len()
            &&& r.1 == start + additions(lines) + (lines.len() - additions(lines) - deletions(lines))
            &&& additions(lines) + deletions(lines) <= lines.len()
        }),
    decreases lines.len(),
{
    if lines.len() > 0 {
        lemma_hunk_fold_bounds(lines.drop_last(), start, cursor, speed_ms);
    }
}

proof fn lemma_typing_steps_push(line: nat, text: Seq<char>, c: char)
    requires
        text.len() > 0,
        text.last() == c,
    ensures
        typing_steps(line, text) == typing_steps(line, text.drop_last()).push(
            StepView::InsertChar { line, col: (text.len() - 1) as nat, ch: c },
        ),
{
}

/// Appends one insert-character step per character of `text`, at increasing
/// columns of line `line`.
fn push_typing_steps(steps: &mut Vec<AnimationStep>, line: usize, text: &str)
    ensures
        step_views(final(steps)@) == step_views(old(steps)@) + typing_steps(line as nat, text@),
{
    let cs = chars_of(text);
    let ghost start = step_views(steps@);
    let mut col: usize = 0;
    while col < cs.len()
        invariant
            col <= cs@.len(),
            cs@ == text@,
            step_views(steps@) == start + typing_steps(line as nat, cs@.take(col as int)),
        decreases cs@.len() - col,
    {
        let ghost before = steps@;
        let c: char = char_at(&cs, col);
        steps.push(AnimationStep::InsertChar { line, col, ch: c });
        proof {
            assert(cs@.take(col + 1).drop_last() =~= cs@.take(col as int));
            let v = StepView::InsertChar { line: line as nat, col: col as nat, ch: c };
            lemma_typing_steps_push(line as nat, cs@.take(col + 1), c);
            assert(step_views(steps@) =~= start + typing_steps(line as nat, cs@.take(col + 1)));
        }
        col = col + 1;
    }
    proof {
        assert(cs@.take(col as int) =~= cs@);
    }
}

/// Appends the steps of one hunk whose first line is buffer line
/// `start_buffer_line`, with the cursor on `start_cursor_line`; returns the
/// final cursor line and buffer line.
#[verifier::rlimit(50)]
pub fn push_hunk_steps(
    steps: &mut Vec<AnimationStep>,
    hunk: &DiffHunk,
    start_cursor_line: usize,
    start_buffer_line: usize,
    speed_ms: u64,
) -> (r: (usize, usize))
    requires
        start_buffer_line + hunk.lines@.len() <= usize::MAX,
        start_cursor_line <= usize::MAX,
    ensures
        ({
            let f = hunk_fold(hunk.lines@, start_buffer_line as nat, start_cursor_line as nat, speed_ms as nat);
            &&& step_views(final(steps)@) == step_views(old(steps)@) + f.0
            &&& r.1 == f.1
            &&& r.0 == f.2
        }),
{
    let delete_pause = scale_ms(speed_ms, DELETE_LINE_PAUSE);
    let insert_pause = scale_ms(speed_ms, INSERT_LINE_PAUSE);
    let move_pause = scale_ms(speed_ms, CURSOR_MOVE_PAUSE);
    let ghost start = step_views(steps@);
    let ghost lines = hunk.lines@;
    let mut buffer_line = start_buffer_line;
    let mut cursor_line = start_cursor_line;
    let mut k: usize = 0;
    while k < hunk.lines.len()
        invariant
            lines == hunk.lines@,
            k <= lines.len(),
            start_buffer_line + lines.len() <= usize::MAX,
            delete_pause == scaled_ms(speed_ms as nat, DELETE_LINE_PAUSE as nat),
            insert_pause == scaled_ms(speed_ms as nat, INSERT_LINE_PAUSE as nat),
            move_pause == scaled_ms(speed_ms as nat, CURSOR_MOVE_PAUSE as nat),
            ({
                let f = hunk_fold(lines.take(k as int), start_buffer_line as nat, start_cursor_line as nat, speed_ms as nat);
                &&& step_views(steps@) == start + f.0
                &&& buffer_line == f.1
                &&& cursor_line == f.2
            }),
        decreases lines.len() - k,
    {
        proof {
            assert(lines.take(k + 1).drop_last() =~= lines.take(k as int));
            assert(lines.take(k + 1).last() == lines[k as int]);
            lemma_hunk_fold_bounds(lines.take(k as int), start_buffer_line as nat, start_cursor_line as nat, speed_ms as nat);
        }
        let line_change = &hunk.lines[k];
        let ghost before = step_views(steps@);
        match line_change.change_type {
            LineChangeType::Deletion => {
                steps.push(AnimationStep::DeleteLine { line: buffer_line });
                steps.push(AnimationStep::Pause { duration_ms: delete_pause });
                cursor_line = buffer_line;
                proof {
                    assert(step_views(steps@) =~= before + seq![
                        StepView::DeleteLine { line: buffer_line as nat },
                        StepView::Pause { duration_ms: delete_pause as nat },
                    ]);
                }
            },
            LineChangeType::Addition => {
                steps.push(AnimationStep::InsertLine { line: buffer_line, content: String::new() });
                proof {
                    assert(step_views(steps@) =~= before + seq![
                        StepView::InsertLine { line: buffer_line as nat, content: Seq::empty() },
                    ]);
                }
                push_typing_steps(steps, buffer_line, line_change.content.as_str());
                cursor_line = buffer_line;
                buffer_line = buffer_line + 1;
                let ghost b3 = step_views(steps@);
                steps.push(AnimationStep::Pause { duration_ms: insert_pause });
                proof {
                    assert(step_views(steps@) =~= b3.push(StepView::Pause { duration_ms: insert_pause as nat }));
                }
            },
            LineChangeType::Context => {
                if buffer_line != cursor_line {
                    steps.push(AnimationStep::MoveCursor { line: buffer_line, col: 0 });
                    steps.push(AnimationStep::Pause { duration_ms: move_pause });
                    proof {
                        assert(step_views(steps@) =~= before + seq![
                            StepView::MoveCursor { line: buffer_line as nat, col: 0 },
                            StepView::Pause { duration_ms: move_pause as nat },
                        ]);
                    }
                } else {
                    proof {
                        assert(step_views(steps@) =~= before + Seq::<StepView>::empty());
                    }
                }
                cursor_line = buffer_line;
                buffer_line = buffer_line + 1;
            },
        }
        k = k + 1;
    }
    proof {
        assert(lines.take(k as int) =~= lines);
    }
    (cursor_line, buffer_line)
}

/// Additions over all of `hunks`.
pub open spec fn total_additions(hunks: Seq<DiffHunk>) -> nat
    decreases hunks.len(),
{
    if hunks.len() == 0 {
        0
    } else {
        total_additions(hunks.drop_last()) + additions(hunks.last().lines@)
    }
}

/// Deletions over all of `hunks`.
pub open spec fn total_deletions(hunks: Seq<DiffHunk>) -> nat
    decreases hunks.len(),
{
    if hunks.len() == 0 {
        0
    } else {
        total_deletions(hunks.drop_last()) + deletions(hunks.last().lines@)
    }
}

/// How many line insertions and how many line deletions `steps` hold.
pub open spec fn line_counts(steps: Seq<StepView>) -> (nat, nat)
    decreases steps.len(),
{
    if steps.len() == 0 {
        (0, 0)
    } else {
        let c = line_counts(steps.drop_last());
        match steps.last() {
            StepView::InsertLine { .. } => (c.0 + 1, c.1),
            StepView::DeleteLine { .. } => (c.0, c.1 + 1),
            _ => c,
        }
    }
}

/// Lines that `steps` insert minus lines that they delete.
pub open spec fn line_delta(steps: Seq<StepView>) -> int {
    line_counts(steps).0 - line_counts(steps).1
}

proof fn lemma_line_delta_concat(a: Seq<StepView>, b: Seq<StepView>)
    ensures
        line_counts(a + b) == (line_counts(a).0 + line_counts(b).0, line_counts(a).1 + line_counts(b).1),
    decreases b.len(),
{
    if b.len() == 0 {
        assert(a + b =~= a);
    } else {
        lemma_line_delta_concat(a, b.drop_last());
        assert((a + b).drop_last() =~= a + b.drop_last());
        assert((a + b).last() == b.last());
    }
}

proof fn lemma_typing_delta(line: nat, text: Seq<char>)
    ensures
        line_counts(typing_steps(line, text)) == (0nat, 0nat),
    decreases text.len(),
{
    if text.len() > 0 {
        lemma_typing_delta(line, text.drop_last());
        let t = typing_steps(line, text);
        assert(t.drop_last() =~= typing_steps(line, text.drop_last()));
    }
}

proof fn lemma_motion_delta(w: Seq<int>, pause: nat)
    ensures
        line_counts(crate::motion::motion_steps(w, pause)) == (0nat, 0nat),
    decreases w.len(),
{
    reveal_with_fuel(line_counts, 3);
    if w.len() > 0 {
        lemma_motion_delta(w.drop_last(), pause);
        let two = seq![
            StepView::MoveCursor { line: crate::motion::line_index(w.last()), col: 0 },
            StepView::Pause { duration_ms: pause },
        ];
        lemma_line_delta_concat(crate::motion::motion_steps(w.drop_last(), pause), two);
        assert(two.drop_last().drop_last() =~= Seq::<StepView>::empty());
    }
}

proof fn lemma_hunk_delta(lines: Seq<LineChange>, start: nat, cursor: nat, speed_ms: nat)
    ensures
        line_counts(hunk_fold(lines, start, cursor, speed_ms).0) == (additions(lines), deletions(lines)),
    decreases lines.len(),
{
    reveal_with_fuel(line_counts, 3);
    if lines.len() > 0 {
        lemma_hunk_delta(lines.drop_last(), start, cursor, speed_ms);
        let prev = hunk_fold(lines.drop_last(), start, cursor, speed_ms);
        let b = prev.1;
        let c = prev.2;
        let l = lines.last();
        match l.change_type {
            LineChangeType::Deletion => {
                let tail = seq![
                    StepView::DeleteLine { line: b },
                    StepView::Pause { duration_ms: scaled_ms(speed_ms, DELETE_LINE_PAUSE as nat) },
                ];
                lemma_line_delta_concat(prev.0, tail);
                assert(tail.drop_last().drop_last() =~= Seq::<StepView>::empty());
            },
            LineChangeType::Addition => {
                let head = seq![StepView::InsertLine { line: b, content: Seq::empty() }];
                let typing = typing_steps(b, l.content@);
                let tail = seq![StepView::Pause { duration_ms: scaled_ms(speed_ms, INSERT_LINE_PAUSE as nat) }];
                lemma_typing_delta(b, l.content@);
                lemma_line_delta_concat(prev.0, head);
                lemma_line_delta_concat(prev.0 + head, typing);
                lemma_line_delta_concat(prev.0 + head + typing, tail);
                assert(head.drop_last() =~= Seq::<StepView>::empty());
                assert(tail.drop_last() =~= Seq::<StepView>::empty());
            },
            LineChangeType::Context => {
                let tail = if b != c {
                    seq![
                        StepView::MoveCursor { line: b, col: 0 },
                        StepView::Pause {
                            duration_ms: scaled_ms(speed_ms, CURSOR_MOVE_PAUSE as nat),
                        },
                    ]
                } else {
                    Seq::empty()
                };
                lemma_line_delta_concat(prev.0, tail);
                if b != c {
                    assert(tail.drop_last().drop_last() =~= Seq::<StepView>::empty());
                }
            },
        }
    }
}

/// The line offset that the compiler ends a file with is its additions minus
/// its deletions; its steps insert one line per addition and delete one per
/// deletion, so their net change of lines is that offset too.
pub proof fn lemma_file_line_offset(hunks: Seq<DiffHunk>, speed_ms: nat)
    ensures
        file_fold(hunks, speed_ms).2 == total_additions(hunks) - total_deletions(hunks),
        line_counts(file_steps(hunks, speed_ms)) == (total_additions(hunks), total_deletions(hunks)),
        line_delta(file_steps(hunks, speed_ms)) == total_additions(hunks) - total_deletions(hunks),
    decreases hunks.len(),
{
    reveal_with_fuel(line_counts, 3);
    if hunks.len() > 0 {
        let init = hunks.drop_last();
        lemma_file_line_offset(init, speed_ms);
        let prev = file_fold(init, speed_ms);
        let h = hunks.last();
        let target = hunk_target(h.old_start as nat, prev.2);
        let travel = travel_steps(prev.1, target, speed_ms);
        let body = hunk_fold(h.lines@, target, target, speed_ms);
        let tail = seq![StepView::Pause { duration_ms: scaled_ms(speed_ms, HUNK_PAUSE as nat) }];
        let d = if prev.1 <= target {
            (target - prev.1) as nat
        } else {
            (prev.1 - target) as nat
        };
        if d <= MAX_TRAVEL {
            lemma_motion_delta(crate::motion::cursor_waypoints(prev.1, target), waypoint_pause(speed_ms, d));
        } else {
            assert(travel.drop_last().drop_last() =~= Seq::<StepView>::empty());
        }
        lemma_hunk_delta(h.lines@, target, target, speed_ms);
        lemma_line_delta_concat(prev.0, travel);
        lemma_line_delta_concat(prev.0 + travel, body.0);
        lemma_line_delta_concat(prev.0 + travel + body.0, tail);
        assert(tail.drop_last() =~= Seq::<StepView>::empty());
    }
}

/// Whether `hunks` are within the compiler's limits.
#[verifier::rlimit(50)]
pub fn fits_limits(hunks: &Vec<DiffHunk>) -> (r: bool)
    ensures
        r == hunks_fit(hunks@),
{
    let mut total: usize = 0;
    let mut k: usize = 0;
    while k < hunks.len()
        invariant
            k <= hunks@.len(),
            total == hunk_line_total(hunks@.take(k as int)),
            total <= LINE_LIMIT,
            forall|m: int| 0 <= m < k ==> #[trigger] hunks@[m].old_start <= LINE_LIMIT,
        decreases hunks@.len() - k,
    {
        let ghost pre = hunks@.take(k as int);
        let ghost next = hunks@.take(k + 1);
        proof {
            assert(next.drop_last() =~= pre);
            assert(next.last() == hunks@[k as int]);
            assert(hunk_line_total(next) == total + hunks@[k as int].lines@.len());
            lemma_hunk_line_total_prefix(hunks@, k as int);
        }
        let h = &hunks[k];
        if h.old_start > LINE_LIMIT {
            return false;
        }
        if h.lines.len() > LINE_LIMIT - total {
            return false;
        }
        total = total + h.lines.len();
        k = k + 1;
    }
    proof {
        assert(hunks@.take(k as int) =~= hunks@);
    }
    true
}

/// Counts the additions and the deletions among `lines`.
pub fn count_changes(lines: &Vec<LineChange>) -> (r: (usize, usize))
    ensures
        r.0 == additions(lines@),
        r.1 == deletions(lines@),
{
    let mut a: usize = 0;
    let mut d: usize = 0;
    let mut k: usize = 0;
    while k < lines.len()
        invariant
            k <= lines@.len(),
            a == additions(lines@.take(k as int)),
            d == deletions(lines@.take(k as int)),
            a + d <= k,
        decreases lines@.len() - k,
    {
        proof {
            assert(lines@.take(k + 1).drop_last() =~= lines@.take(k as int));
        }
        match lines[k].change_type {
            LineChangeType::Addition => {
                a = a + 1;
            },
            LineChangeType::Deletion => {
                d = d + 1;
            },
            LineChangeType::Context => {},
        }
        k = k + 1;
    }
    proof {
        assert(lines@.take(k as int) =~= lines@);
    }
    (a, d)
}

proof fn lemma_counts_bounded(lines: Seq<LineChange>)
    ensures
        additions(lines) + deletions(lines) <= lines.len(),
    decreases lines.len(),
{
    if lines.len() > 0 {
        lemma_counts_bounded(lines.drop_last());
    }
}

proof fn lemma_file_fold_bounds(hunks: Seq<DiffHunk>, speed_ms: nat)
    requires
        forall|k: int| 0 <= k < hunks.len() ==> #[trigger] hunks[k].old_start <= LINE_LIMIT,
    ensures
        ({
            let r = file_fold(hunks, speed_ms);
            &&& -(hunk_line_total(hunks) as int) <= r.2 <= hunk_line_total(hunks)
            &&& r.1 <= LINE_LIMIT + 2 * hunk_line_total(hunks)
        }),
    decreases hunks.len(),
{
    if hunks.len() > 0 {
        let init = hunks.drop_last();
        assert forall|k: int| 0 <= k < init.len() implies #[trigger] init[k].old_start <= LINE_LIMIT by {
            assert(init[k] == hunks[k]);
        }
        lemma_file_fold_bounds(init, speed_ms);
        let prev = file_fold(init, speed_ms);
        let h = hunks.last();
        assert(h == hunks[hunks.len() - 1]);
        let target = hunk_target(h.old_start as nat, prev.2);
        lemma_hunk_fold_bounds(h.lines@, target, target, speed_ms);
        lemma_counts_bounded(h.lines@);
    }
}

proof fn lemma_hunk_line_total_prefix(hunks: Seq<DiffHunk>, k: int)
    requires
        0 <= k <= hunks.len(),
    ensures
        hunk_line_total(hunks.take(k)) <= hunk_line_total(hunks),
        k < hunks.len() ==> hunk_line_total(hunks.take(k)) + hunks[k].lines@.len() <= hunk_line_total(
            hunks,
        ),
    decreases hunks.len(),
{
    if k < hunks.len() {
        lemma_hunk_line_total_prefix(hunks.drop_last(), k);
        if k == hunks.len() - 1 {
            assert(hunks.drop_last() =~= hunks.take(k));
        } else {
            assert(hunks.drop_last().take(k) =~= hunks.take(k));
            assert(hunks.drop_last()[k] == hunks[k]);
        }
    } else {
        assert(hunks.take(k) =~= hunks);
    }
}

/// Appends the steps that move the cursor from `from` to `to`.
fn push_travel(steps: &mut Vec<AnimationStep>, from: usize, to: usize, speed_ms: u64)
    ensures
        step_views(final(steps)@) == step_views(old(steps)@) + travel_steps(from as nat, to as nat, speed_ms as nat),
{
    let distance: usize = if from <= to {
        to - from
    } else {
        from - to
    };
    let ghost b1 = step_views(steps@);
    if distance <= MAX_TRAVEL {
        push_cursor_motion(steps, from, to, speed_ms);
    } else {
        let pause = cursor_pause(speed_ms, distance);
        steps.push(AnimationStep::MoveCursor { line: to, col: 0 });
        steps.push(AnimationStep::Pause { duration_ms: pause });
        proof {
            assert(step_views(steps@) =~= b1 + seq![
                StepView::MoveCursor { line: to as nat, col: 0 },
                StepView::Pause { duration_ms: pause as nat },
            ]);
        }
    }
}

/// Appends the steps that replay `hunks` at base speed `speed_ms` and returns
/// the final line offset: additions minus deletions over all hunks.
#[verifier::rlimit(50)]
pub fn push_file_steps(steps: &mut Vec<AnimationStep>, hunks: &Vec<DiffHunk>, speed_ms: u64) -> (r: i64)
    requires
        hunks_fit(hunks@),
    ensures
        step_views(final(steps)@) == step_views(old(steps)@) + file_steps(hunks@, speed_ms as nat),
        r == file_fold(hunks@, speed_ms as nat).2,
{
    let hunk_pause = scale_ms(speed_ms, HUNK_PAUSE);
    let ghost start = step_views(steps@);
    let mut cursor: usize = 0;
    let mut line_offset: i64 = 0;
    let mut k: usize = 0;
    while k < hunks.len()
        invariant
            k <= hunks@.len(),
            hunks_fit(hunks@),
            hunk_pause == scaled_ms(speed_ms as nat, HUNK_PAUSE as nat),
            ({
                let f = file_fold(hunks@.take(k as int), speed_ms as nat);
                &&& step_views(steps@) == start + f.0
                &&& cursor == f.1
                &&& line_offset == f.2
            }),
        decreases hunks@.len() - k,
    {
        let ghost pre = hunks@.take(k as int);
        proof {
            assert(hunks@.take(k + 1).drop_last() =~= pre);
            assert(hunks@.take(k + 1).last() == hunks@[k as int]);
            assert forall|m: int| 0 <= m < pre.len() implies #[trigger] pre[m].old_start <= LINE_LIMIT by {
                assert(pre[m] == hunks@[m]);
            }
            lemma_file_fold_bounds(pre, speed_ms as nat);
            lemma_hunk_line_total_prefix(hunks@, k as int);
            assert(hunks@[k as int].old_start <= LINE_LIMIT);
        }
        let hunk = &hunks[k];
        let t: i64 = hunk.old_start as i64 - 1 + line_offset;
        let target: usize = if t < 0 {
            0
        } else {
            t as usize
        };
        assert(target == hunk_target(hunk.old_start as nat, line_offset as int));
        push_travel(steps, cursor, target, speed_ms);
        let ghost b2 = step_views(steps@);
        let (final_cursor, _final_buffer) = push_hunk_steps(steps, hunk, target, target, speed_ms);
        let (adds, dels) = count_changes(&hunk.lines);
        proof {
            lemma_counts_bounded(hunk.lines@);
            lemma_hunk_fold_bounds(hunk.lines@, target as nat, target as nat, speed_ms as nat);
        }
        line_offset = line_offset + adds as i64 - dels as i64;
        cursor = final_cursor;
        let ghost b3 = step_views(steps@);
        steps.push(AnimationStep::Pause { duration_ms: hunk_pause });
        proof {
            assert(step_views(steps@) =~= start + file_fold(hunks@.take(k + 1), speed_ms as nat).0);
        }
        k = k + 1;
    }
    proof {
        assert(hunks@.take(k as int) =~= hunks@);
    }
    line_offset
}

} // verus!
