//! The scheduler that plays a compiled step stream against a clock.

use vstd::prelude::*;

use rand::Rng;
use rand::SeedableRng;
use rand::rngs::StdRng;

use crate::buffer::EditorBuffer;
use crate::diff::CommitMetadata;
use crate::highlight::{EditState, HighlightSpan, byte_len, line_start_offsets, line_start_table};
use crate::replay::apply_step;
use crate::script::{commit_script, push_commit_script, utc_datetime_text};
use crate::step::{AnimationStep, StepView, step_views};
use crate::text::{char_at, char_len_bytes, chars_of, content_lines, push_char, split_lines, string_views, text_len_bytes, utf8_width};

verus! {

#[verifier::external_type_specification]
#[verifier::external_body]
pub struct ExStdRng(StdRng);

/// Relies on rand's `SeedableRng::seed_from_u64` for `StdRng`: a generator
/// whose output is fixed by `seed`.
#[verifier::external_body]
fn seeded_rng(seed: u64) -> StdRng {
    StdRng::seed_from_u64(seed)
}

/// Relies on rand's `Rng::random_range` on an inclusive range: the value lies
/// in `low..=high`.
#[verifier::external_body]
fn draw_between(rng: &mut StdRng, low: u64, high: u64) -> (r: u64)
    requires
        low <= high,
    ensures
        low <= r <= high,
{
    rng.random_range(low..=high)
}

/// The source of token spans for a file: told the file's path, it answers
/// whether it knows the language, and then turns texts into spans.
pub trait SpanSource {
    fn set_language(&mut self, path: &str) -> bool;

    fn highlight(&mut self, text: &str) -> Vec<HighlightSpan>;
}

/// A span source that knows no language: every text stays uncoloured.
pub struct PlainText;

impl SpanSource for PlainText {
    fn set_language(&mut self, path: &str) -> bool {
        false
    }

    fn highlight(&mut self, text: &str) -> Vec<HighlightSpan> {
        Vec::new()
    }
}

/// Where playback stands.
#[derive(Debug, Clone, Copy, PartialEq, Eq, Structural)]
pub enum AnimationState {
    Idle,
    Playing,
    Finished,
}

/// Which simulated pane has the focus.
#[derive(Debug, Clone, Copy, PartialEq, Eq, Structural)]
pub enum ActivePane {
    Editor,
    Terminal,
}

/// Lowest and highest jitter applied to typing, in thousandths.
pub const JITTER_MIN: u64 = 700;

pub const JITTER_MAX: u64 = 1300;

/// Frames per second that the scheduler renders at most.
pub const TARGET_FPS: u64 = 120;

/// Interval at which the cursor blinks, in milliseconds.
pub const BLINK_MS: u64 = 500;

/// How much slower typing into the open-file dialog is than typing code.
pub const DIALOG_SPEED_FACTOR: u64 = 2;

/// `v` capped at the largest `u64`.
pub open spec fn cap_u64(v: int) -> nat {
    if v > u64::MAX {
        u64::MAX as nat
    } else if v < 0 {
        0
    } else {
        v as nat
    }
}

/// Delay after step `s`: typing in the editor or the terminal takes the base
/// speed times the jitter (in thousandths), typing in the dialog takes that
/// times the dialog factor, every other step the base speed.
pub open spec fn step_delay(s: StepView, speed_ms: nat, jitter: nat, dialog_factor: nat) -> nat {
    match s {
        StepView::InsertChar { .. } => cap_u64((speed_ms * jitter / 1000) as int),
        StepView::TerminalTypeChar { .. } => cap_u64((speed_ms * jitter / 1000) as int),
        StepView::DialogTypeChar { .. } => cap_u64((speed_ms * dialog_factor * jitter / 1000) as int),
        _ => speed_ms,
    }
}

/// At base speed zero every step's delay is zero.
pub proof fn lemma_zero_speed_delay(s: StepView, jitter: nat, dialog_factor: nat)
    ensures
        step_delay(s, 0, jitter, dialog_factor) == 0,
{
    assert(0 * jitter == 0);
    assert(0 * dialog_factor * jitter == 0) by (nonlinear_arith);
}

/// The delay after step `step`, as `step_delay` states.
pub fn delay_after(step: &AnimationStep, speed_ms: u64, jitter: u64, dialog_factor: u64) -> (r: u64)
    requires
        jitter <= JITTER_MAX,
    ensures
        r == step_delay(step@, speed_ms as nat, jitter as nat, dialog_factor as nat),
{
    assert((speed_ms as u128) * (jitter as u128) <= (u64::MAX as u128) * 1300) by (nonlinear_arith)
        requires
            jitter <= 1300,
    ;
    assert((speed_ms as u128) * (dialog_factor as u128) <= (u64::MAX as u128) * (u64::MAX as u128)) by (nonlinear_arith);
    let v: u128 = match step {
        AnimationStep::InsertChar { .. } | AnimationStep::TerminalTypeChar { .. } => (speed_ms as u128)
            * (jitter as u128) / 1000,
        AnimationStep::DialogTypeChar { .. } => {
            let p: u128 = (speed_ms as u128) * (dialog_factor as u128);
            if p > 0x10_0000_0000_0000_0000_0000_0000 {
                if jitter == 0 {
                    0
                } else {
                    assert(p * (jitter as u128) / 1000 > u64::MAX) by (nonlinear_arith)
                        requires
                            p > 0x10_0000_0000_0000_0000_0000_0000u128,
                            jitter >= 1,
                    ;
                    assert(speed_ms * dialog_factor * jitter == p * jitter) by (nonlinear_arith)
                        requires
                            p == speed_ms * dialog_factor,
                    ;
                    u64::MAX as u128 + 1
                }
            } else {
                assert(p * (jitter as u128) <= 0x10_0000_0000_0000_0000_0000_0000u128 * 1300) by (nonlinear_arith)
                    requires
                        p <= 0x10_0000_0000_0000_0000_0000_0000u128,
                        jitter <= 1300,
                ;
                assert(speed_ms * dialog_factor * jitter == p * jitter) by (nonlinear_arith)
                    requires
                        p == speed_ms * dialog_factor,
                ;
                p * (jitter as u128) / 1000
            }
        },
        _ => speed_ms as u128,
    };
    if v > u64::MAX as u128 {
        u64::MAX
    } else {
        v as u64
    }
}

/// Scroll offset that keeps cursor line `cursor` centred in a viewport of
/// `height` lines over `total` lines: none near the top, the last page near
/// the bottom.
pub open spec fn scroll_target(cursor: nat, total: nat, height: nat) -> nat {
    let half = height / 2;
    if cursor < half {
        0
    } else if cursor + half >= total {
        if total >= height {
            (total - height) as nat
        } else {
            0
        }
    } else {
        (cursor - half) as nat
    }
}

/// The pane that has the focus after step `s`.
pub open spec fn pane_after(s: StepView, old: ActivePane) -> ActivePane {
    match s {
        StepView::InsertChar { .. } | StepView::InsertLine { .. } | StepView::DeleteLine { .. }
        | StepView::MoveCursor { .. } | StepView::SwitchFile { .. } => ActivePane::Editor,
        StepView::TerminalPrompt | StepView::TerminalTypeChar { .. } | StepView::TerminalOutput { .. }
        | StepView::ResetState => ActivePane::Terminal,
        _ => old,
    }
}

/// The cursor (line, column) after step `s`.
pub open spec fn cursor_after(s: StepView, old: (nat, nat)) -> (nat, nat) {
    match s {
        StepView::InsertChar { line, col, .. } => (line, cap_usize(col + 1int)),
        StepView::InsertLine { line, .. } => (line, 0),
        StepView::DeleteLine { line } => (line, 0),
        StepView::MoveCursor { line, col } => (line, col),
        StepView::SwitchFile { .. } | StepView::ResetState => (0, 0),
        _ => old,
    }
}

/// `v` capped at the largest `usize`.
pub open spec fn cap_usize(v: int) -> nat {
    if v > usize::MAX {
        usize::MAX as nat
    } else if v < 0 {
        0
    } else {
        v as nat
    }
}

/// The terminal transcript after step `s`.
pub open spec fn terminal_after(s: StepView, lines: Seq<Seq<char>>) -> Seq<Seq<char>> {
    match s {
        StepView::TerminalPrompt => lines.push(seq!['~', ' ']),
        StepView::TerminalTypeChar { ch } => if lines.len() > 0 {
            lines.update(lines.len() - 1, lines.last().push(ch))
        } else {
            lines
        },
        StepView::TerminalOutput { text } => lines.push(text),
        _ => lines,
    }
}

/// The net count of inserted lines after step `s`.
pub open spec fn line_offset_after(s: StepView, old: int) -> int {
    match s {
        StepView::InsertLine { .. } => if old < isize::MAX {
            old + 1
        } else {
            old
        },
        StepView::DeleteLine { .. } => if old > isize::MIN {
            old - 1
        } else {
            old
        },
        StepView::SwitchFile { .. } => 0,
        _ => old,
    }
}

/// `v` capped to the range of `isize`.
pub open spec fn cap_isize(v: int) -> int {
    if v > isize::MAX {
        isize::MAX as int
    } else if v < isize::MIN {
        isize::MIN as int
    } else {
        v
    }
}

/// Byte position of character `col` in `l`, or of its end where `col` is
/// past it, capped at the largest `usize`.
pub open spec fn byte_index(l: Seq<char>, col: nat) -> nat {
    let k = if col <= l.len() {
        col as int
    } else {
        l.len() as int
    };
    cap_usize(text_len_bytes(l.take(k)) as int)
}

/// The edit state after step `s` on buffer lines `lines`: typing a character
/// starts an edit at its position unless that line is already being typed,
/// then counts its bytes; inserting or deleting a line makes it the edit
/// point and adds or removes its bytes; switching file or resetting forgets
/// the edit.
pub open spec fn edit_after(s: StepView, e: EditState, lines: Seq<Seq<char>>) -> EditState {
    match s {
        StepView::InsertChar { line, col, ch } => {
            let base = if e.editing_line == Some(line as usize) {
                e
            } else {
                EditState {
                    editing_line: Some(line as usize),
                    insert_byte: (if line < lines.len() {
                        byte_index(lines[line as int], col)
                    } else {
                        0
                    }) as usize,
                    typed_bytes: 0,
                    byte_shift: e.byte_shift,
                }
            };
            EditState {
                typed_bytes: cap_usize(base.typed_bytes + char_len_bytes(ch)) as usize,
                byte_shift: cap_isize(base.byte_shift + char_len_bytes(ch)) as isize,
                ..base
            }
        },
        StepView::InsertLine { line, content } => EditState {
            editing_line: Some(line as usize),
            insert_byte: 0,
            typed_bytes: 0,
            byte_shift: cap_isize(e.byte_shift + cap_usize(text_len_bytes(content) + 1int)) as isize,
        },
        StepView::DeleteLine { line } => EditState {
            editing_line: Some(line as usize),
            insert_byte: 0,
            typed_bytes: 0,
            byte_shift: cap_isize(
                e.byte_shift - if line < lines.len() {
                    cap_usize(text_len_bytes(lines[line as int]) + 1int)
                } else {
                    0
                },
            ) as isize,
        },
        StepView::SwitchFile { .. } | StepView::ResetState => EditState {
            editing_line: None,
            insert_byte: 0,
            typed_bytes: 0,
            byte_shift: 0,
        },
        _ => e,
    }
}

/// `x + d` capped to the range of `isize`.
fn add_capped(x: isize, d: usize) -> (r: isize)
    ensures
        r == cap_isize(x + d),
{
    let y: i128 = x as i128 + d as i128;
    if y > isize::MAX as i128 {
        isize::MAX
    } else {
        y as isize
    }
}

/// `x - d` capped to the range of `isize`.
fn sub_capped(x: isize, d: usize) -> (r: isize)
    ensures
        r == cap_isize(x - d),
{
    let y: i128 = x as i128 - d as i128;
    if y < isize::MIN as i128 {
        isize::MIN
    } else {
        y as isize
    }
}

/// Byte position of character `col` in `l`, as `byte_index` states.
fn byte_index_of(l: &str, col: usize) -> (r: usize)
    ensures
        r == byte_index(l@, col as nat),
{
    let cs = chars_of(l);
    let k = if col <= cs.len() {
        col
    } else {
        cs.len()
    };
    let mut n: usize = 0;
    let mut i: usize = 0;
    proof {
        assert(cs@.take(0) =~= Seq::<char>::empty());
    }
    while i < k
        invariant
            k <= cs@.len(),
            cs@ == l@,
            i <= k,
            n == cap_usize(text_len_bytes(cs@.take(i as int)) as int),
        decreases k - i,
    {
        let c = char_at(&cs, i);
        proof {
            assert(cs@.take(i + 1).drop_last() =~= cs@.take(i as int));
        }
        n = n.saturating_add(utf8_width(c));
        i = i + 1;
    }
    n
}

/// An element by element copy of `v`.
fn copy_spans(v: &Vec<HighlightSpan>) -> (r: Vec<HighlightSpan>)
    ensures
        r@ == v@,
{
    let mut out: Vec<HighlightSpan> = Vec::new();
    let mut i: usize = 0;
    while i < v.len()
        invariant
            i <= v@.len(),
            out@ == v@.take(i as int),
        decreases v@.len() - i,
    {
        out.push(v[i]);
        proof {
            assert(v@.take(i + 1) =~= v@.take(i as int).push(v@[i as int]));
        }
        i = i + 1;
    }
    proof {
        assert(v@.take(i as int) =~= v@);
    }
    out
}

/// The lines of a snapshot: those of `content`, or one empty line.
fn snapshot_lines(content: &str) -> (r: Vec<String>)
    ensures
        string_views(r@) == content_lines(content@),
{
    if content.is_empty() {
        let v = vec![String::new()];
        proof {
            assert(string_views(v@) =~= seq![Seq::<char>::empty()]);
        }
        v
    } else {
        split_lines(content)
    }
}

/// Milliseconds from `since` to `now`, or none where `now` is earlier.
pub open spec fn elapsed(now: nat, since: nat) -> nat {
    if now >= since {
        (now - since) as nat
    } else {
        0
    }
}

/// Milliseconds from `since` to `now`, as `elapsed` states.
fn elapsed_ms(now: u64, since: u64) -> (r: u64)
    ensures
        r == elapsed(now as nat, since as nat),
{
    if now >= since {
        now - since
    } else {
        0
    }
}

/// The cursor `c` moved into `lines`: onto the last line where it is past
/// it, and onto the end of its line where it is past that.
pub open spec fn clamp_cursor(c: (nat, nat), lines: Seq<Seq<char>>) -> (nat, nat) {
    let line = if c.0 < lines.len() {
        c.0
    } else {
        (lines.len() - 1) as nat
    };
    let len = lines[line as int].len();
    (line, if c.1 <= len {
        c.1
    } else {
        len
    })
}

/// What executing step `s` with jitter `jitter` at time `now` does: engine
/// `a` becomes `b`. The position in the stream and the random generator are
/// not covered.
pub open spec fn step_effect(a: AnimationEngine, b: AnimationEngine, s: StepView, jitter: nat, now: nat) -> bool {
    &&& b.buffer.line_views() == apply_step(a.buffer.line_views(), s)
    &&& (b.buffer.cursor_line as nat, b.buffer.cursor_col as nat) == clamp_cursor(
            cursor_after(s, (a.buffer.cursor_line as nat, a.buffer.cursor_col as nat)),
            b.buffer.line_views(),
        )
    &&& b.buffer.cursor_line < b.buffer.lines@.len()
    &&& b.buffer.cursor_col <= b.buffer.line_views()[b.buffer.cursor_line as int].len()
    &&& b.buffer.scroll_offset == (if a.viewport_height == 0 {
            if s is SwitchFile || s is ResetState {
                0
            } else {
                a.buffer.scroll_offset as nat
            }
        } else {
            scroll_target(
                b.buffer.cursor_line as nat,
                b.buffer.lines@.len(),
                a.viewport_height as nat,
            )
        })
    &&& b.active_pane == pane_after(s, a.active_pane)
    &&& string_views(b.terminal_lines@) == terminal_after(s, string_views(a.terminal_lines@))
    &&& b.line_offset == line_offset_after(s, a.line_offset as int)
    &&& b.edit == edit_after(s, a.edit, a.buffer.line_views())
    &&& b.next_step_delay == step_delay(s, a.speed_ms as nat, jitter, a.dialog_speed_factor as nat)
    &&& b.pause_until == (match s {
            StepView::Pause { duration_ms } => Some(cap_u64(now + duration_ms as int) as u64),
            _ => a.pause_until,
        })
    &&& b.dialog_typing_text@ == (match s {
            StepView::DialogTypeChar { ch } => a.dialog_typing_text@.push(ch),
            StepView::OpenFileDialogStart | StepView::SwitchFile { .. } | StepView::ResetState => Seq::empty(),
            _ => a.dialog_typing_text@,
        })
    &&& (match s {
            StepView::OpenFileDialogStart => b.dialog_title is Some,
            StepView::SwitchFile { .. } | StepView::ResetState => b.dialog_title is None,
            _ => b.dialog_title == a.dialog_title,
        })
    &&& (match s {
            StepView::SwitchFile { file_index, old_content, new_content, path } => {
                &&& b.current_file_index == file_index
                &&& b.current_file_path is Some
                &&& b.current_file_path->0@ == path
                &&& string_views(b.buffer.old_content_lines@) == content_lines(old_content)
                &&& string_views(b.buffer.new_content_lines@) == content_lines(new_content)
                &&& b.buffer.old_content_line_offsets@.map_values(|x: usize| x as nat)
                    == line_start_table(old_content)
                &&& b.buffer.new_content_line_offsets@.map_values(|x: usize| x as nat)
                    == line_start_table(new_content)
                &&& b.buffer.cached_highlights@ == b.buffer.old_highlights@
            },
            _ => true,
        })
    &&& s is ResetState ==> {
            &&& b.current_file_index == 0
            &&& b.current_file_path is None
            &&& b.current_metadata == (if a.pending_metadata is Some {
                a.pending_metadata
            } else {
                a.current_metadata
            })
            &&& b.pending_metadata is None
        }
    &&& !(s is SwitchFile || s is ResetState) ==> {
            &&& b.current_file_index == a.current_file_index
            &&& b.current_file_path == a.current_file_path
            &&& b.buffer.same_highlights(&a.buffer)
        }
    &&& !(s is ResetState) ==> b.current_metadata == a.current_metadata
            && b.pending_metadata == a.pending_metadata
    &&& b.steps == a.steps
    &&& b.state == a.state
    &&& b.speed_ms == a.speed_ms
    &&& b.last_update == a.last_update
    &&& b.last_frame == a.last_frame
    &&& b.frame_interval_ms == a.frame_interval_ms
    &&& b.cursor_visible == a.cursor_visible
    &&& b.cursor_blink_timer == a.cursor_blink_timer
    &&& b.viewport_height == a.viewport_height
    &&& b.dialog_speed_factor == a.dialog_speed_factor
}

/// One step of a frame: engine `x` executes the next step of its stream
/// with jitter `j` at time `now`, giving `y` one position further on.
pub open spec fn batch_step(x: AnimationEngine, y: AnimationEngine, j: nat, now: nat) -> bool {
    &&& x.current_step < x.steps@.len()
    &&& JITTER_MIN <= j <= JITTER_MAX
    &&& step_effect(x, y, x.steps@[x.current_step as int]@, j, now)
    &&& y.current_step == x.current_step + 1
}

/// The delays declared before each of the first `k` states of `states`,
/// summed.
pub open spec fn declared_sum(states: Seq<AnimationEngine>, k: nat) -> nat
    decreases k,
{
    if k == 0 {
        0
    } else {
        declared_sum(states, (k - 1) as nat) + states[k - 1].next_step_delay as nat
    }
}

/// `states` is one frame's run at time `now`, from `states[0]`: each state
/// executes the next step to give the following one; the first step waited
/// for its own declared delay since the last step, and each later one only
/// runs while the declared delays so far fit in the frame interval; the run
/// stops at the end of the stream, at a first step whose delay has not
/// passed, or at the first later step that would not fit.
pub open spec fn frame_run(states: Seq<AnimationEngine>, jitters: Seq<nat>, now: nat) -> bool {
    let k = (states.len() - 1) as nat;
    &&& states.len() >= 1
    &&& jitters.len() == k
    &&& forall|i: int| 0 <= i < k ==> #[trigger] batch_step(states[i], states[i + 1], jitters[i], now)
    &&& k >= 1 ==> elapsed(now, states[0].last_update as nat) >= states[0].next_step_delay
    &&& forall|i: int| 2 <= i <= k ==> #[trigger] declared_sum(states, i as nat) <= states[0].frame_interval_ms
    &&& {
        ||| states.last().current_step >= states.last().steps@.len()
        ||| (k == 0 && elapsed(now, states[0].last_update as nat) < states[0].next_step_delay)
        ||| (k >= 1 && declared_sum(states, k) + states.last().next_step_delay
            > states[0].frame_interval_ms)
    }
}

/// `e` after a frame at time `now` that ran steps where `ran`: the step and
/// frame times become `now`.
pub open spec fn frame_end(e: AnimationEngine, ran: bool, now: u64) -> AnimationEngine {
    if ran {
        AnimationEngine { last_update: now, last_frame: now, ..e }
    } else {
        e
    }
}

/// `e` with its cursor blink brought to time `now`.
pub open spec fn after_blink(e: AnimationEngine, now: u64) -> AnimationEngine {
    if elapsed(now as nat, e.cursor_blink_timer as nat) >= BLINK_MS {
        AnimationEngine { cursor_visible: !e.cursor_visible, cursor_blink_timer: now, ..e }
    } else {
        e
    }
}

/// `e` at the end of a tick: finished once its stream is played through.
pub open spec fn settle(e: AnimationEngine) -> AnimationEngine {
    if e.current_step >= e.steps@.len() {
        AnimationEngine { state: AnimationState::Finished, ..e }
    } else {
        e
    }
}

proof fn lemma_declared_sum_push(states: Seq<AnimationEngine>, y: AnimationEngine, i: nat)
    requires
        i <= states.len(),
    ensures
        declared_sum(states.push(y), i) == declared_sum(states, i),
    decreases i,
{
    if i > 0 {
        lemma_declared_sum_push(states, y, (i - 1) as nat);
    }
}

/// The replay engine: the step stream, where playback stands in it, and the
/// simulated editor, terminal and dialog that the steps act on. Times are
/// milliseconds on the caller's clock.
pub struct AnimationEngine {
    pub buffer: EditorBuffer,
    pub state: AnimationState,
    pub steps: Vec<AnimationStep>,
    pub current_step: usize,
    pub last_update: u64,
    pub speed_ms: u64,
    pub next_step_delay: u64,
    pub pause_until: Option<u64>,
    pub cursor_visible: bool,
    pub cursor_blink_timer: u64,
    pub viewport_height: usize,
    pub current_file_index: usize,
    pub current_file_path: Option<String>,
    pub terminal_lines: Vec<String>,
    pub active_pane: ActivePane,
    /// Lines inserted minus lines deleted since the last file switch.
    pub line_offset: isize,
    /// The edit that moves the snapshot's spans onto the buffer.
    pub edit: EditState,
    pub frame_interval_ms: u64,
    pub last_frame: u64,
    pub dialog_speed_factor: u64,
    pub dialog_title: Option<String>,
    pub dialog_typing_text: String,
    pub current_metadata: Option<CommitMetadata>,
    pub pending_metadata: Option<CommitMetadata>,
    pub rng: StdRng,
}

impl AnimationEngine {
    /// The step stream.
    pub open spec fn step_seq(&self) -> Seq<AnimationStep> {
        self.steps@
    }

    /// Index of the next step to execute.
    pub open spec fn position(&self) -> nat {
        self.current_step as nat
    }

    /// Base delay per typed character.
    pub open spec fn speed(&self) -> nat {
        self.speed_ms as nat
    }

    /// Delay that the next step waits for.
    pub open spec fn declared_delay(&self) -> nat {
        self.next_step_delay as nat
    }

    /// End of the pause in progress, if any.
    pub open spec fn wake_time(&self) -> Option<u64> {
        self.pause_until
    }

    /// Time at which the last batch of steps ran.
    pub open spec fn last_step_time(&self) -> nat {
        self.last_update as nat
    }

    /// Time of the last rendered frame.
    pub open spec fn last_frame_time(&self) -> nat {
        self.last_frame as nat
    }

    /// Minimum time between two frames.
    pub open spec fn frame_interval(&self) -> nat {
        self.frame_interval_ms as nat
    }

    /// How much slower dialog typing is.
    pub open spec fn dialog_factor(&self) -> nat {
        self.dialog_speed_factor as nat
    }

    /// The commit on display.
    pub open spec fn shown_metadata(&self) -> Option<CommitMetadata> {
        self.current_metadata
    }

    /// Visible editor lines.
    pub open spec fn viewport(&self) -> nat {
        self.viewport_height as nat
    }

    /// The engine's own invariant.
    pub open spec fn wf(&self) -> bool {
        &&& self.buffer.wf()
        &&& self.current_step <= self.steps@.len()
    }

    /// An idle engine typing at `speed_ms` per character, started at `now_ms`,
    /// whose jitter is drawn from a generator seeded with `seed`.
    pub fn new(speed_ms: u64, now_ms: u64, seed: u64) -> (r: AnimationEngine)
        ensures
            r.wf(),
            r.state == AnimationState::Idle,
            r.step_seq().len() == 0,
            r.speed() == speed_ms,
            r.declared_delay() == speed_ms,
            r.wake_time() is None,
            r.frame_interval() == 1000u64 / TARGET_FPS,
            r.dialog_factor() == DIALOG_SPEED_FACTOR,
            r.last_step_time() == now_ms,
            r.last_frame_time() == now_ms,
            r.cursor_visible,
            r.active_pane == ActivePane::Terminal,
            r.buffer.line_views() == seq![Seq::<char>::empty()],
    {
        AnimationEngine {
            buffer: EditorBuffer::new(),
            state: AnimationState::Idle,
            steps: Vec::new(),
            current_step: 0,
            last_update: now_ms,
            speed_ms,
            next_step_delay: speed_ms,
            pause_until: None,
            cursor_visible: true,
            cursor_blink_timer: now_ms,
            viewport_height: 20,
            current_file_index: 0,
            current_file_path: None,
            terminal_lines: Vec::new(),
            active_pane: ActivePane::Terminal,
            line_offset: 0,
            edit: EditState { editing_line: None, insert_byte: 0, typed_bytes: 0, byte_shift: 0 },
            frame_interval_ms: 1000 / TARGET_FPS,
            last_frame: now_ms,
            dialog_speed_factor: DIALOG_SPEED_FACTOR,
            dialog_title: None,
            dialog_typing_text: String::new(),
            current_metadata: None,
            pending_metadata: None,
            rng: seeded_rng(seed),
        }
    }

    /// Sets how many lines of the editor are visible.
    pub fn set_viewport_height(&mut self, height: usize)
        ensures
            *final(self) == (AnimationEngine { viewport_height: height, ..*old(self) }),
    {
        self.viewport_height = height;
    }

    /// Sets how much slower dialog typing is than code typing.
    pub fn set_dialog_speed_factor(&mut self, factor: u64)
        ensures
            *final(self) == (AnimationEngine { dialog_speed_factor: factor, ..*old(self) }),
    {
        self.dialog_speed_factor = factor;
    }

    /// The commit being displayed.
    pub fn current_metadata(&self) -> (r: Option<&CommitMetadata>)
        ensures
            (r is Some) == (self.shown_metadata() is Some),
            r is Some ==> *r->0 == self.shown_metadata()->0,
    {
        self.current_metadata.as_ref()
    }

    /// The delay that the next step must wait for since the last one.
    pub fn next_step_delay(&self) -> (r: u64)
        ensures
            r == self.declared_delay(),
    {
        self.next_step_delay
    }

    /// Index of the next step to execute.
    pub fn current_step(&self) -> (r: usize)
        ensures
            r == self.position(),
    {
        self.current_step
    }

    /// Number of steps in the stream.
    pub fn step_count(&self) -> (r: usize)
        ensures
            r == self.step_seq().len(),
    {
        self.steps.len()
    }

    /// Whether the stream has been played to its end.
    pub fn is_finished(&self) -> (r: bool)
        ensures
            r == (self.state == AnimationState::Finished),
    {
        self.state == AnimationState::Finished
    }

    /// The edit state after `step`, as `edit_after` states.
    fn next_edit(&self, step: &AnimationStep) -> (r: EditState)
        ensures
            r == edit_after(step@, self.edit, self.buffer.line_views()),
    {
        let e = self.edit;
        match step {
            AnimationStep::InsertChar { line, col, ch } => {
                let base = if e.editing_line == Some(*line) {
                    e
                } else {
                    let at = if *line < self.buffer.lines.len() {
                        byte_index_of(self.buffer.lines[*line].as_str(), *col)
                    } else {
                        0
                    };
                    EditState { editing_line: Some(*line), insert_byte: at, typed_bytes: 0, byte_shift: e.byte_shift }
                };
                let w = utf8_width(*ch);
                EditState {
                    editing_line: base.editing_line,
                    insert_byte: base.insert_byte,
                    typed_bytes: base.typed_bytes.saturating_add(w),
                    byte_shift: add_capped(base.byte_shift, w),
                }
            },
            AnimationStep::InsertLine { line, content } => {
                let b = byte_len(content.as_str()).saturating_add(1);
                EditState { editing_line: Some(*line), insert_byte: 0, typed_bytes: 0, byte_shift: add_capped(e.byte_shift, b) }
            },
            AnimationStep::DeleteLine { line } => {
                let b = if *line < self.buffer.lines.len() {
                    byte_len(self.buffer.lines[*line].as_str()).saturating_add(1)
                } else {
                    0
                };
                EditState { editing_line: Some(*line), insert_byte: 0, typed_bytes: 0, byte_shift: sub_capped(e.byte_shift, b) }
            },
            AnimationStep::SwitchFile { .. } | AnimationStep::ResetState => EditState {
                editing_line: None,
                insert_byte: 0,
                typed_bytes: 0,
                byte_shift: 0,
            },
            _ => e,
        }
    }

    /// Executes one step at time `now_ms`: it acts on the buffer, the
    /// terminal, the dialog or the clock as its kind says, fixes the delay
    /// before the next step (typing with jitter `jitter`, in thousandths),
    /// and scrolls to keep the cursor in view.
    #[verifier::rlimit(50)]
    pub fn execute_step<H: SpanSource>(&mut self, step: &AnimationStep, jitter: u64, now_ms: u64, highlighter: &mut H)
        requires
            old(self).wf(),
            jitter <= JITTER_MAX,
        ensures
            final(self).wf(),
            step_effect(*old(self), *final(self), step@, jitter as nat, now_ms as nat),
            final(self).current_step == old(self).current_step,
            final(self).rng == old(self).rng,
    {
        self.next_step_delay = delay_after(step, self.speed_ms, jitter, self.dialog_speed_factor);
        let e = self.next_edit(step);
        self.edit = e;
        match step {
            AnimationStep::InsertChar { line, col, ch } => {
                self.active_pane = ActivePane::Editor;
                if *line < usize::MAX {
                    self.buffer.insert_char(*line, *col, *ch);
                }
                self.buffer.cursor_line = *line;
                self.buffer.cursor_col = col.saturating_add(1);
            },
            AnimationStep::InsertLine { line, content } => {
                self.active_pane = ActivePane::Editor;
                self.buffer.insert_line(*line, content.clone());
                self.buffer.cursor_line = *line;
                self.buffer.cursor_col = 0;
                if self.line_offset < isize::MAX {
                    self.line_offset = self.line_offset + 1;
                }
            },
            AnimationStep::DeleteLine { line } => {
                self.active_pane = ActivePane::Editor;
                self.buffer.delete_line(*line);
                self.buffer.cursor_line = *line;
                self.buffer.cursor_col = 0;
                if self.line_offset > isize::MIN {
                    self.line_offset = self.line_offset - 1;
                }
            },
            AnimationStep::MoveCursor { line, col } => {
                self.active_pane = ActivePane::Editor;
                self.buffer.cursor_line = *line;
                self.buffer.cursor_col = *col;
            },
            AnimationStep::Pause { duration_ms } => {
                self.pause_until = Some(now_ms.saturating_add(*duration_ms));
            },
            AnimationStep::OpenFileDialogStart => {
                self.dialog_typing_text = String::new();
                self.dialog_title = Some(String::from_str("Open File..."));
            },
            AnimationStep::DialogTypeChar { ch } => {
                push_char(&mut self.dialog_typing_text, *ch);
            },
            AnimationStep::SwitchFile { file_index, old_content, new_content, path } => {
                self.active_pane = ActivePane::Editor;
                self.dialog_title = None;
                self.dialog_typing_text = String::new();
                self.current_file_index = *file_index;
                self.current_file_path = Some(path.clone());
                let mut buffer = EditorBuffer::from_content(old_content.as_str());
                highlighter.set_language(path.as_str());
                buffer.old_highlights = highlighter.highlight(old_content.as_str());
                buffer.new_highlights = highlighter.highlight(new_content.as_str());
                buffer.old_content_lines = snapshot_lines(old_content.as_str());
                buffer.new_content_lines = snapshot_lines(new_content.as_str());
                buffer.old_content_line_offsets = line_start_offsets(old_content.as_str());
                buffer.new_content_line_offsets = line_start_offsets(new_content.as_str());
                buffer.cached_highlights = copy_spans(&buffer.old_highlights);
                self.buffer = buffer;
                self.line_offset = 0;
            },
            AnimationStep::TerminalPrompt => {
                self.active_pane = ActivePane::Terminal;
                let mut prompt = String::new();
                push_char(&mut prompt, '~');
                push_char(&mut prompt, ' ');
                assert(prompt@ =~= seq!['~', ' ']);
                let ghost before = self.terminal_lines@;
                self.terminal_lines.push(prompt);
                proof {
                    assert(string_views(self.terminal_lines@) =~= string_views(before).push(seq!['~', ' ']));
                }
            },
            AnimationStep::TerminalTypeChar { ch } => {
                self.active_pane = ActivePane::Terminal;
                let n = self.terminal_lines.len();
                if n > 0 {
                    let ghost before = self.terminal_lines@;
                    let mut last = self.terminal_lines.pop().unwrap();
                    push_char(&mut last, *ch);
                    self.terminal_lines.push(last);
                    proof {
                        assert(string_views(self.terminal_lines@) =~= string_views(before).update(
                            n - 1,
                            string_views(before).last().push(*ch),
                        ));
                    }
                }
            },
            AnimationStep::TerminalOutput { text } => {
                self.active_pane = ActivePane::Terminal;
                let ghost before = self.terminal_lines@;
                self.terminal_lines.push(text.clone());
                proof {
                    assert(string_views(self.terminal_lines@) =~= string_views(before).push(text@));
                }
            },
            AnimationStep::ResetState => {
                if self.pending_metadata.is_some() {
                    self.current_metadata = self.pending_metadata.take();
                }
                self.current_file_index = 0;
                self.buffer = EditorBuffer::new();
                self.current_file_path = None;
                self.active_pane = ActivePane::Terminal;
                self.dialog_title = None;
                self.dialog_typing_text = String::new();
            },
        }
        self.clamp_cursor();
        self.update_scroll();
    }

    /// Moves the cursor into the buffer, as `clamp_cursor` states.
    fn clamp_cursor(&mut self)
        requires
            old(self).buffer.wf(),
        ensures
            (final(self).buffer.cursor_line as nat, final(self).buffer.cursor_col as nat) == clamp_cursor(
                (old(self).buffer.cursor_line as nat, old(self).buffer.cursor_col as nat),
                old(self).buffer.line_views(),
            ),
            *final(self) == (AnimationEngine {
                buffer: EditorBuffer {
                    cursor_line: final(self).buffer.cursor_line,
                    cursor_col: final(self).buffer.cursor_col,
                    ..old(self).buffer
                },
                ..*old(self)
            }),
    {
        let n = self.buffer.lines.len();
        if self.buffer.cursor_line >= n {
            self.buffer.cursor_line = n - 1;
        }
        let len = chars_of(self.buffer.lines[self.buffer.cursor_line].as_str()).len();
        if self.buffer.cursor_col > len {
            self.buffer.cursor_col = len;
        }
    }

    /// Loads commit `metadata` at time `now_ms`: the stream becomes the
    /// commit's whole replay, playback starts over from its first step with
    /// no pause pending, the editor starts empty, and the commit is shown from
    /// the step that resets the state after the preamble.
    #[verifier::rlimit(50)]
    pub fn load_commit(&mut self, metadata: CommitMetadata, now_ms: u64)
        requires
            old(self).wf(),
        ensures
            final(self).wf(),
            step_views(final(self).steps@) == commit_script(
                metadata,
                old(self).speed_ms as nat,
                utc_datetime_text(metadata.date as int),
            ),
            final(self).current_step == 0,
            final(self).state == AnimationState::Playing,
            final(self).pause_until is None,
            final(self).last_update == now_ms,
            final(self).pending_metadata == Some(metadata),
            final(self).current_metadata == old(self).current_metadata,
            final(self).buffer.line_views() == seq![Seq::<char>::empty()],
            final(self).speed_ms == old(self).speed_ms,
            final(self).terminal_lines == old(self).terminal_lines,
    {
        self.steps = Vec::new();
        self.current_step = 0;
        self.state = AnimationState::Playing;
        self.last_update = now_ms;
        self.pause_until = None;
        push_commit_script(&mut self.steps, &metadata, self.speed_ms);
        proof {
            assert(step_views(Seq::<AnimationStep>::empty()) =~= Seq::<StepView>::empty());
            assert(Seq::<StepView>::empty() + commit_script(metadata, self.speed_ms as nat, utc_datetime_text(metadata.date as int)) =~= commit_script(metadata, self.speed_ms as nat, utc_datetime_text(metadata.date as int)));
        }
        self.buffer = EditorBuffer::new();
        self.pending_metadata = Some(metadata);
    }

    /// Whether playback is paused at time `now`.
    pub open spec fn paused_at(&self, now: nat) -> bool {
        self.pause_until is Some && now < self.pause_until->0
    }

    /// Whether a frame may be rendered at time `now`.
    pub open spec fn frame_due(&self, now: nat) -> bool {
        elapsed(now, self.last_frame as nat) >= self.frame_interval_ms
    }

    /// Whether the next step's own delay has passed at time `now`.
    pub open spec fn step_due(&self, now: nat) -> bool {
        elapsed(now, self.last_update as nat) >= self.next_step_delay
    }

    /// Advances playback to time `now_ms` and says whether the display must
    /// be redrawn. The cursor blinks every `BLINK_MS`. While a pause lasts
    /// nothing runs, but the display is redrawn. Otherwise, while playing
    /// and once a frame interval has passed since the last frame, the next
    /// step runs when its own delay has passed since the step before it, and
    /// later steps follow in the same frame while their delays together fit
    /// in the frame interval. The end of the stream finishes playback.
    #[verifier::rlimit(50)]
    pub fn tick<H: SpanSource>(&mut self, now_ms: u64, highlighter: &mut H) -> (r: bool)
        requires
            old(self).wf(),
        ensures
            final(self).wf(),
            final(self).steps == old(self).steps,
            old(self).current_step <= final(self).current_step,
            final(self).cursor_visible == (if elapsed(now_ms as nat, old(self).cursor_blink_timer as nat) >= BLINK_MS {
                !old(self).cursor_visible
            } else {
                old(self).cursor_visible
            }),
            old(self).paused_at(now_ms as nat) ==> r && final(self).current_step == old(self).current_step
                && final(self).state == old(self).state && final(self).buffer.line_views() == old(self).buffer.line_views(),
            !old(self).paused_at(now_ms as nat) && old(self).state != AnimationState::Playing ==> !r
                && final(self).current_step == old(self).current_step && final(self).state == old(self).state,
            !old(self).paused_at(now_ms as nat) && old(self).state == AnimationState::Playing && !old(self).frame_due(
                now_ms as nat,
            ) ==> !r && final(self).current_step == old(self).current_step && final(self).state == old(self).state,
            !old(self).paused_at(now_ms as nat) && old(self).state == AnimationState::Playing && old(self).frame_due(
                now_ms as nat,
            ) ==> {
                &&& r == (final(self).current_step > old(self).current_step)
                &&& (old(self).step_due(now_ms as nat) && old(self).current_step < old(self).steps@.len())
                    ==> final(self).current_step > old(self).current_step
                &&& (old(self).step_due(now_ms as nat) && old(self).speed_ms == 0 && old(self).next_step_delay == 0)
                    ==> final(self).current_step == old(self).steps@.len()
                &&& final(self).state == (if final(self).current_step >= old(self).steps@.len() {
                    AnimationState::Finished
                } else {
                    AnimationState::Playing
                })
            },
            old(self).paused_at(now_ms as nat) ==> *final(self) == after_blink(*old(self), now_ms),
            ({
                let p = (AnimationEngine { pause_until: None, ..after_blink(*old(self), now_ms) });
                !old(self).paused_at(now_ms as nat) ==> {
                    &&& (p.state != AnimationState::Playing || !p.frame_due(now_ms as nat)) ==> *final(self) == p
                    &&& (p.state == AnimationState::Playing && p.frame_due(now_ms as nat)) ==> exists|
                        states: Seq<AnimationEngine>,
                        jitters: Seq<nat>,
                    |
                        #[trigger] frame_run(states, jitters, now_ms as nat) && states[0] == p && *final(self)
                            == settle(frame_end(states.last(), states.len() > 1, now_ms)) && r == (states.len()
                            > 1)
                }
            }),
    {
        if elapsed_ms(now_ms, self.cursor_blink_timer) >= BLINK_MS {
            self.cursor_visible = !self.cursor_visible;
            self.cursor_blink_timer = now_ms;
        }
        if let Some(wake) = self.pause_until {
            if now_ms < wake {
                return true;
            }
            self.pause_until = None;
        }
        if self.state != AnimationState::Playing {
            return false;
        }
        if elapsed_ms(now_ms, self.last_frame) < self.frame_interval_ms {
            return false;
        }
        let ghost p = *self;
        let executed = self.execute_batch(now_ms, highlighter);
        let ghost batched = *self;
        if self.current_step >= self.steps.len() {
            self.state = AnimationState::Finished;
        }
        proof {
            let (states, jitters) = choose|states: Seq<AnimationEngine>, jitters: Seq<nat>|
                #[trigger] frame_run(states, jitters, now_ms as nat) && states[0] == p && batched == frame_end(
                    states.last(),
                    states.len() > 1,
                    now_ms,
                ) && executed == (states.len() > 1);
            assert(frame_run(states, jitters, now_ms as nat));
            assert(*self == settle(frame_end(states.last(), states.len() > 1, now_ms)));
        }
        executed
    }

    /// Runs the steps of one frame at time `now_ms`.
    #[verifier::rlimit(50)]
    fn execute_batch<H: SpanSource>(&mut self, now_ms: u64, highlighter: &mut H) -> (r: bool)
        requires
            old(self).wf(),
        ensures
            final(self).wf(),
            final(self).steps == old(self).steps,
            final(self).state == old(self).state,
            final(self).cursor_visible == old(self).cursor_visible,
            final(self).cursor_blink_timer == old(self).cursor_blink_timer,
            final(self).frame_interval_ms == old(self).frame_interval_ms,
            final(self).speed_ms == old(self).speed_ms,
            old(self).current_step <= final(self).current_step,
            r == (final(self).current_step > old(self).current_step),
            (old(self).step_due(now_ms as nat) && old(self).current_step < old(self).steps@.len())
                ==> final(self).current_step > old(self).current_step,
            (old(self).step_due(now_ms as nat) && old(self).speed_ms == 0 && old(self).next_step_delay == 0)
                ==> final(self).current_step == old(self).steps@.len(),
            exists|states: Seq<AnimationEngine>, jitters: Seq<nat>|
                #[trigger] frame_run(states, jitters, now_ms as nat) && states[0] == *old(self) && *final(self)
                    == frame_end(states.last(), states.len() > 1, now_ms) && r == (states.len() > 1),
    {
        let start = self.current_step;
        let ghost mut states: Seq<AnimationEngine> = seq![*self];
        let ghost mut jitters: Seq<nat> = Seq::empty();
        let mut accumulated: u128 = 0;
        let mut executed_any = false;
        let ghost first_due = self.step_due(now_ms as nat);
        let ghost zero = self.speed_ms == 0 && self.next_step_delay == 0;
        while self.current_step < self.steps.len()
            invariant_except_break
                self.wf(),
                self.steps == old(self).steps,
                self.state == old(self).state,
                self.cursor_visible == old(self).cursor_visible,
                self.cursor_blink_timer == old(self).cursor_blink_timer,
                self.frame_interval_ms == old(self).frame_interval_ms,
                self.speed_ms == old(self).speed_ms,
                self.last_update == old(self).last_update,
                start == old(self).current_step,
                start <= self.current_step,
                executed_any == (self.current_step > start),
                !executed_any ==> self.next_step_delay == old(self).next_step_delay,
                first_due == old(self).step_due(now_ms as nat),
                zero == (old(self).speed_ms == 0 && old(self).next_step_delay == 0),
                zero ==> self.next_step_delay == 0 && accumulated == 0,
                states.len() == self.current_step - start + 1,
                states[0] == *old(self),
                states.last() == *self,
                jitters.len() == states.len() - 1,
                forall|i: int| 0 <= i < states.len() - 1 ==> #[trigger] batch_step(states[i], states[i + 1], jitters[i], now_ms as nat),
                states.len() > 1 ==> elapsed(now_ms as nat, states[0].last_update as nat) >= states[0].next_step_delay,
                forall|i: int| 2 <= i <= states.len() - 1 ==> #[trigger] declared_sum(states, i as nat) <= states[0].frame_interval_ms,
                accumulated == declared_sum(states, (states.len() - 1) as nat),
                accumulated <= u64::MAX,
            ensures
                self.wf(),
                self.steps == old(self).steps,
                self.state == old(self).state,
                self.cursor_visible == old(self).cursor_visible,
                self.cursor_blink_timer == old(self).cursor_blink_timer,
                self.frame_interval_ms == old(self).frame_interval_ms,
                self.speed_ms == old(self).speed_ms,
                start <= self.current_step,
                executed_any == (self.current_step > start),
                (first_due && start < self.steps@.len()) ==> self.current_step > start,
                (first_due && zero) ==> self.current_step == self.steps@.len(),
                states.len() == self.current_step - start + 1,
                states[0] == *old(self),
                states.last() == *self,
                frame_run(states, jitters, now_ms as nat),
            decreases self.steps@.len() - self.current_step,
        {
            let delay = self.next_step_delay;
            if !executed_any {
                if elapsed_ms(now_ms, self.last_update) < delay {
                    break;
                }
            } else if accumulated + delay as u128 > self.frame_interval_ms as u128 {
                break;
            }
            let ghost x = *self;
            let step = self.steps[self.current_step].duplicate();
            let jitter = if step.is_typing() {
                draw_between(&mut self.rng, JITTER_MIN, JITTER_MAX)
            } else {
                1000
            };
            self.execute_step(&step, jitter, now_ms, highlighter);
            proof {
                lemma_zero_speed_delay(step@, jitter as nat, self.dialog_speed_factor as nat);
            }
            self.current_step = self.current_step + 1;
            executed_any = true;
            accumulated = accumulated + delay as u128;
            proof {
                assert(batch_step(x, *self, jitter as nat, now_ms as nat));
                let old_states = states;
                let k = (old_states.len() - 1) as nat;
                states = states.push(*self);
                jitters = jitters.push(jitter as nat);
                assert forall|i: int| 0 <= i < states.len() - 1 implies #[trigger] batch_step(states[i], states[i + 1], jitters[i], now_ms as nat) by {
                    if i < k {
                        assert(states[i] == old_states[i] && states[i + 1] == old_states[i + 1]);
                    }
                }
                assert forall|i: int| 2 <= i <= states.len() - 1 implies #[trigger] declared_sum(states, i as nat) <= states[0].frame_interval_ms by {
                    lemma_declared_sum_push(old_states, *self, i as nat);
                    if i == k + 1 {
                        lemma_declared_sum_push(old_states, *self, k);
                    }
                }
                lemma_declared_sum_push(old_states, *self, k);
                assert(declared_sum(states, k + 1) == declared_sum(old_states, k) + old_states[k as int].next_step_delay);
            }
        }
        if executed_any {
            self.last_update = now_ms;
            self.last_frame = now_ms;
        }
        proof {
            assert(frame_run(states, jitters, now_ms as nat));
        }
        executed_any
    }

    /// Keeps the cursor line centred in the viewport.
    fn update_scroll(&mut self)
        ensures
            final(self).buffer.scroll_offset == (if old(self).viewport_height == 0 {
                old(self).buffer.scroll_offset as nat
            } else {
                scroll_target(
                    old(self).buffer.cursor_line as nat,
                    old(self).buffer.lines@.len(),
                    old(self).viewport_height as nat,
                )
            }),
            final(self).buffer.line_views() == old(self).buffer.line_views(),
            final(self).buffer.lines == old(self).buffer.lines,
            final(self).buffer.cursor_line == old(self).buffer.cursor_line,
            final(self).buffer.cursor_col == old(self).buffer.cursor_col,
            final(self).buffer.wf() == old(self).buffer.wf(),
            final(self).buffer.same_highlights(&old(self).buffer),
            ({
                let a = *old(self);
                let b = *final(self);
                &&& b.state == a.state
                &&& b.steps == a.steps
                &&& b.current_step == a.current_step
                &&& b.last_update == a.last_update
                &&& b.speed_ms == a.speed_ms
                &&& b.next_step_delay == a.next_step_delay
                &&& b.pause_until == a.pause_until
                &&& b.cursor_visible == a.cursor_visible
                &&& b.cursor_blink_timer == a.cursor_blink_timer
                &&& b.viewport_height == a.viewport_height
                &&& b.current_file_index == a.current_file_index
                &&& b.current_file_path == a.current_file_path
                &&& b.terminal_lines == a.terminal_lines
                &&& b.active_pane == a.active_pane
                &&& b.line_offset == a.line_offset
                &&& b.edit == a.edit
                &&& b.frame_interval_ms == a.frame_interval_ms
                &&& b.last_frame == a.last_frame
                &&& b.dialog_speed_factor == a.dialog_speed_factor
                &&& b.dialog_title == a.dialog_title
                &&& b.dialog_typing_text == a.dialog_typing_text
                &&& b.current_metadata == a.current_metadata
                &&& b.pending_metadata == a.pending_metadata
                &&& b.rng == a.rng
            }),
    {
        if self.viewport_height == 0 {
            return;
        }
        let cursor_line = self.buffer.cursor_line;
        let total_lines = self.buffer.lines.len();
        let half = self.viewport_height / 2;
        let target = if cursor_line < half {
            0
        } else if cursor_line as u128 + half as u128 >= total_lines as u128 {
            total_lines.saturating_sub(self.viewport_height)
        } else {
            cursor_line - half
        };
        self.buffer.scroll_offset = target;
    }
}

/// A pause of `duration_ms` executed at time `start_ms` holds playback for
/// every time strictly between its start and its end: `tick` then reports a
/// redraw and runs no step.
pub proof fn lemma_pause_holds(e: AnimationEngine, start_ms: nat, duration_ms: nat, now: nat)
    requires
        e.pause_until == Some(cap_u64(start_ms + duration_ms as int) as u64),
        start_ms + duration_ms <= u64::MAX,
        start_ms < now < start_ms + duration_ms,
    ensures
        e.paused_at(now),
{
}

} // verus!
