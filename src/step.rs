//! The closed set of replay steps that the compiler emits and the scheduler
//! executes.

use vstd::prelude::*;

verus! {

/// One step of a replay.
#[derive(Debug, Clone)]
pub enum AnimationStep {
    InsertChar { line: usize, col: usize, ch: char },
    InsertLine { line: usize, content: String },
    DeleteLine { line: usize },
    MoveCursor { line: usize, col: usize },
    Pause { duration_ms: u64 },
    SwitchFile { file_index: usize, old_content: String, new_content: String, path: String },
    OpenFileDialogStart,
    DialogTypeChar { ch: char },
    TerminalPrompt,
    TerminalTypeChar { ch: char },
    TerminalOutput { text: String },
    ResetState,
}

/// A step with its texts seen as character sequences.
pub enum StepView {
    InsertChar { line: nat, col: nat, ch: char },
    InsertLine { line: nat, content: Seq<char> },
    DeleteLine { line: nat },
    MoveCursor { line: nat, col: nat },
    Pause { duration_ms: nat },
    SwitchFile { file_index: nat, old_content: Seq<char>, new_content: Seq<char>, path: Seq<char> },
    OpenFileDialogStart,
    DialogTypeChar { ch: char },
    TerminalPrompt,
    TerminalTypeChar { ch: char },
    TerminalOutput { text: Seq<char> },
    ResetState,
}

impl View for AnimationStep {
    type V = StepView;

    open spec fn view(&self) -> StepView {
        match self {
            AnimationStep::InsertChar { line, col, ch } => StepView::InsertChar {
                line: *line as nat,
                col: *col as nat,
                ch: *ch,
            },
            AnimationStep::InsertLine { line, content } => StepView::InsertLine {
                line: *line as nat,
                content: content@,
            },
            AnimationStep::DeleteLine { line } => StepView::DeleteLine { line: *line as nat },
            AnimationStep::MoveCursor { line, col } => StepView::MoveCursor {
                line: *line as nat,
                col: *col as nat,
            },
            AnimationStep::Pause { duration_ms } => StepView::Pause {
                duration_ms: *duration_ms as nat,
            },
            AnimationStep::SwitchFile { file_index, old_content, new_content, path } =>
                StepView::SwitchFile {
                file_index: *file_index as nat,
                old_content: old_content@,
                new_content: new_content@,
                path: path@,
            },
            AnimationStep::OpenFileDialogStart => StepView::OpenFileDialogStart,
            AnimationStep::DialogTypeChar { ch } => StepView::DialogTypeChar { ch: *ch },
            AnimationStep::TerminalPrompt => StepView::TerminalPrompt,
            AnimationStep::TerminalTypeChar { ch } => StepView::TerminalTypeChar { ch: *ch },
            AnimationStep::TerminalOutput { text } => StepView::TerminalOutput { text: text@ },
            AnimationStep::ResetState => StepView::ResetState,
        }
    }
}

impl AnimationStep {
    /// Whether the step types one character somewhere.
    pub fn is_typing(&self) -> (r: bool)
        ensures
            r == (self@ is InsertChar || self@ is TerminalTypeChar || self@ is DialogTypeChar),
    {
        match self {
            AnimationStep::InsertChar { .. } | AnimationStep::TerminalTypeChar { .. }
            | AnimationStep::DialogTypeChar { .. } => true,
            _ => false,
        }
    }

    /// An identical copy of the step.
    pub fn duplicate(&self) -> (r: AnimationStep)
        ensures
            r == *self,
    {
        match self {
            AnimationStep::InsertChar { line, col, ch } => AnimationStep::InsertChar {
                line: *line,
                col: *col,
                ch: *ch,
            },
            AnimationStep::InsertLine { line, content } => AnimationStep::InsertLine {
                line: *line,
                content: content.clone(),
            },
            AnimationStep::DeleteLine { line } => AnimationStep::DeleteLine { line: *line },
            AnimationStep::MoveCursor { line, col } => AnimationStep::MoveCursor {
                line: *line,
                col: *col,
            },
            AnimationStep::Pause { duration_ms } => AnimationStep::Pause {
                duration_ms: *duration_ms,
            },
            AnimationStep::SwitchFile { file_index, old_content, new_content, path } =>
                AnimationStep::SwitchFile {
                file_index: *file_index,
                old_content: old_content.clone(),
                new_content: new_content.clone(),
                path: path.clone(),
            },
            AnimationStep::OpenFileDialogStart => AnimationStep::OpenFileDialogStart,
            AnimationStep::DialogTypeChar { ch } => AnimationStep::DialogTypeChar { ch: *ch },
            AnimationStep::TerminalPrompt => AnimationStep::TerminalPrompt,
            AnimationStep::TerminalTypeChar { ch } => AnimationStep::TerminalTypeChar { ch: *ch },
            AnimationStep::TerminalOutput { text } => AnimationStep::TerminalOutput {
                text: text.clone(),
            },
            AnimationStep::ResetState => AnimationStep::ResetState,
        }
    }
}

/// The view of each step of `s`.
pub open spec fn step_views(s: Seq<AnimationStep>) -> Seq<StepView>
    decreases s.len(),
{
    if s.len() == 0 {
        Seq::empty()
    } else {
        step_views(s.drop_last()).push(s.last()@)
    }
}

/// Appending a step appends its view.
pub broadcast proof fn lemma_step_views_push(s: Seq<AnimationStep>, x: AnimationStep)
    ensures
        #[trigger] step_views(s.push(x)) == step_views(s).push(x@),
{
    assert(s.push(x).drop_last() =~= s);
}

/// `base` milliseconds scaled by `hundredths / 100`, rounded down and capped
/// at the largest `u64`.
pub open spec fn scaled_ms(base: nat, hundredths: nat) -> nat {
    let v = base * hundredths / 100;
    if v > u64::MAX {
        u64::MAX as nat
    } else {
        v
    }
}

/// `scaled_ms` in executable form.
pub fn scale_ms(base: u64, hundredths: u64) -> (r: u64)
    ensures
        r == scaled_ms(base as nat, hundredths as nat),
{
    assert((base as u128) * (hundredths as u128) <= u128::MAX) by (nonlinear_arith)
        requires
            base <= u64::MAX,
            hundredths <= u64::MAX,
    ;
    let v: u128 = (base as u128) * (hundredths as u128) / 100;
    if v > u64::MAX as u128 {
        u64::MAX
    } else {
        v as u64
    }
}

} // verus!
