use git_logue::buffer::EditorBuffer;
use git_logue::compile::{count_changes, fits_limits, push_file_steps, push_hunk_steps};
use git_logue::diff::{DiffHunk, LineChange, LineChangeType};
use git_logue::engine::{AnimationEngine, PlainText};
use git_logue::step::{scale_ms, AnimationStep};

fn change(kind: LineChangeType, text: &str) -> LineChange {
    LineChange { change_type: kind, content: text.to_string(), old_line_no: None, new_line_no: None }
}

fn hunk(old_start: usize, lines: Vec<LineChange>) -> DiffHunk {
    DiffHunk { old_start, old_lines: 0, new_start: 0, new_lines: 0, lines }
}

fn edits(steps: &[AnimationStep]) -> Vec<AnimationStep> {
    steps
        .iter()
        .filter(|s| !matches!(s, AnimationStep::Pause { .. } | AnimationStep::MoveCursor { .. }))
        .cloned()
        .collect()
}

fn describe(s: &AnimationStep) -> String {
    match s {
        AnimationStep::InsertChar { line, col, ch } => format!("char {} {} {}", line, col, ch),
        AnimationStep::InsertLine { line, content } => format!("line {} {:?}", line, content),
        AnimationStep::DeleteLine { line } => format!("delete {}", line),
        other => format!("{:?}", other),
    }
}

#[test]
fn single_hunk_replacing_a_line() {
    let h = hunk(
        2,
        vec![
            change(LineChangeType::Deletion, "old"),
            change(LineChangeType::Addition, "new1"),
            change(LineChangeType::Addition, "new2"),
        ],
    );
    let hunks = vec![h];
    let mut steps = Vec::new();
    let offset = push_file_steps(&mut steps, &hunks, 10);
    assert_eq!(offset, 1);
    let got: Vec<String> = edits(&steps).iter().map(describe).collect();
    let expected = vec![
        "delete 1", "line 1 \"\"", "char 1 0 n", "char 1 1 e", "char 1 2 w", "char 1 3 1",
        "line 2 \"\"", "char 2 0 n", "char 2 1 e", "char 2 2 w", "char 2 3 2",
    ];
    assert_eq!(got, expected);

    let mut engine = AnimationEngine::new(10, 0, 1);
    engine.buffer = EditorBuffer::from_content("a\nold\nc");
    let mut plain = PlainText;
    for s in &steps {
        engine.execute_step(s, 1000, 0, &mut plain);
    }
    assert_eq!(engine.buffer.lines, vec!["a", "new1", "new2", "c"]);
    assert_eq!(engine.line_offset, 1);
}

#[test]
fn final_offset_is_additions_minus_deletions() {
    let hunks = vec![
        hunk(1, vec![change(LineChangeType::Addition, "x"), change(LineChangeType::Context, "c")]),
        hunk(
            10,
            vec![
                change(LineChangeType::Deletion, "d1"),
                change(LineChangeType::Deletion, "d2"),
                change(LineChangeType::Deletion, "d3"),
                change(LineChangeType::Addition, "y"),
            ],
        ),
    ];
    let mut steps = Vec::new();
    let offset = push_file_steps(&mut steps, &hunks, 10);
    assert_eq!(offset, 2 - 3);
    let inserted = steps.iter().filter(|s| matches!(s, AnimationStep::InsertLine { .. })).count() as i64;
    let deleted = steps.iter().filter(|s| matches!(s, AnimationStep::DeleteLine { .. })).count() as i64;
    assert_eq!(inserted - deleted, -1);
    assert_eq!(count_changes(&hunks[1].lines), (1, 3));
}

#[test]
fn later_hunk_target_moves_by_earlier_changes() {
    let hunks = vec![
        hunk(1, vec![change(LineChangeType::Addition, "a"), change(LineChangeType::Addition, "b")]),
        hunk(5, vec![change(LineChangeType::Deletion, "z")]),
    ];
    let mut steps = Vec::new();
    push_file_steps(&mut steps, &hunks, 10);
    let deletes: Vec<usize> = steps
        .iter()
        .filter_map(|s| match s {
            AnimationStep::DeleteLine { line } => Some(*line),
            _ => None,
        })
        .collect();
    assert_eq!(deletes, vec![6]);
}

#[test]
fn context_lines_move_the_cursor() {
    let h = hunk(
        1,
        vec![
            change(LineChangeType::Addition, "a"),
            change(LineChangeType::Context, "k"),
            change(LineChangeType::Context, "l"),
        ],
    );
    let mut steps = Vec::new();
    let (cursor, buffer_line) = push_hunk_steps(&mut steps, &h, 0, 0, 100);
    assert_eq!((cursor, buffer_line), (2, 3));
    let moves: Vec<usize> = steps
        .iter()
        .filter_map(|s| match s {
            AnimationStep::MoveCursor { line, .. } => Some(*line),
            _ => None,
        })
        .collect();
    assert_eq!(moves, vec![1, 2]);
}

#[test]
fn pauses_scale_with_speed() {
    assert_eq!(scale_ms(100, 670), 670);
    assert_eq!(scale_ms(30, 1665), 499);
    assert_eq!(scale_ms(u64::MAX, 1000), u64::MAX);
    let h = hunk(1, vec![change(LineChangeType::Deletion, "x")]);
    let mut steps = Vec::new();
    push_hunk_steps(&mut steps, &h, 0, 0, 30);
    assert!(matches!(steps[1], AnimationStep::Pause { duration_ms: 300 }));
}

#[test]
fn limits_refuse_huge_line_numbers() {
    assert!(fits_limits(&vec![hunk(3, vec![])]));
    assert!(!fits_limits(&vec![hunk(usize::MAX, vec![])]));
}
