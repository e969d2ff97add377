use git_logue::diff::{CommitMetadata, DiffHunk, FileChange, FileStatus, LineChange, LineChangeType};
use git_logue::engine::{delay_after, ActivePane, AnimationEngine, AnimationState, PlainText};
use git_logue::step::AnimationStep;

fn file(path: &str, status: FileStatus, old: &str, new: &str, hunks: Vec<DiffHunk>) -> FileChange {
    FileChange {
        path: path.to_string(),
        old_path: None,
        status,
        is_binary: false,
        is_excluded: false,
        exclusion_reason: None,
        old_content: Some(old.to_string()),
        new_content: Some(new.to_string()),
        hunks,
        diff: String::new(),
    }
}

fn commit(changes: Vec<FileChange>) -> CommitMetadata {
    CommitMetadata {
        hash: "0123456789abcdef".to_string(),
        author: "Ada".to_string(),
        date: 0,
        message: "Fix the thing\n\nLonger text".to_string(),
        changes,
    }
}

fn one_file_commit() -> CommitMetadata {
    let lines = vec![
        LineChange { change_type: LineChangeType::Deletion, content: "old".to_string(), old_line_no: Some(2), new_line_no: None },
        LineChange { change_type: LineChangeType::Addition, content: "new".to_string(), old_line_no: None, new_line_no: Some(2) },
    ];
    let h = DiffHunk { old_start: 2, old_lines: 1, new_start: 2, new_lines: 1, lines };
    commit(vec![file("src/lib.rs", FileStatus::Modified, "a\nold\nc\n", "a\nnew\nc\n", vec![h])])
}

fn texts(engine_steps: &[AnimationStep]) -> Vec<String> {
    engine_steps
        .iter()
        .filter_map(|s| match s {
            AnimationStep::TerminalOutput { text } => Some(text.clone()),
            _ => None,
        })
        .collect()
}

#[test]
fn new_engine_is_idle() {
    let e = AnimationEngine::new(30, 5, 7);
    assert_eq!(e.state, AnimationState::Idle);
    assert_eq!(e.step_count(), 0);
    assert_eq!(e.active_pane, ActivePane::Terminal);
    assert!(!e.is_finished());
}

#[test]
fn load_commit_builds_the_narrative() {
    let mut e = AnimationEngine::new(30, 0, 7);
    e.load_commit(one_file_commit(), 0);
    assert_eq!(e.state, AnimationState::Playing);
    assert_eq!(e.current_step(), 0);
    let outputs = texts(&e.steps);
    assert_eq!(outputs[2], "🕰️  Arrived at 1970-01-01 00:00:00");
    assert_eq!(outputs[3], "📍 Location: commit 0123456 by Ada");
    assert!(outputs.contains(&"💾 [main 0123456] Fix the thing".to_string()));
    assert!(outputs.contains(&"📝 1 file changed - immortalized forever!".to_string()));
    assert_eq!(outputs.last().unwrap(), "   0123456..0123456 ✨ SUCCESS");
    let reset = e.steps.iter().position(|s| matches!(s, AnimationStep::ResetState)).unwrap();
    let switch = e.steps.iter().position(|s| matches!(s, AnimationStep::SwitchFile { .. })).unwrap();
    assert!(reset < switch);
}

#[test]
fn excluded_and_deleted_files_stay_in_the_terminal() {
    let mut skipped = file("yarn.lock", FileStatus::Modified, "", "", vec![]);
    skipped.is_excluded = true;
    let gone = file("old.txt", FileStatus::Deleted, "x", "", vec![]);
    let mut e = AnimationEngine::new(10, 0, 1);
    e.load_commit(commit(vec![skipped, gone]), 0);
    assert!(!e.steps.iter().any(|s| matches!(s, AnimationStep::SwitchFile { .. })));
    let outputs = texts(&e.steps);
    assert!(outputs.contains(&"📦 yarn.lock (skipped - generated file)".to_string()));
    assert!(outputs.contains(&"📝 2 files changed - immortalized forever!".to_string()));
}

#[test]
fn zero_delay_steps_run_in_one_tick() {
    let mut e = AnimationEngine::new(0, 0, 3);
    e.load_commit(one_file_commit(), 0);
    let n = e.step_count();
    assert!(n > 10);
    let mut plain = PlainText;
    assert!(e.tick(8, &mut plain));
    assert_eq!(e.current_step(), n);
    assert!(e.is_finished());
    assert_eq!(e.buffer.lines, vec!["a", "new", "c"]);
}

#[test]
fn replay_reaches_the_new_content() {
    let mut e = AnimationEngine::new(0, 0, 3);
    let meta = one_file_commit();
    e.load_commit(meta.clone(), 0);
    let mut plain = PlainText;
    let switch = e.steps.iter().position(|s| matches!(s, AnimationStep::SwitchFile { .. })).unwrap();
    let steps = e.steps.clone();
    for s in &steps[..switch + 1] {
        e.execute_step(s, 1000, 0, &mut plain);
    }
    assert_eq!(e.buffer.lines, vec!["a", "old", "c"]);
    assert_eq!(e.current_file_path.as_deref(), Some("src/lib.rs"));
    let git_add = steps[switch..]
        .iter()
        .position(|s| matches!(s, AnimationStep::TerminalPrompt))
        .unwrap()
        + switch;
    for s in &steps[switch + 1..git_add] {
        e.execute_step(s, 1000, 0, &mut plain);
    }
    assert_eq!(e.buffer.lines, vec!["a", "new", "c"]);
}

#[test]
fn pause_holds_playback() {
    let mut e = AnimationEngine::new(100, 0, 3);
    e.load_commit(one_file_commit(), 0);
    let mut plain = PlainText;
    e.execute_step(&AnimationStep::Pause { duration_ms: 500 }, 1000, 1000, &mut plain);
    let before = e.current_step();
    for now in [1001u64, 1200, 1499] {
        assert!(e.tick(now, &mut plain));
        assert_eq!(e.current_step(), before);
    }
}

#[test]
fn frame_gate_blocks_early_ticks() {
    let mut e = AnimationEngine::new(0, 0, 3);
    e.load_commit(one_file_commit(), 0);
    let mut plain = PlainText;
    assert!(!e.tick(3, &mut plain));
    assert_eq!(e.current_step(), 0);
}

#[test]
fn first_step_waits_for_its_delay() {
    let mut e = AnimationEngine::new(100, 0, 3);
    e.load_commit(one_file_commit(), 0);
    let mut plain = PlainText;
    assert!(!e.tick(50, &mut plain));
    assert_eq!(e.current_step(), 0);
    assert!(e.tick(100, &mut plain));
    assert_eq!(e.current_step(), 1);
}

#[test]
fn typing_jitter_stays_in_bounds() {
    let mut e = AnimationEngine::new(100, 0, 42);
    e.load_commit(one_file_commit(), 0);
    let mut plain = PlainText;
    let mut now = 0u64;
    let mut seen = 0;
    while !e.is_finished() && now < 10_000_000 {
        now += 10;
        let before = e.current_step();
        e.tick(now, &mut plain);
        if e.current_step() > before {
            match &e.steps[e.current_step() - 1] {
                AnimationStep::InsertChar { .. } | AnimationStep::TerminalTypeChar { .. } => {
                    let d = e.next_step_delay();
                    assert!((70..=130).contains(&d), "delay {}", d);
                    seen += 1;
                }
                AnimationStep::DialogTypeChar { .. } => {
                    let d = e.next_step_delay();
                    assert!((140..=260).contains(&d), "delay {}", d);
                    seen += 1;
                }
                _ => {}
            }
        }
    }
    assert!(e.is_finished());
    assert!(seen > 0);
}

#[test]
fn delay_formula() {
    let c = AnimationStep::InsertChar { line: 0, col: 0, ch: 'a' };
    let d = AnimationStep::DialogTypeChar { ch: 'a' };
    let p = AnimationStep::Pause { duration_ms: 9 };
    assert_eq!(delay_after(&c, 100, 700, 2), 70);
    assert_eq!(delay_after(&c, 100, 1300, 2), 130);
    assert_eq!(delay_after(&d, 100, 700, 2), 140);
    assert_eq!(delay_after(&d, 100, 1300, 2), 260);
    assert_eq!(delay_after(&p, 100, 1300, 2), 100);
}

#[test]
fn reset_state_applies_pending_metadata() {
    let mut e = AnimationEngine::new(0, 0, 3);
    e.load_commit(one_file_commit(), 0);
    assert!(e.current_metadata().is_none());
    let mut plain = PlainText;
    e.execute_step(&AnimationStep::ResetState, 1000, 0, &mut plain);
    assert_eq!(e.current_metadata().unwrap().author, "Ada");
    assert_eq!(e.current_file_path, None);
    assert_eq!(e.active_pane, ActivePane::Terminal);
}

#[test]
fn terminal_and_dialog_steps() {
    let mut e = AnimationEngine::new(0, 0, 3);
    let mut plain = PlainText;
    e.execute_step(&AnimationStep::TerminalPrompt, 1000, 0, &mut plain);
    e.execute_step(&AnimationStep::TerminalTypeChar { ch: 'l' }, 1000, 0, &mut plain);
    e.execute_step(&AnimationStep::TerminalOutput { text: "out".to_string() }, 1000, 0, &mut plain);
    assert_eq!(e.terminal_lines, vec!["~ l", "out"]);
    e.execute_step(&AnimationStep::OpenFileDialogStart, 1000, 0, &mut plain);
    e.execute_step(&AnimationStep::DialogTypeChar { ch: 'x' }, 1000, 0, &mut plain);
    assert_eq!(e.dialog_title.as_deref(), Some("Open File..."));
    assert_eq!(e.dialog_typing_text, "x");
}

#[test]
fn cursor_blinks_every_half_second() {
    let mut e = AnimationEngine::new(100, 0, 3);
    let mut plain = PlainText;
    assert!(e.cursor_visible);
    e.tick(499, &mut plain);
    assert!(e.cursor_visible);
    e.tick(500, &mut plain);
    assert!(!e.cursor_visible);
    e.tick(1000, &mut plain);
    assert!(e.cursor_visible);
}

#[test]
fn scroll_keeps_cursor_centred() {
    let mut e = AnimationEngine::new(0, 0, 3);
    e.set_viewport_height(10);
    let content: String = (0..100).map(|i| format!("l{}\n", i)).collect();
    let mut plain = PlainText;
    e.execute_step(
        &AnimationStep::SwitchFile { file_index: 0, old_content: content.clone(), new_content: content, path: "f.txt".to_string() },
        1000,
        0,
        &mut plain,
    );
    e.execute_step(&AnimationStep::MoveCursor { line: 50, col: 0 }, 1000, 0, &mut plain);
    assert_eq!(e.buffer.scroll_offset, 45);
    e.execute_step(&AnimationStep::MoveCursor { line: 2, col: 0 }, 1000, 0, &mut plain);
    assert_eq!(e.buffer.scroll_offset, 0);
    e.execute_step(&AnimationStep::MoveCursor { line: 98, col: 0 }, 1000, 0, &mut plain);
    assert_eq!(e.buffer.scroll_offset, 90);
}

#[test]
fn cursor_stays_inside_the_buffer() {
    let mut e = AnimationEngine::new(0, 0, 3);
    let mut plain = PlainText;
    e.execute_step(
        &AnimationStep::SwitchFile { file_index: 0, old_content: "a\nbb".to_string(), new_content: "a".to_string(), path: "f".to_string() },
        1000,
        0,
        &mut plain,
    );
    e.execute_step(&AnimationStep::DeleteLine { line: 1 }, 1000, 0, &mut plain);
    assert_eq!(e.buffer.lines, vec!["a"]);
    assert_eq!((e.buffer.cursor_line, e.buffer.cursor_col), (0, 0));
    e.execute_step(&AnimationStep::MoveCursor { line: 9, col: 7 }, 1000, 0, &mut plain);
    assert_eq!((e.buffer.cursor_line, e.buffer.cursor_col), (0, 1));
}

#[test]
fn oversized_file_is_named_as_such() {
    let h = DiffHunk { old_start: usize::MAX, old_lines: 0, new_start: 0, new_lines: 0, lines: vec![] };
    let big = file("huge.txt", FileStatus::Modified, "", "", vec![h]);
    let mut e = AnimationEngine::new(10, 0, 1);
    e.load_commit(commit(vec![big]), 0);
    assert!(texts(&e.steps).contains(&"📦 huge.txt (skipped - too large to replay)".to_string()));
}

#[test]
fn large_dialog_factor_saturates() {
    let d = AnimationStep::DialogTypeChar { ch: 'a' };
    assert_eq!(delay_after(&d, u64::MAX, 1000, u64::MAX), u64::MAX);
    assert_eq!(delay_after(&d, 100, 1000, 5000), 500_000);
    let mut e = AnimationEngine::new(0, 0, 3);
    e.set_dialog_speed_factor(5000);
    e.set_viewport_height(4);
    assert_eq!(e.state, AnimationState::Idle);
}

#[test]
fn idle_tick_changes_nothing_but_the_blink() {
    let mut e = AnimationEngine::new(100, 0, 3);
    let mut plain = PlainText;
    assert!(!e.tick(100, &mut plain));
    assert_eq!(e.current_step(), 0);
    assert!(e.terminal_lines.is_empty());
    assert_eq!(e.buffer.lines, vec![String::new()]);
}
