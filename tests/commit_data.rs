use git_logue::session::{next_session_state, SessionAction, SessionState};
use git_logue::tree::{file_tree_rows, TreeRow};
use git_logue::diff::{
    exclusion_for, number_line, split_commit_range, CommitMetadata, DiffHunk, Exclusion, FileChange, FileStatus,
    LineChange, LineChangeType, RangeError, MAX_CHANGE_LINES,
};

fn file(path: &str) -> FileChange {
    FileChange {
        path: path.to_string(),
        old_path: None,
        status: FileStatus::Modified,
        is_binary: false,
        is_excluded: false,
        exclusion_reason: None,
        old_content: None,
        new_content: None,
        hunks: vec![],
        diff: String::new(),
    }
}

#[test]
fn files_sorted_by_directory_then_name() {
    let meta = CommitMetadata {
        hash: "h".to_string(),
        author: "a".to_string(),
        date: 0,
        message: String::new(),
        changes: vec![file("src/z.rs"), file("README.md"), file("src/a.rs"), file("docs/x.md"), file("Cargo.toml")],
    };
    assert_eq!(meta.sorted_file_indices(), vec![4, 1, 3, 2, 0]);
}

#[test]
fn equal_paths_keep_their_order() {
    let meta = CommitMetadata {
        hash: "h".to_string(),
        author: "a".to_string(),
        date: 0,
        message: String::new(),
        changes: vec![file("b"), file("a"), file("b"), file("a")],
    };
    assert_eq!(meta.sorted_file_indices(), vec![1, 3, 0, 2]);
}

#[test]
fn commit_ranges() {
    assert_eq!(split_commit_range("HEAD~5..HEAD"), Ok(("HEAD~5".to_string(), "HEAD".to_string())));
    assert_eq!(split_commit_range("abc123.."), Ok(("abc123".to_string(), String::new())));
    assert_eq!(split_commit_range("a...b"), Err(RangeError::SymmetricDifference));
    assert_eq!(split_commit_range("abc"), Err(RangeError::MissingDots));
    assert_eq!(split_commit_range("a..b..c"), Err(RangeError::TooManyParts));
}

#[test]
fn line_numbers_follow_origin() {
    let (mut old_no, mut new_no) = (10usize, 20usize);
    let a = number_line('+', "x".to_string(), &mut old_no, &mut new_no);
    assert_eq!(a.change_type, LineChangeType::Addition);
    assert_eq!((a.old_line_no, a.new_line_no), (None, Some(20)));
    let d = number_line('-', "y".to_string(), &mut old_no, &mut new_no);
    assert_eq!((d.old_line_no, d.new_line_no), (Some(10), None));
    let c = number_line(' ', "z".to_string(), &mut old_no, &mut new_no);
    assert_eq!(c.change_type, LineChangeType::Context);
    assert_eq!((c.old_line_no, c.new_line_no), (Some(11), Some(21)));
    assert_eq!((old_no, new_no), (12, 22));
}

#[test]
fn exclusion_reasons() {
    let small = vec![DiffHunk {
        old_start: 1,
        old_lines: 1,
        new_start: 1,
        new_lines: 1,
        lines: vec![LineChange { change_type: LineChangeType::Addition, content: "a".to_string(), old_line_no: None, new_line_no: Some(1) }],
    }];
    assert_eq!(exclusion_for("Cargo.lock", &small), Some(Exclusion::Generated));
    assert_eq!(exclusion_for("src/main.rs", &small), None);
    let many: Vec<LineChange> = (0..MAX_CHANGE_LINES + 1)
        .map(|_| LineChange { change_type: LineChangeType::Deletion, content: String::new(), old_line_no: None, new_line_no: None })
        .collect();
    let big = vec![DiffHunk { old_start: 1, old_lines: 0, new_start: 1, new_lines: 0, lines: many }];
    assert_eq!(exclusion_for("src/main.rs", &big), Some(Exclusion::TooManyChanges(MAX_CHANGE_LINES + 1)));
}

#[test]
fn file_list_rows() {
    let mut a = file("src/a.rs");
    a.status = FileStatus::Added;
    a.hunks = vec![DiffHunk {
        old_start: 1,
        old_lines: 0,
        new_start: 1,
        new_lines: 2,
        lines: vec![
            LineChange { change_type: LineChangeType::Addition, content: "x".to_string(), old_line_no: None, new_line_no: Some(1) },
            LineChange { change_type: LineChangeType::Deletion, content: "y".to_string(), old_line_no: Some(1), new_line_no: None },
            LineChange { change_type: LineChangeType::Addition, content: "z".to_string(), old_line_no: None, new_line_no: Some(2) },
        ],
    }];
    let mut b = file("README.md");
    b.status = FileStatus::Renamed;
    let meta = CommitMetadata {
        hash: "h".to_string(),
        author: "a".to_string(),
        date: 0,
        message: String::new(),
        changes: vec![a, file("src/b.rs"), b],
    };
    let order = meta.sorted_file_indices();
    let rows = file_tree_rows(&meta, &order);
    assert_eq!(
        rows,
        vec![
            TreeRow::File { index: 2, name: "README.md".to_string(), marker: '>', additions: 0, deletions: 0 },
            TreeRow::Directory { path: "src".to_string() },
            TreeRow::File { index: 0, name: "a.rs".to_string(), marker: '+', additions: 2, deletions: 1 },
            TreeRow::File { index: 1, name: "b.rs".to_string(), marker: '~', additions: 0, deletions: 0 },
        ]
    );
}

#[test]
fn session_waits_then_asks_for_the_next_commit() {
    let (s, a) = next_session_state(SessionState::Playing, false, false, true, 10, 30);
    assert_eq!((s, a), (SessionState::Playing, SessionAction::Nothing));
    let (s, a) = next_session_state(SessionState::Playing, false, true, true, 10, 30);
    assert_eq!((s, a), (SessionState::WaitingForNext { resume_at: 3010 }, SessionAction::Nothing));
    let (s, a) = next_session_state(s, false, true, true, 3009, 30);
    assert_eq!((s, a), (SessionState::WaitingForNext { resume_at: 3010 }, SessionAction::Nothing));
    let (s, a) = next_session_state(s, false, true, true, 3010, 30);
    assert_eq!((s, a), (SessionState::Playing, SessionAction::LoadNext));
    let (s, _) = next_session_state(SessionState::Playing, false, true, false, 10, 30);
    assert_eq!(s, SessionState::Finished);
    let (s, _) = next_session_state(SessionState::Playing, true, false, true, 10, 30);
    assert_eq!(s, SessionState::Finished);
}
