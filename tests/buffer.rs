use git_logue::buffer::EditorBuffer;

#[test]
fn new_buffer_has_one_empty_line() {
    let b = EditorBuffer::new();
    assert_eq!(b.lines, vec![String::new()]);
    assert_eq!(b.cursor_line, 0);
    assert_eq!(b.cursor_col, 0);
}

#[test]
fn from_content_splits_lines() {
    assert_eq!(EditorBuffer::from_content("").lines, vec![String::new()]);
    assert_eq!(EditorBuffer::from_content("a\nb").lines, vec!["a", "b"]);
    assert_eq!(EditorBuffer::from_content("a\nb\n").lines, vec!["a", "b"]);
    assert_eq!(EditorBuffer::from_content("a\r\nb\r\n").lines, vec!["a", "b"]);
    assert_eq!(EditorBuffer::from_content("\n").lines, vec![""]);
    assert_eq!(EditorBuffer::from_content("x\n\ny").lines, vec!["x", "", "y"]);
    assert_eq!(EditorBuffer::from_content("tail\r").lines, vec!["tail\r"]);
}

#[test]
fn insert_char_counts_characters_not_bytes() {
    let mut b = EditorBuffer::from_content("héllo");
    b.insert_char(0, 2, 'X');
    assert_eq!(b.lines[0], "héXllo");
    b.insert_char(0, 100, '!');
    assert_eq!(b.lines[0], "héXllo!");
    b.insert_char(0, 0, '✓');
    assert_eq!(b.lines[0], "✓héXllo!");
}

#[test]
fn insert_char_pads_missing_lines() {
    let mut b = EditorBuffer::new();
    b.insert_char(3, 0, 'z');
    assert_eq!(b.lines, vec!["", "", "", "z"]);
}

#[test]
fn typing_steps_rebuild_the_line() {
    let mut b = EditorBuffer::from_content("a\nc");
    b.insert_line(1, String::new());
    let text = "añb✓c";
    for (col, ch) in text.chars().enumerate() {
        b.insert_char(1, col, ch);
    }
    assert_eq!(b.lines, vec!["a", text, "c"]);
}

#[test]
fn insert_line_pads_and_shifts() {
    let mut b = EditorBuffer::from_content("a\nb");
    b.insert_line(1, "x".to_string());
    assert_eq!(b.lines, vec!["a", "x", "b"]);
    b.insert_line(5, "y".to_string());
    assert_eq!(b.lines, vec!["a", "x", "b", "", "", "y"]);
}

#[test]
fn delete_line_on_single_line_leaves_one_empty_line() {
    let mut b = EditorBuffer::from_content("only");
    b.delete_line(0);
    assert_eq!(b.lines, vec![String::new()]);
    b.delete_line(0);
    assert_eq!(b.lines, vec![String::new()]);
}

#[test]
fn delete_line_out_of_range_keeps_lines() {
    let mut b = EditorBuffer::from_content("a\nb");
    b.delete_line(7);
    assert_eq!(b.lines, vec!["a", "b"]);
    b.delete_line(0);
    assert_eq!(b.lines, vec!["b"]);
}
