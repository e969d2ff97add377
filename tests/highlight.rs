use git_logue::highlight::{
    byte_len, char_token_types, line_start_in, line_start_offsets, remap_span, visible_spans, EditState,
    HighlightSpan, TokenType,
};
use git_logue::engine::{AnimationEngine, PlainText};
use git_logue::layout::{calculate_scroll_offset, calculate_wrapped_lines};
use git_logue::step::AnimationStep;

fn span(start: usize, end: usize) -> HighlightSpan {
    HighlightSpan { start, end, token_type: TokenType::Keyword }
}

fn editing(line: usize, insert_byte: usize, typed_bytes: usize, byte_shift: isize) -> EditState {
    EditState { editing_line: Some(line), insert_byte, typed_bytes, byte_shift }
}

#[test]
fn span_before_edit_point_is_unchanged() {
    let e = editing(5, 0, 0, 24);
    let r = remap_span(&span(3, 7), 2, 3, &e);
    assert_eq!((r.start, r.end), (3, 7));
}

#[test]
fn span_after_edit_point_moves_by_edit_bytes() {
    let e = editing(5, 0, 0, 24);
    let r = remap_span(&span(60, 64), 8, 60, &e);
    assert_eq!((r.start, r.end), (84, 88));
    let back = editing(5, 0, 0, -70);
    let r = remap_span(&span(60, 64), 8, 60, &back);
    assert_eq!((r.start, r.end), (0, 0));
}

#[test]
fn span_on_edited_line_moves_only_after_insertion() {
    let e = editing(2, 4, 3, 3);
    let before = remap_span(&span(10, 13), 2, 10, &e);
    assert_eq!((before.start, before.end), (10, 13));
    let after = remap_span(&span(14, 18), 2, 10, &e);
    assert_eq!((after.start, after.end), (17, 21));
    let across = remap_span(&span(12, 16), 2, 10, &e);
    assert_eq!((across.start, across.end), (12, 19));
}

#[test]
fn no_edit_leaves_spans() {
    let e = EditState { editing_line: None, insert_byte: 0, typed_bytes: 9, byte_shift: 9 };
    let r = remap_span(&span(1, 2), 0, 0, &e);
    assert_eq!((r.start, r.end), (1, 2));
}

#[test]
fn offsets_count_bytes() {
    assert_eq!(line_start_offsets(""), vec![0]);
    assert_eq!(line_start_offsets("ab\ncd\n"), vec![0, 3, 6]);
    assert_eq!(line_start_offsets("é\r\nx"), vec![0, 4]);
    assert_eq!(byte_len("é✓"), 5);
    let lines = vec!["ab".to_string(), "é".to_string(), "x".to_string()];
    assert_eq!(line_start_in(&lines, 0), 0);
    assert_eq!(line_start_in(&lines, 2), 6);
}

#[test]
fn spans_filtered_to_line_and_colours_per_char() {
    let spans = vec![span(0, 2), HighlightSpan { start: 3, end: 5, token_type: TokenType::String }, span(9, 12)];
    let e = EditState { editing_line: None, insert_byte: 0, typed_bytes: 0, byte_shift: 0 };
    let on_line = visible_spans(&spans, 1, 3, 4, &e);
    assert_eq!(on_line.len(), 1);
    assert_eq!(on_line[0].token_type, TokenType::String);
    let kinds = char_token_types("abcd", 3, &on_line);
    assert_eq!(kinds, vec![Some(TokenType::String), Some(TokenType::String), None, None]);
    let wide = char_token_types("éa", 3, &on_line);
    assert_eq!(wide, vec![Some(TokenType::String), None]);
}

#[test]
fn file_list_layout() {
    assert_eq!(calculate_scroll_offset(50, 10, 100), 45);
    assert_eq!(calculate_scroll_offset(99, 10, 100), 90);
    assert_eq!(calculate_scroll_offset(3, 10, 5), 0);
    assert_eq!(calculate_scroll_offset(3, 0, 5), 0);
    assert_eq!(calculate_wrapped_lines(5, 10, 12), 1);
    assert_eq!(calculate_wrapped_lines(25, 10, 12), 3);
    assert_eq!(calculate_wrapped_lines(22, 10, 12), 2);
    assert_eq!(calculate_wrapped_lines(25, 0, 12), 1);
    assert_eq!(calculate_wrapped_lines(25, 10, 0), 1);
}

#[test]
fn engine_tracks_the_edit_for_remapping() {
    let mut e = AnimationEngine::new(0, 0, 1);
    let mut plain = PlainText;
    e.execute_step(
        &AnimationStep::SwitchFile {
            file_index: 0,
            old_content: "ab\ncd\n".to_string(),
            new_content: "ab\nx\ncd\n".to_string(),
            path: "f.txt".to_string(),
        },
        1000,
        0,
        &mut plain,
    );
    assert_eq!(e.buffer.old_content_line_offsets, vec![0, 3, 6]);
    assert_eq!(e.buffer.new_content_line_offsets, vec![0, 3, 5, 8]);
    e.execute_step(&AnimationStep::InsertLine { line: 1, content: String::new() }, 1000, 0, &mut plain);
    e.execute_step(&AnimationStep::InsertChar { line: 1, col: 0, ch: 'x' }, 1000, 0, &mut plain);
    assert_eq!(e.buffer.lines, vec!["ab", "x", "cd"]);
    assert_eq!(e.edit.editing_line, Some(1));
    assert_eq!(e.edit.typed_bytes, 1);
    assert_eq!(e.edit.byte_shift, 2);
    let start = line_start_in(&e.buffer.lines, 2);
    assert_eq!(start, 5);
    let moved = remap_span(&span(3, 5), 2, start, &e.edit);
    assert_eq!((moved.start, moved.end), (5, 7));
    let kept = remap_span(&span(0, 2), 0, 0, &e.edit);
    assert_eq!((kept.start, kept.end), (0, 2));
}
