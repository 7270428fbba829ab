use std::path::PathBuf;

use punc::editor::buffer::{display_name_for, loaded_buffer};
use punc::editor::{Buffer, Cursor, Snapshot, UndoStack};
use punc::watch::event_concerns;
use ropey::Rope;

fn buffer(text: &str) -> Buffer {
    Buffer::new(Rope::from_str(text), PathBuf::from("/tmp/b.md"), "b.md".to_string())
}

fn at(line: usize, col: usize) -> Cursor {
    Cursor { line, col }
}

#[test]
fn new_cursor_is_at_origin() {
    let c = Cursor::new();
    assert_eq!((c.line, c.col), (0, 0));
}

#[test]
fn move_home_keeps_line() {
    let mut c = at(3, 7);
    c.move_home();
    assert_eq!((c.line, c.col), (3, 0));
}

#[test]
fn vertical_moves_clamp_the_column() {
    let rope = Rope::from_str("long line\nab\nlonger line\n");
    let mut c = at(0, 8);
    c.move_down(&rope);
    assert_eq!((c.line, c.col), (1, 2));
    c.move_down(&rope);
    assert_eq!((c.line, c.col), (2, 2));
    c.move_down(&rope);
    assert_eq!((c.line, c.col), (3, 0));
    c.move_down(&rope);
    assert_eq!((c.line, c.col), (3, 0));
    c.move_up(&rope);
    c.move_up(&rope);
    c.move_up(&rope);
    c.move_up(&rope);
    assert_eq!((c.line, c.col), (0, 0));
}

#[test]
fn horizontal_moves_cross_lines() {
    let rope = Rope::from_str("ab\ncd");
    let mut c = at(1, 0);
    c.move_left(&rope);
    assert_eq!((c.line, c.col), (0, 2));
    c.move_right(&rope);
    assert_eq!((c.line, c.col), (1, 0));
    c.move_end(&rope);
    assert_eq!((c.line, c.col), (1, 2));
    c.move_right(&rope);
    assert_eq!((c.line, c.col), (1, 2));
    let mut start = at(0, 0);
    start.move_left(&rope);
    assert_eq!((start.line, start.col), (0, 0));
}

#[test]
fn crlf_line_keeps_its_carriage_return_in_length() {
    let rope = Rope::from_str("ab\r\ncd");
    let mut c = at(0, 0);
    c.move_end(&rope);
    assert_eq!(c.col, 3);
    assert_eq!(c.char_index(&rope), 3);
}

#[test]
fn lone_carriage_return_and_unicode_breaks_end_lines() {
    let rope = Rope::from_str("a\rb\u{2028}c\u{0B}d");
    assert_eq!(rope.len_lines(), 4);
    let mut c = at(3, 0);
    c.move_end(&rope);
    assert_eq!(c.col, 1);
    assert_eq!(c.char_index(&rope), 7);
}

#[test]
fn clamp_brings_cursor_onto_the_text() {
    let rope = Rope::from_str("one\ntwo");
    let mut c = at(9, 9);
    c.clamp(&rope);
    assert_eq!((c.line, c.col), (1, 3));
    let mut d = at(0, 9);
    d.clamp_col(&rope);
    assert_eq!((d.line, d.col), (0, 3));
}

#[test]
fn char_index_clamps_line_and_column() {
    let rope = Rope::from_str("ab\ncde\n");
    assert_eq!(at(1, 1).char_index(&rope), 4);
    assert_eq!(at(1, 50).char_index(&rope), 6);
    assert_eq!(at(50, 50).char_index(&rope), 7);
}

#[test]
fn insert_text_moves_cursor_after_it() {
    let mut b = buffer("hello");
    b.cursor.col = 5;
    b.insert_text(" world\nnext");
    assert_eq!(b.rope.to_string(), "hello world\nnext");
    assert_eq!((b.cursor.line, b.cursor.col), (1, 4));
    assert!(b.dirty);
    assert_eq!(b.content_revision(), 1);
}

#[test]
fn empty_insert_changes_nothing() {
    let mut b = buffer("x");
    b.insert_text("");
    assert!(!b.dirty);
    assert_eq!(b.content_revision(), 0);
    assert_eq!(b.rope.to_string(), "x");
}

#[test]
fn backspace_joins_lines_and_stops_at_start() {
    let mut b = buffer("ab\ncd");
    b.cursor = at(1, 0);
    b.backspace();
    assert_eq!(b.rope.to_string(), "abcd");
    assert_eq!((b.cursor.line, b.cursor.col), (0, 2));
    let mut start = buffer("ab");
    start.backspace();
    assert_eq!(start.rope.to_string(), "ab");
    assert!(!start.dirty);
}

#[test]
fn backspace_removes_a_typed_char() {
    let mut b = buffer("line\nmore");
    b.cursor = at(1, 2);
    b.insert_char('Z');
    assert_eq!(b.rope.to_string(), "line\nmoZre");
    b.backspace();
    assert_eq!(b.rope.to_string(), "line\nmore");
}

#[test]
fn delete_removes_char_at_cursor() {
    let mut b = buffer("abc");
    b.cursor = at(0, 1);
    b.delete();
    assert_eq!(b.rope.to_string(), "ac");
    assert_eq!((b.cursor.line, b.cursor.col), (0, 1));
    b.cursor = at(0, 2);
    b.delete();
    assert_eq!(b.rope.to_string(), "ac");
}

#[test]
fn undo_restores_text_and_cursor() {
    let mut b = buffer("abc");
    b.cursor = at(0, 1);
    b.delete();
    b.insert_char('X');
    b.undo();
    assert_eq!(b.rope.to_string(), "ac");
    assert_eq!((b.cursor.line, b.cursor.col), (0, 1));
    b.undo();
    assert_eq!(b.rope.to_string(), "abc");
    assert!(!b.dirty);
    b.undo();
    assert_eq!(b.rope.to_string(), "abc");
    b.redo();
    b.redo();
    assert_eq!(b.rope.to_string(), "aXc");
    b.redo();
    assert_eq!(b.rope.to_string(), "aXc");
}

#[test]
fn a_new_edit_forgets_redo() {
    let mut b = buffer("a");
    b.insert_char('1');
    b.undo();
    b.insert_char('2');
    b.redo();
    assert_eq!(b.rope.to_string(), "2a");
}

#[test]
fn saving_then_editing_then_undoing_is_clean() {
    let mut b = buffer("a");
    b.insert_char('1');
    b.mark_clean();
    assert!(!b.dirty);
    b.insert_char('2');
    assert!(b.dirty);
    b.undo();
    assert!(!b.dirty);
    b.undo();
    assert!(b.dirty);
}

#[test]
fn replace_synced_content_is_clean() {
    let mut b = buffer("a");
    b.insert_char('1');
    b.replace_synced_content(Rope::from_str("disk"));
    assert!(!b.dirty);
    assert_eq!(b.rope.to_string(), "disk");
    assert_eq!(b.content_revision(), 2);
}

#[test]
fn line_text_drops_only_the_final_newline() {
    let b = buffer("one\r\ntwo\n");
    assert_eq!(b.line_text(0), "one\r");
    assert_eq!(b.line_text(1), "two");
    assert_eq!(b.line_text(2), "");
}

#[test]
fn paging_moves_by_height_less_two() {
    let text: String = (0..30).map(|i| format!("line {i}\n")).collect();
    let mut b = buffer(&text);
    b.page_down(12);
    assert_eq!(b.cursor.line, 10);
    assert_eq!(b.scroll_offset, 10);
    b.page_down(100);
    assert_eq!(b.cursor.line, 30);
    assert_eq!(b.scroll_offset, 30);
    b.page_up(12);
    assert_eq!(b.cursor.line, 20);
    assert_eq!(b.scroll_offset, 20);
    b.page_up(1000);
    assert_eq!((b.cursor.line, b.scroll_offset), (0, 0));
}

#[test]
fn visible_lines_start_at_scroll_offset() {
    let mut b = buffer("a\nb\nc\nd");
    b.scroll_offset = 1;
    let lines = b.visible_lines(2);
    assert_eq!(lines, vec![(1, "b".to_string()), (2, "c".to_string())]);
    b.scroll_offset = 3;
    assert_eq!(b.visible_lines(10), vec![(3, "d".to_string())]);
    b.scroll_offset = 9;
    assert!(b.visible_lines(10).is_empty());
}

#[test]
fn adjust_scroll_keeps_cursor_in_view() {
    let mut b = buffer("0\n1\n2\n3\n4\n5\n6\n7\n8\n9");
    b.cursor.line = 7;
    b.adjust_scroll(3);
    assert_eq!(b.scroll_offset, 5);
    b.cursor.line = 2;
    b.adjust_scroll(3);
    assert_eq!(b.scroll_offset, 2);
    b.adjust_scroll(3);
    assert_eq!(b.scroll_offset, 2);
}

#[test]
fn current_section_is_the_nearest_heading_above() {
    let mut b = buffer("intro\n# One\ntext\n## Two  \nmore\n");
    b.cursor.line = 0;
    assert_eq!(b.current_section(), None);
    b.cursor.line = 2;
    assert_eq!(b.current_section(), Some("One".to_string()));
    b.cursor.line = 4;
    assert_eq!(b.current_section(), Some("Two".to_string()));
    b.cursor.line = 100;
    assert_eq!(b.current_section(), Some("Two".to_string()));
}

#[test]
fn heading_at_reads_level_and_title() {
    let b = buffer("  ### Deep\t title \nplain\n#\n");
    assert_eq!(b.heading_at(0), Some((3, "Deep\t title".to_string())));
    assert_eq!(b.heading_at(1), None);
    assert_eq!(b.heading_at(2), Some((1, String::new())));
}

#[test]
fn undo_stack_push_undo_redo() {
    let snap = |s: &str, line: usize| Snapshot {
        content: Rope::from_str(s),
        cursor_line: line,
        cursor_col: 0,
        state_id: line as u64,
    };
    let mut stack = UndoStack::new();
    assert!(stack.undo(snap("now", 9)).is_none());
    stack.push(snap("a", 1));
    stack.push(snap("b", 2));
    let got = stack.undo(snap("c", 3)).unwrap();
    assert_eq!(got.content.to_string(), "b");
    let back = stack.redo(got).unwrap();
    assert_eq!(back.content.to_string(), "c");
    assert!(stack.redo(snap("x", 4)).is_none());
}

#[test]
fn undo_history_keeps_the_latest_thousand() {
    let mut stack = UndoStack::new();
    for i in 0..1005 {
        stack.push(Snapshot {
            content: Rope::from_str(""),
            cursor_line: i,
            cursor_col: 0,
            state_id: 0,
        });
    }
    let mut count = 0;
    let mut last = None;
    while let Some(s) = stack.undo(Snapshot {
        content: Rope::new(),
        cursor_line: 0,
        cursor_col: 0,
        state_id: 0,
    }) {
        count += 1;
        last = Some(s.cursor_line);
    }
    assert_eq!(count, 1000);
    assert_eq!(last, Some(5));
}

#[test]
fn display_name_defaults_to_untitled() {
    assert_eq!(display_name_for(None), "untitled");
    assert_eq!(display_name_for(Some("a.md".to_string())), "a.md");
}

#[test]
fn only_modifying_or_creating_events_on_the_file_concern_it() {
    assert!(event_concerns(true, &vec![false, true]));
    assert!(!event_concerns(true, &vec![false, false]));
    assert!(!event_concerns(true, &vec![]));
    assert!(!event_concerns(false, &vec![true]));
}

#[test]
fn undo_and_redo_histories_stay_within_the_limit() {
    let snap = |i: usize| Snapshot { content: Rope::new(), cursor_line: i, cursor_col: 0, state_id: 0 };
    let mut stack = UndoStack::new();
    for i in 0..1200 {
        stack.push(snap(i));
        assert!(stack.entries_within_limit());
    }
    let mut undone = 0;
    while stack.undo(snap(0)).is_some() {
        undone += 1;
        assert!(stack.entries_within_limit());
    }
    let mut redone = 0;
    while stack.redo(snap(0)).is_some() {
        redone += 1;
    }
    assert_eq!((undone, redone), (1000, 1000));
    stack.push(snap(7));
    assert!(stack.redo(snap(0)).is_none());
}

#[test]
fn backspace_takes_the_char_index_back_by_one() {
    for (line, col) in [(0, 1), (0, 2), (1, 0), (1, 2), (2, 0)] {
        let mut b = buffer("ab\ncd\n");
        b.cursor = at(line, col);
        let idx = b.cursor.char_index(&b.rope);
        b.backspace();
        assert_eq!(b.cursor.char_index(&b.rope), idx - 1);
    }
}

#[test]
fn a_missing_file_loads_as_an_empty_untitled_buffer() {
    let mut b = loaded_buffer(None, PathBuf::from("/tmp"), None);
    assert_eq!(b.rope.to_string(), "");
    assert_eq!(b.display_name, "untitled");
    assert!(!b.dirty);
    assert_eq!(b.content_revision(), 0);
    b.undo();
    assert_eq!(b.content_revision(), 0);
    let b = loaded_buffer(Some(Rope::from_str("hi\n")), PathBuf::from("/tmp/n.md"), Some("n.md".to_string()));
    assert_eq!(b.rope.to_string(), "hi\n");
    assert_eq!(b.display_name, "n.md");
    assert_eq!((b.cursor.line, b.cursor.col, b.scroll_offset), (0, 0, 0));
}
