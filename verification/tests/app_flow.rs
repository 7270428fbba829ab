use std::path::PathBuf;

use punc::app::{App, Mode, QuitAction};
use punc::diff::{DiffLine, DiffTag};
use punc::editor::Buffer;
use punc::keys::{handle_edit_key, handle_quit_confirm_key, Key, KeyCode, KeyEffect};
use ropey::Rope;

fn app_with(text: &str) -> App {
    App::new(Buffer::new(
        Rope::from_str(text),
        PathBuf::from("/tmp/punc-test.md"),
        "punc-test.md".to_string(),
    ))
}

fn key(code: KeyCode) -> Key {
    Key { code, alt: false }
}

fn alt(c: char) -> Key {
    Key { code: KeyCode::Char(c), alt: true }
}

#[test]
fn accept_external_clamps_cursor_after_shorter_file() {
    let mut app = app_with("# Heading\nline 2\nline 3\nline 4\n");
    app.buffer.cursor.line = 3;
    app.buffer.cursor.col = 99;
    app.handle_external_change("# New heading".to_string());

    app.accept_external();

    assert_eq!(app.buffer.cursor.line, 0);
    assert_eq!(app.buffer.cursor.col, "# New heading".chars().count());
    let status = app.status_line();
    assert!(status.contains("Ln 1"));
    assert!(status.contains("Section: New heading"));
}

#[test]
fn accept_external_leaves_buffer_clean() {
    let mut app = app_with("hello\n");
    app.handle_external_change("hello from outside\n".to_string());

    app.accept_external();

    assert!(!app.buffer.dirty);
    app.request_quit();
    assert!(app.should_quit);
    assert_ne!(app.mode, Mode::QuitConfirm);
}

#[test]
fn external_change_clears_when_disk_matches_buffer_again() {
    let mut app = app_with("hello\n");
    app.handle_external_change("hello from outside\n".to_string());
    app.mode = Mode::Diff;
    app.diff_lines = vec![DiffLine {
        tag: DiffTag::Insert,
        text: "hello from outside".to_string(),
    }];

    app.handle_external_change("hello\n".to_string());

    assert!(!app.external_change);
    assert!(app.external_content.is_none());
    assert!(app.diff_lines.is_empty());
    assert_eq!(app.mode, Mode::Edit);
}

#[test]
fn request_quit_with_dirty_buffer_enters_quit_confirm() {
    let mut app = app_with("hello\n");
    app.buffer.insert_char('!');
    app.mode = Mode::Preview;

    app.request_quit();

    assert_eq!(app.mode, Mode::QuitConfirm);
    assert_eq!(app.quit_return_mode, Mode::Preview);
    assert_eq!(app.quit_selected, QuitAction::Save);
    assert!(!app.should_quit);
}

#[test]
fn save_and_quit_persists_changes() {
    let mut app = app_with("hello\n");
    app.buffer.insert_char('!');

    app.request_quit();
    // What the application writes to the file; the write went through.
    assert_eq!(app.buffer.rope.to_string(), "!hello\n");
    app.finish_save_and_quit(Ok(()));

    assert!(app.should_quit);
    assert!(!app.buffer.dirty);
    assert_eq!(app.message.as_deref(), Some("Saved"));
}

#[test]
fn undo_and_redo_track_saved_state_cleanly() {
    let mut app = app_with("hello\n");
    app.buffer.insert_char('!');
    assert!(app.buffer.dirty);

    app.buffer.undo();
    assert!(!app.buffer.dirty);
    assert_eq!(app.buffer.rope.to_string(), "hello\n");

    app.buffer.redo();
    assert!(app.buffer.dirty);
    assert_eq!(app.buffer.rope.to_string(), "!hello\n");
}

#[test]
fn paste_with_crlf_updates_cursor_using_rope_coordinates() {
    let mut app = app_with("");
    app.buffer.insert_text("a\r\nb");

    assert_eq!(app.buffer.cursor.line, 1);
    assert_eq!(app.buffer.cursor.col, 1);
    assert_eq!(app.buffer.rope.to_string(), "a\r\nb");
}

#[test]
fn quit_confirm_selection_wraps() {
    let mut app = app_with("hello\n");
    app.buffer.insert_char('!');
    app.request_quit();

    app.select_next_quit_action();
    assert_eq!(app.quit_selected, QuitAction::Discard);
    app.select_next_quit_action();
    assert_eq!(app.quit_selected, QuitAction::Cancel);
    app.select_next_quit_action();
    assert_eq!(app.quit_selected, QuitAction::Save);

    app.select_prev_quit_action();
    assert_eq!(app.quit_selected, QuitAction::Cancel);
}

#[test]
fn tab_is_undone_and_redone_as_one_logical_edit() {
    let mut app = app_with("");

    handle_edit_key(&mut app, key(KeyCode::Tab), None);
    assert_eq!(app.buffer.rope.to_string(), "    ");
    assert_eq!(app.buffer.cursor.col, 4);

    handle_edit_key(&mut app, alt('z'), None);
    assert_eq!(app.buffer.rope.to_string(), "");
    assert_eq!(app.buffer.cursor.col, 0);

    handle_edit_key(&mut app, alt('y'), None);
    assert_eq!(app.buffer.rope.to_string(), "    ");
    assert_eq!(app.buffer.cursor.col, 4);
}

#[test]
fn enter_uses_selected_quit_action() {
    let mut app = app_with("hello\n");
    app.buffer.insert_char('!');
    app.request_quit();
    app.quit_selected = QuitAction::Discard;

    let effect = handle_quit_confirm_key(&mut app, key(KeyCode::Enter));

    assert_eq!(effect, KeyEffect::Nothing);
    assert!(app.should_quit);
}

#[test]
fn enter_on_save_hands_back_save_and_quit() {
    let mut app = app_with("hello\n");
    app.buffer.insert_char('!');
    app.request_quit();
    assert_eq!(handle_quit_confirm_key(&mut app, key(KeyCode::Enter)), KeyEffect::SaveAndQuit);
    assert!(!app.should_quit);
}

#[test]
fn escape_in_quit_confirm_returns_to_previous_mode() {
    let mut app = app_with("hello\n");
    app.buffer.insert_char('!');
    app.mode = Mode::Outline;
    app.request_quit();
    handle_quit_confirm_key(&mut app, key(KeyCode::Esc));
    assert_eq!(app.mode, Mode::Outline);
    assert!(!app.should_quit);
}

#[test]
fn failed_save_keeps_the_editor_open() {
    let mut app = app_with("hello\n");
    app.buffer.insert_char('!');
    app.request_quit();
    app.finish_save_and_quit(Err("disk full".to_string()));
    assert!(!app.should_quit);
    assert_eq!(app.message.as_deref(), Some("Save failed: disk full"));
    assert!(app.buffer.dirty);
}

#[test]
fn a_save_that_went_through_leaves_the_buffer_clean() {
    let mut app = app_with("hello\n");
    app.buffer.insert_char('!');
    app.record_save_outcome(Ok(()));
    assert!(!app.buffer.dirty);
    assert_eq!(app.message.as_deref(), Some("Saved"));
    assert!(!app.should_quit);
    app.buffer.undo();
    assert!(app.buffer.dirty);
}

#[test]
fn accepted_external_change_can_be_undone() {
    let mut app = app_with("mine\n");
    app.buffer.cursor.col = 2;
    app.handle_external_change("theirs\n".to_string());
    app.accept_external();
    assert_eq!(app.buffer.rope.to_string(), "theirs\n");
    app.buffer.undo();
    assert_eq!(app.buffer.rope.to_string(), "mine\n");
    assert_eq!(app.buffer.cursor.col, 2);
}

#[test]
fn reject_external_keeps_buffer() {
    let mut app = app_with("mine\n");
    app.handle_external_change("theirs\n".to_string());
    assert!(app.external_change);
    app.open_diff();
    assert_eq!(app.mode, Mode::Diff);
    assert!(!app.diff_lines.is_empty());
    app.reject_external();
    assert_eq!(app.buffer.rope.to_string(), "mine\n");
    assert!(!app.external_change);
    assert_eq!(app.mode, Mode::Edit);
}

#[test]
fn alt_s_and_alt_v_hand_back_effects() {
    let mut app = app_with("x");
    assert_eq!(handle_edit_key(&mut app, alt('s'), None), KeyEffect::Save);
    assert_eq!(handle_edit_key(&mut app, alt('v'), None), KeyEffect::Paste);
    assert_eq!(app.buffer.rope.to_string(), "x");
}

#[test]
fn alt_d_without_external_change_says_so() {
    let mut app = app_with("x");
    handle_edit_key(&mut app, alt('d'), None);
    assert_eq!(app.message.as_deref(), Some("No external changes"));
    assert_eq!(app.mode, Mode::Edit);
}

#[test]
fn status_line_shows_markers() {
    let mut app = app_with("# Title\ntext\n");
    assert_eq!(app.status_line(), "punc-test.md | EDIT | Ln 1 | Section: Title");
    app.buffer.cursor.line = 1;
    app.buffer.insert_char('x');
    app.external_change = true;
    assert_eq!(
        app.status_line(),
        "punc-test.md * \u{26a1} | EDIT | Ln 2 | Section: Title"
    );
    app.buffer.cursor.line = 0;
    app.buffer.insert_char('x');
    app.mode = Mode::Preview;
    assert_eq!(app.status_line(), "punc-test.md * \u{26a1} | PREVIEW | Ln 1 | Section: x Title");
}
