use std::path::PathBuf;

use punc::app::{App, Mode, QuitAction};
use punc::editor::Buffer;
use punc::keys::{
    handle_diff_key, handle_edit_key, handle_key, handle_outline_key, handle_preview_key,
    paste_clipboard, Key, KeyCode, KeyEffect,
};
use ropey::Rope;

fn app_with(text: &str) -> App {
    App::new(Buffer::new(Rope::from_str(text), PathBuf::from("/tmp/k.md"), "k.md".to_string()))
}

fn key(code: KeyCode) -> Key {
    Key { code, alt: false }
}

fn alt(c: char) -> Key {
    Key { code: KeyCode::Char(c), alt: true }
}

#[test]
fn alt_q_asks_to_quit_when_dirty() {
    let mut app = app_with("a");
    handle_key(&mut app, key(KeyCode::Char('x')), None);
    assert_eq!(app.buffer.rope.to_string(), "xa");
    handle_key(&mut app, alt('q'), None);
    assert_eq!(app.mode, Mode::QuitConfirm);
    handle_key(&mut app, key(KeyCode::Right), None);
    assert_eq!(app.quit_selected, QuitAction::Discard);
    handle_key(&mut app, key(KeyCode::BackTab), None);
    assert_eq!(app.quit_selected, QuitAction::Save);
    assert_eq!(handle_key(&mut app, key(KeyCode::Char('S')), None), KeyEffect::SaveAndQuit);
    handle_key(&mut app, key(KeyCode::Char('d')), None);
    assert!(app.should_quit);
}

#[test]
fn alt_q_quits_at_once_when_clean() {
    let mut app = app_with("a");
    handle_key(&mut app, alt('q'), None);
    assert!(app.should_quit);
}

#[test]
fn alt_chars_other_than_commands_are_typed() {
    let mut app = app_with("");
    handle_edit_key(&mut app, alt('x'), None);
    assert_eq!(app.buffer.rope.to_string(), "x");
}

#[test]
fn enter_backspace_delete_edit_text() {
    let mut app = app_with("ab");
    app.buffer.cursor.col = 1;
    handle_edit_key(&mut app, key(KeyCode::Enter), None);
    assert_eq!(app.buffer.rope.to_string(), "a\nb");
    assert_eq!((app.buffer.cursor.line, app.buffer.cursor.col), (1, 0));
    handle_edit_key(&mut app, key(KeyCode::Delete), None);
    assert_eq!(app.buffer.rope.to_string(), "a\n");
    handle_edit_key(&mut app, key(KeyCode::Backspace), None);
    assert_eq!(app.buffer.rope.to_string(), "a");
}

#[test]
fn page_keys_use_terminal_height() {
    let text: String = (0..50).map(|i| format!("{i}\n")).collect();
    let mut app = app_with(&text);
    handle_edit_key(&mut app, key(KeyCode::PageDown), Some((80, 12)));
    assert_eq!(app.buffer.cursor.line, 8);
    handle_edit_key(&mut app, key(KeyCode::PageDown), None);
    assert_eq!(app.buffer.cursor.line, 8);
    handle_edit_key(&mut app, key(KeyCode::PageUp), Some((80, 12)));
    assert_eq!(app.buffer.cursor.line, 0);
}

#[test]
fn view_follows_cursor_down() {
    let text: String = (0..50).map(|i| format!("{i}\n")).collect();
    let mut app = app_with(&text);
    for _ in 0..20 {
        handle_edit_key(&mut app, key(KeyCode::Down), Some((80, 12)));
    }
    assert_eq!(app.buffer.cursor.line, 20);
    assert_eq!(app.buffer.scroll_offset, 11);
}

#[test]
fn preview_and_outline_modes() {
    let mut app = app_with("# A\n\n## B\n");
    handle_key(&mut app, alt('p'), None);
    assert_eq!(app.mode, Mode::Preview);
    handle_preview_key(&mut app, key(KeyCode::PageDown));
    assert_eq!(app.preview_scroll, 20);
    handle_preview_key(&mut app, key(KeyCode::Char('k')));
    assert_eq!(app.preview_scroll, 19);
    handle_preview_key(&mut app, alt('p'));
    assert_eq!(app.mode, Mode::Edit);

    handle_key(&mut app, alt('o'), None);
    assert_eq!(app.mode, Mode::Outline);
    assert_eq!(app.outline_entries.len(), 2);
    handle_outline_key(&mut app, key(KeyCode::Down), None);
    handle_outline_key(&mut app, key(KeyCode::Down), None);
    assert_eq!(app.outline_selected, 1);
    handle_outline_key(&mut app, key(KeyCode::Enter), Some((80, 20)));
    assert_eq!(app.mode, Mode::Edit);
    assert_eq!((app.buffer.cursor.line, app.buffer.cursor.col), (2, 0));
    assert_eq!(app.buffer.scroll_offset, 0);
}

#[test]
fn diff_keys_accept_reject_and_scroll() {
    let mut app = app_with("mine\n");
    app.handle_external_change("theirs\n".to_string());
    handle_key(&mut app, alt('d'), None);
    assert_eq!(app.mode, Mode::Diff);
    handle_diff_key(&mut app, key(KeyCode::Char('j')));
    handle_diff_key(&mut app, key(KeyCode::PageDown));
    assert_eq!(app.diff_scroll, 21);
    handle_diff_key(&mut app, key(KeyCode::Up));
    assert_eq!(app.diff_scroll, 20);
    handle_diff_key(&mut app, key(KeyCode::Esc));
    assert_eq!(app.mode, Mode::Edit);
    assert!(app.external_change);
    handle_key(&mut app, alt('d'), None);
    handle_diff_key(&mut app, key(KeyCode::Char('E')));
    assert_eq!(app.buffer.rope.to_string(), "theirs\n");
    assert_eq!(app.message.as_deref(), Some("Changes applied \u{2014} edit to adjust"));
    assert_eq!(app.mode, Mode::Edit);

    app.handle_external_change("again\n".to_string());
    app.open_diff();
    handle_diff_key(&mut app, key(KeyCode::Char('r')));
    assert_eq!(app.buffer.rope.to_string(), "theirs\n");
    assert_eq!(app.message.as_deref(), Some("External changes rejected"));
}

#[test]
fn paste_inserts_clipboard_text() {
    let mut app = app_with("ab");
    app.buffer.cursor.col = 1;
    paste_clipboard(&mut app, Some("XY\nZ"), Some((80, 24)));
    assert_eq!(app.buffer.rope.to_string(), "aXY\nZb");
    assert_eq!((app.buffer.cursor.line, app.buffer.cursor.col), (1, 1));
}

#[test]
fn paste_follows_the_cursor_once_after_the_text_is_in() {
    let text = "0\n1\n2\n3\n4\n5\n6\n7\n8\n9\n";
    let mut app = app_with(text);
    app.buffer.cursor.line = 9;
    app.buffer.scroll_offset = 0;
    // Alt+V hands the paste back without moving the view yet.
    assert_eq!(handle_edit_key(&mut app, alt('v'), Some((80, 7))), KeyEffect::Paste);
    assert_eq!(app.buffer.scroll_offset, 0);
    // The view follows the cursor once the text is in: five rows for the
    // editor, cursor on line 10, so the view starts at line 6.
    paste_clipboard(&mut app, Some("x\n"), Some((80, 7)));
    assert_eq!(app.buffer.cursor.line, 10);
    assert_eq!(app.buffer.scroll_offset, 6);
    // Without clipboard text the view still follows the cursor.
    let mut app = app_with(text);
    app.buffer.cursor.line = 9;
    paste_clipboard(&mut app, None, Some((80, 7)));
    assert_eq!(app.buffer.rope.to_string(), text);
    assert_eq!(app.buffer.scroll_offset, 5);
}
