//! What each key does in each mode.  Work that needs the outside world
//! (saving, reading the clipboard) is handed back as a `KeyEffect`.

use vstd::prelude::*;

use crate::app::{next_quit_action, prev_quit_action, App, Mode, QuitAction};
use crate::editor::buffer::Buffer;
use crate::editor::cursor::{clamped_col, moved_down, moved_left, moved_right, moved_up};
use crate::lines::line_len;
use crate::strings::to_owned_string;

verus! {

#[derive(Debug, Clone, Copy, PartialEq, Eq, Structural)]
pub enum KeyCode {
    Char(char),
    Enter,
    Backspace,
    Delete,
    Tab,
    BackTab,
    Esc,
    Up,
    Down,
    Left,
    Right,
    Home,
    End,
    PageUp,
    PageDown,
    Other,
}

/// A key press: the key, and whether Alt was the only modifier held.
#[derive(Debug, Clone, Copy, PartialEq, Eq, Structural)]
pub struct Key {
    pub code: KeyCode,
    pub alt: bool,
}

/// Outside work that a key asks for.
#[derive(Debug, Clone, Copy, PartialEq, Eq, Structural)]
pub enum KeyEffect {
    Nothing,
    Save,
    SaveAndQuit,
    Paste,
}

/// The terminal's size in columns and rows, when it could be read.
pub type TerminalSize = Option<(u16, u16)>;

/// The editor area's height: the terminal's rows less the status and hint bars.
pub open spec fn editor_height(rows: u16) -> nat {
    if rows >= 2 {
        (rows - 2) as nat
    } else {
        0
    }
}

pub open spec fn alt_char(key: Key, c: char) -> bool {
    key.alt && key.code == KeyCode::Char(c)
}

/// Only the buffer changed, as `rel` says.
pub open spec fn buffer_changed(a0: App, a1: App) -> bool {
    a1 == (App { buffer: a1.buffer, ..a0 })
}

/// Only the cursor changed.
pub open spec fn cursor_changed(a0: App, a1: App) -> bool {
    &&& buffer_changed(a0, a1)
    &&& a1.buffer == (Buffer { cursor: a1.buffer.cursor, ..a0.buffer })
}

/// What a key does in edit mode before the view follows the cursor.
pub open spec fn edit_action(a0: App, key: Key, size: TerminalSize, a1: App, effect: KeyEffect) -> bool {
    let s = a0.text();
    let c0 = a0.buffer.cursor;
    let c1 = a1.buffer.cursor;
    if alt_char(key, 's') {
        effect == KeyEffect::Save && a1 == a0
    } else if alt_char(key, 'v') {
        effect == KeyEffect::Paste && a1 == a0
    } else {
        &&& effect == KeyEffect::Nothing
        &&& if alt_char(key, 'p') {
            a1 == (App { preview_scroll: 0, mode: Mode::Preview, ..a0 })
        } else if alt_char(key, 'z') {
            buffer_changed(a0, a1) && Buffer::undone(a0.buffer, a1.buffer)
        } else if alt_char(key, 'y') {
            buffer_changed(a0, a1) && Buffer::redone(a0.buffer, a1.buffer)
        } else if key.code == KeyCode::Up {
            cursor_changed(a0, a1) && moved_up(s, c0, c1)
        } else if key.code == KeyCode::Down {
            cursor_changed(a0, a1) && moved_down(s, c0, c1)
        } else if key.code == KeyCode::Left {
            cursor_changed(a0, a1) && moved_left(s, c0, c1)
        } else if key.code == KeyCode::Right {
            cursor_changed(a0, a1) && moved_right(s, c0, c1)
        } else if key.code == KeyCode::Home {
            cursor_changed(a0, a1) && c1.line == c0.line && c1.col == 0
        } else if key.code == KeyCode::End {
            cursor_changed(a0, a1) && c1.line == c0.line && c1.col == line_len(s, c0.line as nat)
        } else if key.code == KeyCode::PageUp {
            match size {
                Some((_, rows)) => buffer_changed(a0, a1) && Buffer::paged_up(
                    a0.buffer,
                    editor_height(rows),
                    a1.buffer,
                ),
                None => a1 == a0,
            }
        } else if key.code == KeyCode::PageDown {
            match size {
                Some((_, rows)) => buffer_changed(a0, a1) && Buffer::paged_down(
                    a0.buffer,
                    editor_height(rows),
                    a1.buffer,
                ),
                None => a1 == a0,
            }
        } else if alt_char(key, 'o') {
            exists|a: App| App::outline_built(a0, a) && a1 == (App { mode: Mode::Outline, ..a })
        } else if alt_char(key, 'd') {
            if a0.external_change {
                App::diff_opened(a0, a1)
            } else {
                &&& a1 == (App { message: a1.message, ..a0 })
                &&& a1.message matches Some(m) && m@ == "No external changes"@
            }
        } else if key.code == KeyCode::Esc {
            a1 == a0
        } else {
            match key.code {
                KeyCode::Char(c) => buffer_changed(a0, a1) && Buffer::inserted(a0.buffer, seq![c], a1.buffer),
                KeyCode::Enter => buffer_changed(a0, a1) && Buffer::inserted(a0.buffer, seq!['\n'], a1.buffer),
                KeyCode::Backspace => buffer_changed(a0, a1) && Buffer::backspaced(a0.buffer, a1.buffer),
                KeyCode::Delete => buffer_changed(a0, a1) && Buffer::deleted(a0.buffer, a1.buffer),
                KeyCode::Tab => buffer_changed(a0, a1) && Buffer::inserted(a0.buffer, seq![' ', ' ', ' ', ' '], a1.buffer),
                _ => a1 == a0,
            }
        }
    }
}

/// The view follows the cursor on a terminal of the given size (soft
/// wrapped to its width); without a size, nothing moves.
pub open spec fn view_followed(a0: App, size: TerminalSize, a1: App) -> bool {
    match size {
        Some((cols, rows)) => if editor_height(rows) > 0 || a0.buffer.cursor.line < usize::MAX {
            &&& buffer_changed(a0, a1)
            &&& a1.buffer == (Buffer { scroll_offset: a1.buffer.scroll_offset, ..a0.buffer })
            &&& a1.buffer.scroll_offset == Buffer::wrapped_scroll(a0.buffer, editor_height(rows), cols as nat)
        } else {
            a1 == a0
        },
        None => a1 == a0,
    }
}

fn editor_height_of(rows: u16) -> (h: usize)
    ensures
        h == editor_height(rows),
{
    rows.saturating_sub(2) as usize
}

fn follow_cursor(app: &mut App, size: TerminalSize)
    ensures
        view_followed(*old(app), size, *final(app)),
{
    match size {
        Some((cols, rows)) => {
            let height = editor_height_of(rows);
            if height > 0 || app.buffer.cursor.line < usize::MAX {
                app.buffer.adjust_scroll_wrapped(height, cols as usize);
            }
        },
        None => {},
    }
}

/// What a key does in edit mode: its action, then the view follows the
/// cursor; for a paste the view follows only once the text is in (see
/// `paste_clipboard`).
pub open spec fn edit_key_done(a0: App, key: Key, size: TerminalSize, a1: App, effect: KeyEffect) -> bool {
    exists|mid: App|
        edit_action(a0, key, size, mid, effect) && if effect == KeyEffect::Paste {
            a1 == mid
        } else {
            view_followed(mid, size, a1)
        }
}

/// Handles a key in edit mode, then lets the view follow the cursor (after
/// a paste, once the clipboard text is in).
pub fn handle_edit_key(app: &mut App, key: Key, size: TerminalSize) -> (effect: KeyEffect)
    ensures
        edit_key_done(*old(app), key, size, *final(app), effect),
{
    let effect = apply_edit_key(app, key, size);
    let ghost mid = *app;
    if effect != KeyEffect::Paste {
        follow_cursor(app, size);
    }
    assert(edit_action(*old(app), key, size, mid, effect));
    effect
}

fn apply_edit_key(app: &mut App, key: Key, size: TerminalSize) -> (effect: KeyEffect)
    ensures
        edit_action(*old(app), key, size, *final(app), effect),
{
    let alt = key.alt;
    if alt && key.code == KeyCode::Char('s') {
        return KeyEffect::Save;
    }
    if alt && key.code == KeyCode::Char('v') {
        return KeyEffect::Paste;
    }
    if alt && key.code == KeyCode::Char('p') {
        app.preview_scroll = 0;
        app.mode = Mode::Preview;
    } else if alt && key.code == KeyCode::Char('z') {
        app.buffer.undo();
    } else if alt && key.code == KeyCode::Char('y') {
        app.buffer.redo();
    } else if key.code == KeyCode::Up {
        app.buffer.cursor.move_up(&app.buffer.rope);
    } else if key.code == KeyCode::Down {
        app.buffer.cursor.move_down(&app.buffer.rope);
    } else if key.code == KeyCode::Left {
        app.buffer.cursor.move_left(&app.buffer.rope);
    } else if key.code == KeyCode::Right {
        app.buffer.cursor.move_right(&app.buffer.rope);
    } else if key.code == KeyCode::Home {
        app.buffer.cursor.move_home();
    } else if key.code == KeyCode::End {
        app.buffer.cursor.move_end(&app.buffer.rope);
    } else if key.code == KeyCode::PageUp {
        match size {
            Some((_, rows)) => app.buffer.page_up(editor_height_of(rows)),
            None => {},
        }
    } else if key.code == KeyCode::PageDown {
        match size {
            Some((_, rows)) => app.buffer.page_down(editor_height_of(rows)),
            None => {},
        }
    } else if alt && key.code == KeyCode::Char('o') {
        app.build_outline();
        let ghost built = *app;
        app.mode = Mode::Outline;
        assert(App::outline_built(*old(app), built) && *app == (App { mode: Mode::Outline, ..built }));
    } else if alt && key.code == KeyCode::Char('d') {
        if app.external_change {
            app.open_diff();
        } else {
            app.message = Some(to_owned_string("No external changes"));
        }
    } else if key.code == KeyCode::Esc {
    } else {
        match key.code {
            KeyCode::Char(ch) => app.buffer.insert_char(ch),
            KeyCode::Enter => app.buffer.insert_char('\n'),
            KeyCode::Backspace => app.buffer.backspace(),
            KeyCode::Delete => app.buffer.delete(),
            KeyCode::Tab => {
                proof {
                    reveal_strlit("    ");
                }
                app.buffer.insert_text("    ");
                assert("    "@ =~= seq![' ', ' ', ' ', ' ']);
            },
            _ => {},
        }
    }
    KeyEffect::Nothing
}

/// Pastes the clipboard's text at the cursor (after a `Paste` effect), when
/// it could be read, then lets the view follow the cursor.
pub fn paste_clipboard(app: &mut App, text: Option<&str>, size: TerminalSize)
    ensures
        exists|mid: App|
            match text {
                Some(t) => buffer_changed(*old(app), mid) && Buffer::inserted(old(app).buffer, t@, mid.buffer),
                None => mid == *old(app),
            } && view_followed(mid, size, *final(app)),
{
    match text {
        Some(t) => app.buffer.paste(t),
        None => {},
    }
    let ghost mid = *app;
    follow_cursor(app, size);
    assert(view_followed(mid, size, *app));
}


/// `c` is the char `lower` or the char `upper`.
pub open spec fn either_char(key: Key, lower: char, upper: char) -> bool {
    key.code == KeyCode::Char(lower) || key.code == KeyCode::Char(upper)
}

/// A scroll offset moved back by `n`, stopping at 0.
pub open spec fn back_by(x: usize, n: nat) -> usize {
    if x >= n {
        (x - n) as usize
    } else {
        0
    }
}

/// What a key does in the diff view.
pub open spec fn diff_action(a0: App, key: Key, a1: App) -> bool {
    if either_char(key, 'a', 'A') || either_char(key, 'e', 'E') {
        exists|a: App|
            App::external_accepted(a0, a) && a1 == (App { message: a1.message, ..a }) && (a1.message matches Some(m)
                && m@ == if either_char(key, 'a', 'A') {
                "External changes accepted"@
            } else {
                "Changes applied \u{2014} edit to adjust"@
            })
    } else if either_char(key, 'r', 'R') {
        exists|a: App|
            App::external_rejected(a0, a) && a1 == (App { message: a1.message, ..a }) && (a1.message matches Some(m)
                && m@ == "External changes rejected"@)
    } else if key.code == KeyCode::Esc {
        a1 == (App { mode: Mode::Edit, ..a0 })
    } else if key.code == KeyCode::Up || key.code == KeyCode::Char('k') {
        a1 == (App { diff_scroll: back_by(a0.diff_scroll, 1), ..a0 })
    } else if key.code == KeyCode::Down || key.code == KeyCode::Char('j') {
        a1 == (App { diff_scroll: (a0.diff_scroll + 1) as usize, ..a0 })
    } else if key.code == KeyCode::PageUp {
        a1 == (App { diff_scroll: back_by(a0.diff_scroll, 20), ..a0 })
    } else if key.code == KeyCode::PageDown {
        a1 == (App { diff_scroll: (a0.diff_scroll + 20) as usize, ..a0 })
    } else {
        a1 == a0
    }
}

/// A scroll offset can take the step that `key` asks for: one row down for
/// Down or `j`, twenty for PageDown.
pub open spec fn scroll_step_fits(scroll: usize, key: Key) -> bool {
    &&& (key.code == KeyCode::Down || key.code == KeyCode::Char('j')) ==> scroll < usize::MAX
    &&& key.code == KeyCode::PageDown ==> scroll + 20 <= usize::MAX
}

/// Handles a key in the diff view.
pub fn handle_diff_key(app: &mut App, key: Key)
    requires
        scroll_step_fits(old(app).diff_scroll, key),
    ensures
        diff_action(*old(app), key, *final(app)),
{
    if key.code == KeyCode::Char('a') || key.code == KeyCode::Char('A') {
        app.accept_external();
        let ghost a = *app;
        app.message = Some(to_owned_string("External changes accepted"));
        assert(App::external_accepted(*old(app), a) && *app == (App { message: app.message, ..a }));
    } else if key.code == KeyCode::Char('r') || key.code == KeyCode::Char('R') {
        app.reject_external();
        let ghost a = *app;
        app.message = Some(to_owned_string("External changes rejected"));
        assert(App::external_rejected(*old(app), a) && *app == (App { message: app.message, ..a }));
    } else if key.code == KeyCode::Char('e') || key.code == KeyCode::Char('E') {
        app.accept_external();
        let ghost a = *app;
        app.message = Some(to_owned_string("Changes applied \u{2014} edit to adjust"));
        assert(App::external_accepted(*old(app), a) && *app == (App { message: app.message, ..a }));
    } else if key.code == KeyCode::Esc {
        app.mode = Mode::Edit;
    } else if key.code == KeyCode::Up || key.code == KeyCode::Char('k') {
        app.diff_scroll = app.diff_scroll.saturating_sub(1);
    } else if key.code == KeyCode::Down || key.code == KeyCode::Char('j') {
        app.diff_scroll = app.diff_scroll + 1;
    } else if key.code == KeyCode::PageUp {
        app.diff_scroll = app.diff_scroll.saturating_sub(20);
    } else if key.code == KeyCode::PageDown {
        app.diff_scroll = app.diff_scroll + 20;
    }
}

/// What a key does in the outline.
pub open spec fn outline_action(a0: App, key: Key, size: TerminalSize, a1: App) -> bool {
    if key.code == KeyCode::Esc {
        a1 == (App { mode: Mode::Edit, ..a0 })
    } else if key.code == KeyCode::Up || key.code == KeyCode::Char('k') {
        a1 == (App { outline_selected: back_by(a0.outline_selected, 1), ..a0 })
    } else if key.code == KeyCode::Down || key.code == KeyCode::Char('j') {
        if a0.outline_selected + 1 < a0.outline_entries@.len() {
            a1 == (App { outline_selected: (a0.outline_selected + 1) as usize, ..a0 })
        } else {
            a1 == a0
        }
    } else if key.code == KeyCode::Enter {
        if a0.outline_selected < a0.outline_entries@.len() {
            let line = a0.outline_entries@[a0.outline_selected as int].line;
            &&& a1 == (App { buffer: a1.buffer, mode: Mode::Edit, ..a0 })
            &&& a1.buffer == (Buffer { cursor: a1.buffer.cursor, scroll_offset: a1.buffer.scroll_offset, ..a0.buffer })
            &&& a1.buffer.cursor.line == line
            &&& a1.buffer.cursor.col == clamped_col(a0.text(), line as nat, 0)
            &&& a1.buffer.scroll_offset == match size {
                Some((_, rows)) => {
                    let h = editor_height(rows);
                    if h > 0 || line < usize::MAX {
                        crate::display::scroll_for_line(back_by(line, h / 3) as int, line as int, h as int) as usize
                    } else {
                        back_by(line, h / 3)
                    }
                },
                None => a0.buffer.scroll_offset,
            }
        } else {
            a1 == a0
        }
    } else {
        a1 == a0
    }
}

/// Handles a key in the outline: move the selection, or jump to the
/// selected heading with it a third of the way down the screen.
pub fn handle_outline_key(app: &mut App, key: Key, size: TerminalSize)
    ensures
        outline_action(*old(app), key, size, *final(app)),
{
    if key.code == KeyCode::Esc {
        app.mode = Mode::Edit;
    } else if key.code == KeyCode::Up || key.code == KeyCode::Char('k') {
        if app.outline_selected > 0 {
            app.outline_selected = app.outline_selected - 1;
        }
    } else if key.code == KeyCode::Down || key.code == KeyCode::Char('j') {
        if app.outline_selected < app.outline_entries.len() && app.outline_selected + 1 < app.outline_entries.len() {
            app.outline_selected = app.outline_selected + 1;
        }
    } else if key.code == KeyCode::Enter {
        if app.outline_selected < app.outline_entries.len() {
            let line = app.outline_entries[app.outline_selected].line;
            app.buffer.cursor.line = line;
            app.buffer.cursor.col = 0;
            app.buffer.cursor.clamp_col(&app.buffer.rope);
            match size {
                Some((_, rows)) => {
                    let h = editor_height_of(rows);
                    app.buffer.scroll_offset = line.saturating_sub(h / 3);
                    if h > 0 || app.buffer.cursor.line < usize::MAX {
                        app.buffer.adjust_scroll(h);
                    }
                },
                None => {},
            }
            app.mode = Mode::Edit;
        }
    }
}

/// What a key does in the preview.
pub open spec fn preview_action(a0: App, key: Key, a1: App) -> bool {
    if key.code == KeyCode::Esc || alt_char(key, 'p') {
        a1 == (App { mode: Mode::Edit, ..a0 })
    } else if key.code == KeyCode::Up || key.code == KeyCode::Char('k') {
        a1 == (App { preview_scroll: back_by(a0.preview_scroll, 1), ..a0 })
    } else if key.code == KeyCode::Down || key.code == KeyCode::Char('j') {
        a1 == (App { preview_scroll: (a0.preview_scroll + 1) as usize, ..a0 })
    } else if key.code == KeyCode::PageUp {
        a1 == (App { preview_scroll: back_by(a0.preview_scroll, 20), ..a0 })
    } else if key.code == KeyCode::PageDown {
        a1 == (App { preview_scroll: (a0.preview_scroll + 20) as usize, ..a0 })
    } else {
        a1 == a0
    }
}

/// Handles a key in the preview.
pub fn handle_preview_key(app: &mut App, key: Key)
    requires
        scroll_step_fits(old(app).preview_scroll, key),
    ensures
        preview_action(*old(app), key, *final(app)),
{
    if key.code == KeyCode::Esc || (key.alt && key.code == KeyCode::Char('p')) {
        app.mode = Mode::Edit;
    } else if key.code == KeyCode::Up || key.code == KeyCode::Char('k') {
        app.preview_scroll = app.preview_scroll.saturating_sub(1);
    } else if key.code == KeyCode::Down || key.code == KeyCode::Char('j') {
        app.preview_scroll = app.preview_scroll + 1;
    } else if key.code == KeyCode::PageUp {
        app.preview_scroll = app.preview_scroll.saturating_sub(20);
    } else if key.code == KeyCode::PageDown {
        app.preview_scroll = app.preview_scroll + 20;
    }
}

/// What a key does in the quit confirmation.
pub open spec fn quit_confirm_action(a0: App, key: Key, a1: App, effect: KeyEffect) -> bool {
    let chosen = if key.code == KeyCode::Enter {
        Some(a0.quit_selected)
    } else if either_char(key, 's', 'S') {
        Some(QuitAction::Save)
    } else if either_char(key, 'd', 'D') {
        Some(QuitAction::Discard)
    } else if key.code == KeyCode::Esc || either_char(key, 'c', 'C') {
        Some(QuitAction::Cancel)
    } else {
        None
    };
    match chosen {
        Some(QuitAction::Save) => effect == KeyEffect::SaveAndQuit && a1 == a0,
        Some(QuitAction::Discard) => effect == KeyEffect::Nothing && a1 == (App { should_quit: true, ..a0 }),
        Some(QuitAction::Cancel) => effect == KeyEffect::Nothing && App::quit_cancelled(a0, a1),
        None => {
            &&& effect == KeyEffect::Nothing
            &&& if key.code == KeyCode::Left || key.code == KeyCode::BackTab {
                a1 == (App { quit_selected: prev_quit_action(a0.quit_selected), ..a0 })
            } else if key.code == KeyCode::Right || key.code == KeyCode::Tab {
                a1 == (App { quit_selected: next_quit_action(a0.quit_selected), ..a0 })
            } else {
                a1 == a0
            }
        },
    }
}

/// Handles a key in the quit confirmation; saving is handed back as
/// `SaveAndQuit`.
pub fn handle_quit_confirm_key(app: &mut App, key: Key) -> (effect: KeyEffect)
    ensures
        quit_confirm_action(*old(app), key, *final(app), effect),
{
    if key.code == KeyCode::Char('s') || key.code == KeyCode::Char('S') {
        KeyEffect::SaveAndQuit
    } else if key.code == KeyCode::Char('d') || key.code == KeyCode::Char('D') {
        app.discard_and_quit();
        KeyEffect::Nothing
    } else if key.code == KeyCode::Esc || key.code == KeyCode::Char('c') || key.code == KeyCode::Char('C') {
        app.cancel_quit();
        KeyEffect::Nothing
    } else if key.code == KeyCode::Left {
        app.select_prev_quit_action();
        KeyEffect::Nothing
    } else if key.code == KeyCode::Right || key.code == KeyCode::Tab {
        app.select_next_quit_action();
        KeyEffect::Nothing
    } else if key.code == KeyCode::BackTab {
        app.select_prev_quit_action();
        KeyEffect::Nothing
    } else if key.code == KeyCode::Enter {
        match app.quit_selected {
            QuitAction::Save => KeyEffect::SaveAndQuit,
            QuitAction::Discard => {
                app.discard_and_quit();
                KeyEffect::Nothing
            },
            QuitAction::Cancel => {
                app.cancel_quit();
                KeyEffect::Nothing
            },
        }
    } else {
        KeyEffect::Nothing
    }
}

/// What a key does: Alt+Q asks to quit from anywhere but the quit
/// confirmation; every other key goes to the current mode.
pub open spec fn key_handled(a0: App, key: Key, size: TerminalSize, a1: App, effect: KeyEffect) -> bool {
    if a0.mode != Mode::QuitConfirm && alt_char(key, 'q') {
        effect == KeyEffect::Nothing && App::quit_requested(a0, a1)
    } else {
        match a0.mode {
            Mode::Edit => edit_key_done(a0, key, size, a1, effect),
            Mode::Preview => effect == KeyEffect::Nothing && preview_action(a0, key, a1),
            Mode::Outline => effect == KeyEffect::Nothing && outline_action(a0, key, size, a1),
            Mode::Diff => effect == KeyEffect::Nothing && diff_action(a0, key, a1),
            Mode::QuitConfirm => quit_confirm_action(a0, key, a1, effect),
        }
    }
}

/// Handles a key press.
pub fn handle_key(app: &mut App, key: Key, size: TerminalSize) -> (effect: KeyEffect)
    requires
        old(app).mode == Mode::Diff ==> scroll_step_fits(old(app).diff_scroll, key),
        old(app).mode == Mode::Preview ==> scroll_step_fits(old(app).preview_scroll, key),
    ensures
        key_handled(*old(app), key, size, *final(app), effect),
{
    if app.mode != Mode::QuitConfirm && key.alt && key.code == KeyCode::Char('q') {
        app.request_quit();
        return KeyEffect::Nothing;
    }
    match app.mode {
        Mode::Edit => handle_edit_key(app, key, size),
        Mode::Preview => {
            handle_preview_key(app, key);
            KeyEffect::Nothing
        },
        Mode::Outline => {
            handle_outline_key(app, key, size);
            KeyEffect::Nothing
        },
        Mode::Diff => {
            handle_diff_key(app, key);
            KeyEffect::Nothing
        },
        Mode::QuitConfirm => handle_quit_confirm_key(app, key),
    }
}


/// Tab inserts its four spaces as one edit: one Alt+Z takes them all back,
/// with the cursor where it was, and one Alt+Y puts them all back.
pub proof fn law_tab_is_one_logical_edit(
    a0: App,
    a1: App,
    e1: KeyEffect,
    a2: App,
    e2: KeyEffect,
    a3: App,
    e3: KeyEffect,
)
    requires
        edit_action(a0, Key { code: KeyCode::Tab, alt: false }, None, a1, e1),
        edit_action(a1, Key { code: KeyCode::Char('z'), alt: true }, None, a2, e2),
        edit_action(a2, Key { code: KeyCode::Char('y'), alt: true }, None, a3, e3),
    ensures
        a2.text() == a0.text(),
        a2.buffer.cursor.line == a0.buffer.cursor.line,
        a2.buffer.cursor.col == a0.buffer.cursor.col,
        a3.text() == a1.text(),
        a3.buffer.cursor.line == a1.buffer.cursor.line,
        a3.buffer.cursor.col == a1.buffer.cursor.col,
{
    let spaces = seq![' ', ' ', ' ', ' '];
    crate::editor::buffer::law_undo_reverts_insert(a0.buffer, spaces, a1.buffer, a2.buffer);
    assert(a1.buffer.undo_stack.undo_entries().len() > 0);
    crate::editor::buffer::law_redo_reverts_undo(a1.buffer, a2.buffer, a3.buffer);
}

/// Alt+Q asks to quit from every mode but the quit confirmation itself.
pub proof fn law_alt_q_asks_to_quit(a0: App, size: TerminalSize, a1: App, effect: KeyEffect)
    requires
        a0.mode != Mode::QuitConfirm,
        key_handled(a0, Key { code: KeyCode::Char('q'), alt: true }, size, a1, effect),
    ensures
        App::quit_requested(a0, a1),
        effect == KeyEffect::Nothing,
{
}

/// Enter in the quit confirmation carries out the selected action: saving
/// is handed back, discarding quits, cancelling returns to the mode before.
pub proof fn law_enter_carries_out_selection(a0: App, a1: App, effect: KeyEffect)
    requires
        quit_confirm_action(a0, Key { code: KeyCode::Enter, alt: false }, a1, effect),
    ensures
        a0.quit_selected == QuitAction::Save ==> effect == KeyEffect::SaveAndQuit && a1 == a0,
        a0.quit_selected == QuitAction::Discard ==> a1.should_quit,
        a0.quit_selected == QuitAction::Cancel ==> a1.mode == a0.quit_return_mode && a1.should_quit
            == a0.should_quit,
{
}

/// The review keys of the diff view: A and E take the disk version into
/// the buffer, clean, and go back to editing; R keeps the buffer as it is and
/// drops the disk version; Esc goes back to editing and keeps the decision
/// for later.
pub proof fn law_diff_keys_decide_the_review(a0: App, key: Key, a1: App)
    requires
        a0.external_content is Some,
        diff_action(a0, key, a1),
    ensures
        either_char(key, 'a', 'A') || either_char(key, 'e', 'E') ==> {
            &&& a1.text() == a0.external_content.unwrap()@
            &&& !a1.buffer.dirty
            &&& a1.mode == Mode::Edit
            &&& !a1.external_change
            &&& a1.external_content is None
        },
        either_char(key, 'r', 'R') ==> {
            &&& a1.buffer == a0.buffer
            &&& a1.mode == Mode::Edit
            &&& !a1.external_change
            &&& a1.external_content is None
        },
        key.code == KeyCode::Esc ==> {
            &&& a1.buffer == a0.buffer
            &&& a1.mode == Mode::Edit
            &&& a1.external_change == a0.external_change
            &&& a1.external_content == a0.external_content
        },
{
}

/// In the quit confirmation, Left (like Shift+Tab) selects the previous
/// action, wrapping from Save to Cancel, and Right (like Tab) the next one,
/// wrapping from Cancel to Save; nothing else changes and nothing is handed
/// back.  So Left undoes Right, and Right undoes Left.
pub proof fn law_quit_arrows_move_the_selection(a0: App, alt: bool, a1: App, e1: KeyEffect, a2: App, e2: KeyEffect)
    ensures
        quit_confirm_action(a0, Key { code: KeyCode::Left, alt }, a1, e1) ==> {
            &&& e1 == KeyEffect::Nothing
            &&& a1 == (App { quit_selected: a1.quit_selected, ..a0 })
            &&& a1.quit_selected == match a0.quit_selected {
                QuitAction::Save => QuitAction::Cancel,
                QuitAction::Discard => QuitAction::Save,
                QuitAction::Cancel => QuitAction::Discard,
            }
        },
        quit_confirm_action(a0, Key { code: KeyCode::Right, alt }, a1, e1) ==> {
            &&& e1 == KeyEffect::Nothing
            &&& a1 == (App { quit_selected: a1.quit_selected, ..a0 })
            &&& a1.quit_selected == match a0.quit_selected {
                QuitAction::Save => QuitAction::Discard,
                QuitAction::Discard => QuitAction::Cancel,
                QuitAction::Cancel => QuitAction::Save,
            }
        },
        quit_confirm_action(a0, Key { code: KeyCode::Right, alt }, a1, e1) && quit_confirm_action(
            a1,
            Key { code: KeyCode::Left, alt },
            a2,
            e2,
        ) ==> a2 == a0,
        quit_confirm_action(a0, Key { code: KeyCode::Left, alt }, a1, e1) && quit_confirm_action(
            a1,
            Key { code: KeyCode::Right, alt },
            a2,
            e2,
        ) ==> a2 == a0,
{
}

/// In the outline, Up (or `k`) moves the selection back by exactly one
/// entry, staying on the first; Down (or `j`) moves it on by one, staying
/// on the last; nothing else changes.  Up after a Down that moved comes
/// back to the same entry.
pub proof fn law_outline_selection_steps_by_one(
    a0: App,
    up: Key,
    down: Key,
    size: TerminalSize,
    a1: App,
    a2: App,
)
    requires
        up.code == KeyCode::Up || up.code == KeyCode::Char('k'),
        down.code == KeyCode::Down || down.code == KeyCode::Char('j'),
    ensures
        outline_action(a0, up, size, a1) ==> {
            &&& a1 == (App { outline_selected: a1.outline_selected, ..a0 })
            &&& a1.outline_selected == if a0.outline_selected > 0 {
                a0.outline_selected - 1
            } else {
                0
            }
        },
        outline_action(a0, down, size, a1) ==> {
            &&& a1 == (App { outline_selected: a1.outline_selected, ..a0 })
            &&& a1.outline_selected == if a0.outline_selected + 1 < a0.outline_entries@.len() {
                a0.outline_selected + 1
            } else {
                a0.outline_selected as int
            }
        },
        outline_action(a0, down, size, a1) && a0.outline_selected + 1 < a0.outline_entries@.len()
            && outline_action(a1, up, size, a2) ==> a2 == a0,
{
    assert(a0.outline_entries@.len() == a0.outline_entries.len());
}

} // verus!
