use std::path::PathBuf;

use punc::app::{App, HeadingEntry, Mode, PreviewRow, PreviewRowKind, QuitAction};
use punc::diff::{compute_diff, diff_lines_from_changes, has_changes, DiffLine, DiffTag};
use punc::display::split_line_for_display;
use punc::editor::Buffer;
use punc::view::{
    clamped_offset, outline_style, visible_window, OutlineStyle,
    cursor_screen_position, diff_line_text, edit_fetch_end, effective_mode, mode_hints,
    outline_line_text, preview_row_spans, quit_action_label, row_is_showable, PreviewStyle,
};
use ropey::Rope;

fn buffer(text: &str) -> Buffer {
    Buffer::new(Rope::from_str(text), PathBuf::from("/tmp/d.md"), "d.md".to_string())
}

#[test]
fn wrapping_splits_by_display_width() {
    assert_eq!(split_line_for_display("abcdef", 4), vec!["abcd", "ef"]);
    assert_eq!(split_line_for_display("日本語", 4), vec!["日本", "語"]);
    assert_eq!(split_line_for_display("日本語", 1), vec!["日", "本", "語"]);
    assert_eq!(split_line_for_display("", 4), vec![""]);
    assert_eq!(split_line_for_display("abc", 0), vec!["abc"]);
}

#[test]
fn wrapped_rows_join_back() {
    for (line, width) in [("hello world", 3), ("a日b本c", 2), ("x", 9)] {
        assert_eq!(split_line_for_display(line, width).concat(), line);
    }
}

#[test]
fn visual_rows_and_cursor_column() {
    let mut b = buffer("abcdefgh\n日本語\n");
    assert_eq!(b.visual_rows_for_line(0, 3), 3);
    assert_eq!(b.visual_rows_for_line(1, 3), 3);
    b.cursor.line = 1;
    b.cursor.col = 2;
    assert_eq!(b.cursor_display_col(), 4);
    b.cursor.col = 99;
    assert_eq!(b.cursor_display_col(), 6);
}

#[test]
fn cursor_position_counts_wrapped_rows_above() {
    let mut b = buffer("abcdefgh\nxy\nabcdef");
    b.cursor.line = 2;
    b.cursor.col = 5;
    assert_eq!(cursor_screen_position(&b, 4), (2 + 1 + 1, 1));
    b.scroll_offset = 2;
    assert_eq!(cursor_screen_position(&b, 4), (1, 1));
    assert_eq!(cursor_screen_position(&b, 0), (0, 5));
}

#[test]
fn wrapped_scroll_keeps_cursor_row_on_screen() {
    let mut b = buffer("abcdefgh\nabcdefgh\nabcdefgh\nx");
    b.cursor.line = 3;
    b.adjust_scroll_wrapped(5, 4);
    assert_eq!(b.scroll_offset, 1);
    b.adjust_scroll_wrapped(5, 100);
    assert_eq!(b.scroll_offset, 1);
    b.scroll_offset = 0;
    b.adjust_scroll_wrapped(5, 100);
    assert_eq!(b.scroll_offset, 0);
}

#[test]
fn fetch_end_prepares_several_screens() {
    assert_eq!(edit_fetch_end(1000, 10, 20), 80);
    assert_eq!(edit_fetch_end(1000, 10, 40), 130);
    assert_eq!(edit_fetch_end(50, 10, 40), 50);
}

#[test]
fn quit_confirm_draws_over_previous_mode() {
    let mut app = App::new(buffer("x"));
    app.mode = Mode::QuitConfirm;
    app.quit_return_mode = Mode::Outline;
    assert_eq!(effective_mode(&app), Mode::Outline);
    app.mode = Mode::Diff;
    assert_eq!(effective_mode(&app), Mode::Diff);
}

#[test]
fn labels_and_hints() {
    assert_eq!(quit_action_label(QuitAction::Save, QuitAction::Save), " [S] Save ");
    assert_eq!(quit_action_label(QuitAction::Cancel, QuitAction::Save), "[Esc] Cancel");
    assert!(mode_hints(Mode::Edit).contains("Alt+D Diff"));
    assert_eq!(mode_hints(Mode::Outline), " \u{2191}\u{2193} Navigate | Enter Jump | Esc Back");
}

#[test]
fn outline_and_diff_lines() {
    let entry = HeadingEntry { level: 3, text: "T".to_string(), line: 0 };
    assert_eq!(outline_line_text(&entry, true), ">     T");
    assert_eq!(outline_line_text(&entry, false), "      T");
    let d = DiffLine { tag: DiffTag::Delete, text: "gone".to_string() };
    assert_eq!(diff_line_text(&d), "- gone");
}

#[test]
fn preview_row_pieces() {
    let b = buffer("## Title ##\n>> quoted\n\u{3000}- item\ncode\n");
    let texts = |r: PreviewRow| -> Vec<(PreviewStyle, String)> {
        assert!(row_is_showable(&b, &r));
        preview_row_spans(&b, &r).into_iter().map(|s| (s.style, s.text)).collect()
    };
    assert_eq!(
        texts(PreviewRow { source_line: Some(0), kind: PreviewRowKind::Heading(2) }),
        vec![(PreviewStyle::Heading(2), "\u{2590} Title ##".to_string())]
    );
    assert_eq!(
        texts(PreviewRow { source_line: Some(1), kind: PreviewRowKind::Blockquote }),
        vec![(PreviewStyle::Quote, "  \u{2502} quoted".to_string())]
    );
    assert_eq!(
        texts(PreviewRow { source_line: Some(2), kind: PreviewRowKind::List }),
        vec![
            (PreviewStyle::Plain, "     ".to_string()),
            (PreviewStyle::Bullet, "\u{2022} ".to_string()),
            (PreviewStyle::Plain, "item".to_string()),
        ]
    );
    assert_eq!(
        texts(PreviewRow { source_line: Some(3), kind: PreviewRowKind::Code }),
        vec![(PreviewStyle::Code, "  code".to_string())]
    );
    assert_eq!(
        texts(PreviewRow { source_line: None, kind: PreviewRowKind::HorizontalRule })[0].1,
        "\u{2500}".repeat(40)
    );
    assert!(!row_is_showable(&b, &PreviewRow { source_line: Some(99), kind: PreviewRowKind::Plain }));
    assert!(!row_is_showable(&b, &PreviewRow { source_line: None, kind: PreviewRowKind::Code }));
}

#[test]
fn diff_of_lines() {
    let lines = compute_diff("a\nb\nc\n", "a\nB\nc");
    let got: Vec<(DiffTag, String)> = lines.iter().map(|l| (l.tag, l.text.clone())).collect();
    assert_eq!(
        got,
        vec![
            (DiffTag::Equal, "a".to_string()),
            (DiffTag::Delete, "b".to_string()),
            (DiffTag::Delete, "c".to_string()),
            (DiffTag::Insert, "B".to_string()),
            (DiffTag::Insert, "c".to_string()),
        ]
    );
    assert!(has_changes(&lines));
    assert!(!has_changes(&compute_diff("same\n", "same\n")));
    assert!(!has_changes(&[]));
}

#[test]
fn every_preview_row_of_a_document_can_be_shown() {
    let text = "# Top\n\n  - one\n\t* two\n+ three\r\n> quote\n```\n- not a list\n```\n---\nplain\n";
    let mut app = App::new(buffer(text));
    let n = app.preview_row_count();
    let rows = app.preview_visible_rows(0, n);
    assert_eq!(rows.len(), n);
    assert!(rows.iter().any(|r| r.kind == PreviewRowKind::List));
    for r in &rows {
        assert!(row_is_showable(&app.buffer, r));
        assert!(!preview_row_spans(&app.buffer, r).is_empty());
    }
}

#[test]
fn wrapped_rows_are_filled_greedily() {
    assert_eq!(split_line_for_display("你好世界", 3), vec!["你", "好", "世", "界"]);
    assert_eq!(split_line_for_display("ab你cd", 3), vec!["ab", "你c", "d"]);
    // A char wider than the screen gets a row of its own.
    assert_eq!(split_line_for_display("a你b", 1), vec!["a", "你", "b"]);
    for row in split_line_for_display("lorem ipsum dolor", 5) {
        assert!(!row.is_empty() && row.chars().count() <= 5);
    }
}

#[test]
fn diff_lines_lose_one_final_newline() {
    let changes = vec![
        DiffLine { tag: DiffTag::Equal, text: "a\n".to_string() },
        DiffLine { tag: DiffTag::Delete, text: "b\n\n".to_string() },
        DiffLine { tag: DiffTag::Insert, text: "c".to_string() },
    ];
    let lines = diff_lines_from_changes(&changes);
    let got: Vec<(DiffTag, String)> = lines.into_iter().map(|l| (l.tag, l.text)).collect();
    assert_eq!(
        got,
        vec![
            (DiffTag::Equal, "a".to_string()),
            (DiffTag::Delete, "b\n".to_string()),
            (DiffTag::Insert, "c".to_string()),
        ]
    );
}

#[test]
fn scrolled_windows_and_outline_styles() {
    assert_eq!(clamped_offset(5, 0), 0);
    assert_eq!(clamped_offset(5, 3), 2);
    assert_eq!(clamped_offset(1, 3), 1);
    assert_eq!(visible_window(1, 10, 4), (1, 5));
    assert_eq!(visible_window(8, 10, 4), (8, 10));
    assert_eq!(visible_window(99, 10, 4), (9, 10));
    assert_eq!(visible_window(0, 0, 4), (0, 0));
    assert_eq!(outline_style(1, true), OutlineStyle::Selected);
    assert_eq!(outline_style(1, false), OutlineStyle::Level1);
    assert_eq!(outline_style(3, false), OutlineStyle::Level3);
    assert_eq!(outline_style(6, false), OutlineStyle::Deeper);
}
