use std::path::PathBuf;

use punc::app::{App, HeadingEntry, PreviewRow, PreviewRowKind};
use punc::editor::Buffer;
use punc::highlight::{highlight_line, SpanStyle};
use punc::markdown::{
    heading_level, is_blank, is_blockquote, is_code_fence, is_horizontal_rule, is_list_item,
    parse_heading, trimmed_chars,
};
use ropey::Rope;

fn chars(s: &str) -> Vec<char> {
    s.chars().collect()
}

fn app_with(text: &str) -> App {
    App::new(Buffer::new(Rope::from_str(text), PathBuf::from("/tmp/m.md"), "m.md".to_string()))
}

fn spans(line: &str) -> Vec<(SpanStyle, String)> {
    highlight_line(line).into_iter().map(|s| (s.style, s.text)).collect()
}

#[test]
fn trimmed_chars_drop_leading_blanks_and_newlines() {
    assert_eq!(trimmed_chars(&chars(" \t\n a b\n")), chars("a b"));
}

#[test]
fn line_classes() {
    assert!(is_blank(&chars("  \t\n")));
    assert!(!is_blank(&chars(" x")));
    assert!(is_code_fence(&chars("  ```rust\n")));
    assert!(is_code_fence(&chars("~~~")));
    assert!(!is_code_fence(&chars("``")));
    assert_eq!(heading_level(&chars(" ## x")), Some(2));
    assert_eq!(heading_level(&chars("x #")), None);
    assert!(is_blockquote(&chars("  > q")));
    assert!(is_list_item(&chars("- item")));
    assert!(is_list_item(&chars("\t+ item")));
    assert!(!is_list_item(&chars("-item")));
    assert!(is_horizontal_rule(&chars("***\n")));
    assert!(!is_horizontal_rule(&chars("-*-")));
    assert!(!is_horizontal_rule(&chars("----")));
}

#[test]
fn parse_heading_trims_title_and_drops_newlines() {
    assert_eq!(parse_heading(&chars("## Title \n")), Some((2, "Title".to_string())));
    assert_eq!(parse_heading(&chars("\t#\tA\u{3000}")), Some((1, "A".to_string())));
    assert_eq!(parse_heading(&chars("text")), None);
    assert_eq!(parse_heading(&chars("  ## Title  \n")), Some((2, "Title".to_string())));
    assert_eq!(parse_heading(&chars("#tag")), Some((1, "tag".to_string())));
    assert_eq!(parse_heading(&chars("### \u{2003}x y \n")), Some((3, "x y".to_string())));
    assert_eq!(parse_heading(&chars("x # not")), None);
}

#[test]
fn highlight_heading_fence_quote_rule() {
    assert_eq!(spans("## Two"), vec![(SpanStyle::Heading(2), "## Two".to_string())]);
    assert_eq!(spans("  ```"), vec![(SpanStyle::Fence, "  ```".to_string())]);
    assert_eq!(spans("> q"), vec![(SpanStyle::Blockquote, "> q".to_string())]);
    assert_eq!(spans("___"), vec![(SpanStyle::Rule, "___".to_string())]);
}

#[test]
fn highlight_lists() {
    assert_eq!(
        spans("  - item"),
        vec![
            (SpanStyle::Raw, "  ".to_string()),
            (SpanStyle::Bullet, "- ".to_string()),
            (SpanStyle::Raw, "item".to_string()),
        ]
    );
    assert_eq!(
        spans("12. twelve"),
        vec![
            (SpanStyle::Raw, String::new()),
            (SpanStyle::Number, "12. ".to_string()),
            (SpanStyle::Raw, "twelve".to_string()),
        ]
    );
    assert_eq!(
        spans("a. b"),
        vec![(SpanStyle::Raw, "a. b".to_string())]
    );
}

#[test]
fn highlight_inline_bold_and_code() {
    assert_eq!(
        spans("a **b** `c` __d__ e"),
        vec![
            (SpanStyle::Raw, "a ".to_string()),
            (SpanStyle::Bold, "**b**".to_string()),
            (SpanStyle::Raw, " ".to_string()),
            (SpanStyle::Code, "`c`".to_string()),
            (SpanStyle::Raw, " ".to_string()),
            (SpanStyle::Bold, "__d__".to_string()),
            (SpanStyle::Raw, " e".to_string()),
        ]
    );
    assert_eq!(spans("**open"), vec![(SpanStyle::Raw, "**open".to_string())]);
    assert_eq!(spans(""), vec![(SpanStyle::Raw, String::new())]);
}

#[test]
fn highlight_keeps_every_char() {
    for line in ["", "# h", " - x", "1. y", "a **b** `c", "---", "日本 **語**"] {
        let joined: String = highlight_line(line).into_iter().map(|s| s.text).collect();
        assert_eq!(joined, line);
    }
}

#[test]
fn outline_lists_headings_in_order() {
    let mut app = app_with("# A\ntext\n  ## B\n```\n# not code-aware\n```\n");
    app.outline_selected = 3;
    app.build_outline();
    let got: Vec<(usize, String, usize)> = app
        .outline_entries
        .iter()
        .map(|e: &HeadingEntry| (e.level, e.text.clone(), e.line))
        .collect();
    assert_eq!(
        got,
        vec![
            (1, "A".to_string(), 0),
            (2, "B".to_string(), 2),
            (1, "not code-aware".to_string(), 4),
        ]
    );
    assert_eq!(app.outline_selected, 0);
}

fn row(source_line: Option<usize>, kind: PreviewRowKind) -> PreviewRow {
    PreviewRow { source_line, kind }
}

#[test]
fn preview_rows_follow_the_markdown() {
    let mut app = app_with("# T\n> q\n- l\n```\ncode\n```\n### S\n***\n\nplain");
    let n = app.preview_row_count();
    let rows = app.preview_visible_rows(0, 100);
    assert_eq!(n, rows.len());
    assert_eq!(
        rows,
        vec![
            row(Some(0), PreviewRowKind::Heading(1)),
            row(None, PreviewRowKind::Blank),
            row(Some(1), PreviewRowKind::Blockquote),
            row(Some(2), PreviewRowKind::List),
            row(None, PreviewRowKind::FenceStart),
            row(Some(4), PreviewRowKind::Code),
            row(None, PreviewRowKind::FenceEnd),
            row(Some(6), PreviewRowKind::Heading(3)),
            row(Some(7), PreviewRowKind::HorizontalRule),
            row(Some(8), PreviewRowKind::Blank),
            row(Some(9), PreviewRowKind::Plain),
        ]
    );
    assert_eq!(app.preview_visible_rows(9, 5), rows[9..].to_vec());
    assert_eq!(app.preview_visible_rows(99, 5), rows[10..].to_vec());
}

#[test]
fn preview_follows_edits() {
    let mut app = app_with("plain");
    assert_eq!(app.preview_row_count(), 1);
    app.buffer.insert_text("# ");
    assert_eq!(
        app.preview_visible_rows(0, 5),
        vec![row(Some(0), PreviewRowKind::Heading(1)), row(None, PreviewRowKind::Blank)]
    );
}

#[test]
fn preview_rows_show_every_non_fence_line_in_order() {
    let text = "# A\ntext\n```\ncode\n```\n### C\n~~~\nx\n";
    let mut app = app_with(text);
    let n = app.preview_row_count();
    let rows = app.preview_visible_rows(0, n);
    let shown: Vec<usize> = rows.iter().filter_map(|r| r.source_line).collect();
    assert_eq!(shown, vec![0, 1, 3, 5, 7, 8]);
    let fences: Vec<PreviewRowKind> = rows
        .iter()
        .map(|r| r.kind)
        .filter(|k| matches!(k, PreviewRowKind::FenceStart | PreviewRowKind::FenceEnd))
        .collect();
    assert_eq!(fences, vec![PreviewRowKind::FenceStart, PreviewRowKind::FenceEnd, PreviewRowKind::FenceStart]);
    assert_eq!(rows[1], row(None, PreviewRowKind::Blank));
    assert_eq!(rows[4], row(Some(3), PreviewRowKind::Code));
    assert_eq!(rows[8], row(Some(7), PreviewRowKind::Code));
    assert_eq!(rows[9], row(Some(8), PreviewRowKind::Code));
}
