use lecto::status::{cut, push_decimal, status_bar_text};
use lecto::{Document, Editor, Key, Size};

fn formatted(name: Option<&str>, rows: usize, dirty: bool, cursor_row: usize, width: usize) -> String {
    let mut file_name = "[No Name]".to_string();
    if let Some(name) = name {
        file_name = name.to_string();
        file_name.truncate(20);
    }
    let mark = if dirty { "(modified)" } else { "" };
    let mut status = format!("{} - {} lines{}", file_name, rows, mark);
    let line_indicator = format!("{}/{}", cursor_row.saturating_add(1), rows);
    let len = status.len() + line_indicator.len();
    if width > len {
        status.push_str(&" ".repeat(width - len));
    }
    status = format!("{}{}", status, line_indicator);
    status.truncate(width);
    status
}

fn decimal(n: usize) -> String {
    let mut out = String::new();
    push_decimal(&mut out, n);
    out
}

#[test]
fn status_bar_of_a_named_document() {
    assert_eq!(
        status_bar_text(Some("notes.txt"), 3, false, 0, 40),
        "notes.txt - 3 lines                  1/3"
    );
}

#[test]
fn status_bar_marks_unsaved_changes() {
    assert_eq!(
        status_bar_text(Some("notes.txt"), 3, true, 2, 40),
        "notes.txt - 3 lines(modified)        3/3"
    );
}

#[test]
fn status_bar_of_an_unnamed_document() {
    assert_eq!(status_bar_text(None, 0, false, 0, 30), "[No Name] - 0 lines        1/0");
}

#[test]
fn status_bar_cuts_a_long_name() {
    assert_eq!(
        status_bar_text(Some("abcdefghijklmnopqrstuvwxyz.txt"), 1, false, 0, 36),
        "abcdefghijklmnopqrst - 1 lines   1/1"
    );
}

#[test]
fn status_bar_is_cut_to_the_width() {
    assert_eq!(status_bar_text(Some("notes.txt"), 3, false, 0, 10), "notes.txt ");
    assert_eq!(status_bar_text(Some("notes.txt"), 3, false, 0, 21), "notes.txt - 3 lines1/");
    assert_eq!(status_bar_text(Some("notes.txt"), 3, false, 0, 22), "notes.txt - 3 lines1/3");
    assert_eq!(status_bar_text(Some("notes.txt"), 3, false, 0, 23), "notes.txt - 3 lines 1/3");
    assert_eq!(status_bar_text(Some("notes.txt"), 3, false, 0, 0), "");
}

#[test]
fn status_bar_never_cuts_a_character_in_two() {
    assert_eq!(
        status_bar_text(Some("ééééééééééé"), 1, false, 0, 40),
        "éééééééééé - 1 lines       1/1"
    );
    assert_eq!(
        status_bar_text(Some("aééééééééééé"), 1, false, 0, 40),
        "aééééééééé - 1 lines        1/1"
    );
    assert_eq!(status_bar_text(Some("é"), 1, false, 0, 1), "");
    assert_eq!(status_bar_text(Some("é"), 1, false, 0, 2), "é");
}

#[test]
fn status_bar_counts_the_cursor_row_from_one() {
    assert_eq!(status_bar_text(Some("f"), 1200, false, 998, 24), "f - 1200 lines  999/1200");
    let last = status_bar_text(Some("f"), 0, false, usize::MAX, 80);
    assert!(last.ends_with(&format!(" {}/0", usize::MAX)));
}

#[test]
fn status_bar_agrees_with_plain_formatting() {
    let names = [None, Some(""), Some("a"), Some("notes.txt"), Some("a-name-of-20-bytes!!"), Some("a-name-of-more-than-20-bytes")];
    for name in names {
        for rows in [0usize, 1, 9, 10, 99, 100, 12345] {
            for dirty in [false, true] {
                for cursor_row in [0usize, 8, 9, 98, 4711] {
                    for width in [0usize, 1, 5, 19, 20, 21, 30, 40, 41, 60, 80, 200] {
                        assert_eq!(
                            status_bar_text(name, rows, dirty, cursor_row, width),
                            formatted(name, rows, dirty, cursor_row, width)
                        );
                    }
                }
            }
        }
    }
}

#[test]
fn push_decimal_writes_the_digits() {
    assert_eq!(decimal(0), "0");
    assert_eq!(decimal(7), "7");
    assert_eq!(decimal(10), "10");
    assert_eq!(decimal(1234567890), "1234567890");
    assert_eq!(decimal(usize::MAX), usize::MAX.to_string());
    let mut out = "n=".to_string();
    push_decimal(&mut out, 42);
    assert_eq!(out, "n=42");
}

#[test]
fn push_decimal_agrees_with_the_standard_library() {
    for n in (0..100_000usize).step_by(7) {
        assert_eq!(decimal(n), n.to_string());
    }
}

#[test]
fn cut_keeps_what_fits() {
    assert_eq!(cut("hello", 5), "hello");
    assert_eq!(cut("hello", 9), "hello");
    assert_eq!(cut("hello", 3), "hel");
    assert_eq!(cut("hello", 0), "");
    assert_eq!(cut("", 0), "");
    assert_eq!(cut("", 4), "");
}

#[test]
fn cut_stops_before_a_character_that_does_not_fit() {
    assert_eq!(cut("é", 1), "");
    assert_eq!(cut("aé", 2), "a");
    assert_eq!(cut("aé", 3), "aé");
    assert_eq!(cut("❤❤", 3), "❤");
    assert_eq!(cut("❤❤", 4), "❤");
    assert_eq!(cut("❤❤", 5), "❤");
    assert_eq!(cut("❤❤", 6), "❤❤");
    assert_eq!(cut("\u{1F1F7}x", 3), "");
    assert_eq!(cut("\u{1F1F7}x", 4), "\u{1F1F7}");
}

#[test]
fn the_editor_shows_its_own_state_in_the_status_bar() {
    let mut editor = Editor::new(Document::from_text("notes.txt", "a\nbb\nccc"), Size { width: 40, height: 10 });
    assert_eq!(editor.status_bar(), "notes.txt - 3 lines                  1/3");
    editor.process_key(Key::Down);
    editor.process_key(Key::Char('x'));
    assert_eq!(editor.status_bar(), "notes.txt - 3 lines(modified)        2/3");
    editor.mark_saved();
    assert_eq!(editor.status_bar(), "notes.txt - 3 lines                  2/3");
    editor.reset_document_filename(Some("other.txt".to_string()));
    assert_eq!(editor.status_bar(), "other.txt - 3 lines                  2/3");
    assert_eq!(editor.document().get_file_name(), Some("other.txt"));
    editor.reset_document_filename(None);
    assert_eq!(editor.status_bar(), "[No Name] - 3 lines                  2/3");
    assert_eq!(editor.document().get_file_name(), None);
}
