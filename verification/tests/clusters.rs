use lecto::clusters::{
    insert_char, join_range, lone_position, remove_part, render_parts, split_parts,
};
use lecto::document::{joins_next_row, takes_away_at};
use lecto::editor::{column_after, row_after, scroll_axis};
use lecto::{Key, Position};

fn parts(items: &[&str]) -> Vec<String> {
    items.iter().map(|item| item.to_string()).collect()
}

fn at(x: usize, y: usize) -> Position {
    Position { x, y }
}

#[test]
fn join_range_joins_the_pieces_in_order() {
    let pieces = parts(&["a", "e\u{301}", "\t", "z"]);
    assert_eq!(join_range(&pieces, 0, 4), "ae\u{301}\tz");
    assert_eq!(join_range(&pieces, 1, 3), "e\u{301}\t");
    assert_eq!(join_range(&pieces, 2, 2), "");
    assert_eq!(join_range(&parts(&[]), 0, 0), "");
}

#[test]
fn split_parts_cuts_after_the_given_number_of_pieces() {
    let pieces = parts(&["a", "bc", "d"]);
    assert_eq!(split_parts(&pieces, 0), ("".to_string(), "abcd".to_string()));
    assert_eq!(split_parts(&pieces, 1), ("a".to_string(), "bcd".to_string()));
    assert_eq!(split_parts(&pieces, 2), ("abc".to_string(), "d".to_string()));
    assert_eq!(split_parts(&pieces, 3), ("abcd".to_string(), "".to_string()));
    assert_eq!(split_parts(&pieces, 9), ("abcd".to_string(), "".to_string()));
}

#[test]
fn insert_char_goes_between_pieces() {
    let pieces = parts(&["a", "bc", "d"]);
    assert_eq!(insert_char(&pieces, 0, 'x'), "xabcd");
    assert_eq!(insert_char(&pieces, 1, 'x'), "axbcd");
    assert_eq!(insert_char(&pieces, 2, 'x'), "abcxd");
    assert_eq!(insert_char(&pieces, 3, 'x'), "abcdx");
    assert_eq!(insert_char(&pieces, usize::MAX, 'x'), "abcdx");
    assert_eq!(insert_char(&parts(&[]), 0, 'x'), "x");
}

#[test]
fn remove_part_takes_one_piece_out() {
    let pieces = parts(&["a", "bc", "d"]);
    assert_eq!(remove_part(&pieces, 0), "bcd");
    assert_eq!(remove_part(&pieces, 1), "ad");
    assert_eq!(remove_part(&pieces, 2), "abc");
    assert_eq!(remove_part(&pieces, 3), "abcd");
    assert_eq!(remove_part(&pieces, usize::MAX), "abcd");
    assert_eq!(remove_part(&parts(&[]), 0), "");
}

#[test]
fn render_parts_shows_a_range_of_pieces() {
    let pieces = parts(&["a", "\t", "bc", "\t\t", "d"]);
    assert_eq!(render_parts(&pieces, 0, 5), "a  bc\t\td");
    assert_eq!(render_parts(&pieces, 1, 2), "  ");
    assert_eq!(render_parts(&pieces, 2, 4), "bc\t\t");
    assert_eq!(render_parts(&pieces, 4, 99), "d");
    assert_eq!(render_parts(&pieces, 3, 1), "");
    assert_eq!(render_parts(&pieces, 5, 5), "");
    assert_eq!(render_parts(&pieces, 7, 9), "");
}

#[test]
fn joins_next_row_at_the_end_of_a_row_that_is_not_the_last() {
    assert!(joins_next_row(&at(3, 0), 3, 2));
    assert!(joins_next_row(&at(0, 1), 0, 3));
    assert!(!joins_next_row(&at(2, 0), 3, 2));
    assert!(!joins_next_row(&at(4, 0), 3, 2));
    assert!(!joins_next_row(&at(3, 1), 3, 2));
    assert!(!joins_next_row(&at(0, 0), 0, 0));
    assert!(!joins_next_row(&at(0, 0), 0, 1));
    assert!(!joins_next_row(&at(0, usize::MAX), 0, usize::MAX));
}

#[test]
fn row_after_each_key() {
    assert_eq!(row_after(at(1, 0), Key::Up, 5, 3, 4), 0);
    assert_eq!(row_after(at(1, 2), Key::Up, 5, 3, 4), 1);
    assert_eq!(row_after(at(1, 4), Key::Down, 5, 3, 4), 5);
    assert_eq!(row_after(at(1, 5), Key::Down, 5, 3, 4), 5);
    assert_eq!(row_after(at(1, 2), Key::Left, 5, 3, 4), 2);
    assert_eq!(row_after(at(0, 2), Key::Left, 5, 3, 4), 1);
    assert_eq!(row_after(at(0, 0), Key::Left, 5, 3, 4), 0);
    assert_eq!(row_after(at(3, 2), Key::Right, 5, 3, 4), 2);
    assert_eq!(row_after(at(4, 2), Key::Right, 5, 3, 4), 3);
    assert_eq!(row_after(at(4, 4), Key::Right, 5, 3, 4), 4);
    assert_eq!(row_after(at(1, 1), Key::Right, 2, 3, 1), 1);
    assert_eq!(row_after(at(0, 0), Key::Right, 1, 3, 0), 0);
    assert_eq!(row_after(at(0, 0), Key::Right, 0, 3, 0), 0);
    assert_eq!(row_after(at(0, usize::MAX), Key::Right, usize::MAX, 3, 0), usize::MAX);
    assert_eq!(row_after(at(0, 5), Key::Right, 5, 3, 0), 5);
    assert_eq!(row_after(at(0, 4), Key::PageUp, 5, 3, 4), 1);
    assert_eq!(row_after(at(0, 3), Key::PageUp, 5, 3, 4), 0);
    assert_eq!(row_after(at(0, 2), Key::PageUp, 5, 3, 4), 0);
    assert_eq!(row_after(at(0, 1), Key::PageDown, 5, 3, 4), 4);
    assert_eq!(row_after(at(0, 2), Key::PageDown, 5, 3, 4), 5);
    assert_eq!(row_after(at(0, 4), Key::PageDown, 5, 3, 4), 5);
    assert_eq!(row_after(at(0, 1), Key::PageDown, 5, usize::MAX, 4), 5);
    assert_eq!(row_after(at(2, 3), Key::Home, 5, 3, 4), 3);
    assert_eq!(row_after(at(2, 3), Key::End, 5, 3, 4), 3);
    assert_eq!(row_after(at(2, 3), Key::Char('x'), 5, 3, 4), 3);
}

#[test]
fn column_after_each_key() {
    assert_eq!(column_after(at(2, 1), Key::Left, 5, 4, 4), 1);
    assert_eq!(column_after(at(0, 1), Key::Left, 5, 4, 7), 7);
    assert_eq!(column_after(at(0, 0), Key::Left, 5, 4, 4), 0);
    assert_eq!(column_after(at(2, 1), Key::Right, 5, 4, 4), 3);
    assert_eq!(column_after(at(4, 1), Key::Right, 5, 4, 9), 0);
    assert_eq!(column_after(at(4, 5), Key::Right, 5, 4, 4), 4);
    assert_eq!(column_after(at(4, 4), Key::Right, 5, 4, 4), 4);
    assert_eq!(column_after(at(1, 1), Key::Right, 2, 1, 1), 1);
    assert_eq!(column_after(at(0, 0), Key::Right, 1, 0, 0), 0);
    assert_eq!(column_after(at(4, 3), Key::Right, 5, 4, 4), 0);
    assert_eq!(column_after(at(2, 1), Key::Home, 5, 4, 4), 0);
    assert_eq!(column_after(at(2, 1), Key::End, 5, 4, 4), 4);
    assert_eq!(column_after(at(3, 1), Key::Up, 5, 4, 9), 3);
    assert_eq!(column_after(at(3, 1), Key::Down, 5, 4, 2), 2);
    assert_eq!(column_after(at(3, 1), Key::PageDown, 5, 4, 0), 0);
    assert_eq!(column_after(at(9, 1), Key::Esc, 5, 4, 4), 4);
    assert_eq!(column_after(at(usize::MAX, 1), Key::Right, 5, 4, usize::MAX), 0);
}

#[test]
fn scroll_axis_follows_the_cursor() {
    assert_eq!(scroll_axis(0, 0, 8), 0);
    assert_eq!(scroll_axis(0, 7, 8), 0);
    assert_eq!(scroll_axis(0, 8, 8), 1);
    assert_eq!(scroll_axis(1, 9, 8), 2);
    assert_eq!(scroll_axis(1, 100, 8), 93);
    assert_eq!(scroll_axis(5, 4, 8), 4);
    assert_eq!(scroll_axis(5, 0, 8), 0);
    assert_eq!(scroll_axis(5, 5, 1), 5);
    assert_eq!(scroll_axis(5, 6, 1), 6);
    assert_eq!(scroll_axis(usize::MAX - 3, usize::MAX, 8), usize::MAX - 3);
    assert_eq!(scroll_axis(0, usize::MAX, 8), usize::MAX - 7);
}

#[test]
fn scroll_axis_of_a_window_without_cells() {
    assert_eq!(scroll_axis(0, 0, 0), 1);
    assert_eq!(scroll_axis(3, 7, 0), 8);
    assert_eq!(scroll_axis(9, 7, 0), 7);
    assert_eq!(scroll_axis(0, usize::MAX, 0), usize::MAX);
}

#[test]
fn takes_away_at_a_cluster_or_a_line_break() {
    assert!(takes_away_at(&at(0, 0), 3, 1));
    assert!(takes_away_at(&at(2, 0), 3, 1));
    assert!(takes_away_at(&at(3, 0), 3, 2));
    assert!(takes_away_at(&at(0, 0), 0, 2));
    assert!(!takes_away_at(&at(3, 0), 3, 1));
    assert!(!takes_away_at(&at(4, 0), 3, 2));
    assert!(!takes_away_at(&at(0, 0), 0, 1));
    assert!(!takes_away_at(&at(0, 0), 0, 0));
    assert!(!takes_away_at(&at(0, 1), 3, 1));
    assert!(!takes_away_at(&at(0, usize::MAX), 3, usize::MAX));
}

#[test]
fn lone_position_finds_the_piece_of_one_character_at_the_offset() {
    let pieces = parts(&["a", "e\u{301}", "x", "yz"]);
    assert_eq!(lone_position(&pieces, 0), Some(0));
    assert_eq!(lone_position(&pieces, 1), None);
    assert_eq!(lone_position(&pieces, 2), None);
    assert_eq!(lone_position(&pieces, 3), Some(2));
    assert_eq!(lone_position(&pieces, 4), None);
    assert_eq!(lone_position(&pieces, 5), None);
    assert_eq!(lone_position(&pieces, 6), None);
    assert_eq!(lone_position(&pieces, usize::MAX), None);
    assert_eq!(lone_position(&parts(&[]), 0), None);
}

#[test]
fn lone_position_counts_characters_not_bytes() {
    let pieces = parts(&["\u{1F1F7}\u{1F1FA}", "é", "❤"]);
    assert_eq!(lone_position(&pieces, 2), Some(1));
    assert_eq!(lone_position(&pieces, 3), Some(2));
    assert_eq!(lone_position(&pieces, 8), None);
}
