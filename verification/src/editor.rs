//! The editing session: a document, the cursor in it, and the corner of the
//! window through which it is seen.

use crate::document::{deletes, with_char, without_char, Document};
use crate::grapheme::grapheme_clusters;
use crate::position::Position;
use crate::row::{rendered, Row};
use crate::status::{status_bar_text, status_text};
use crate::terminal::Size;
use vstd::prelude::*;
use vstd::string::StringExecFns;

verus! {

/// A key press, as the session understands it.
#[derive(Clone, Copy, Debug, PartialEq, Eq, Structural)]
pub enum Key {
    Char(char),
    Ctrl(char),
    Backspace,
    Delete,
    Up,
    Down,
    Left,
    Right,
    PageUp,
    PageDown,
    Home,
    End,
    Esc,
    Other,
}

/// The number of grapheme clusters in line `y`, and 0 where there is no such
/// line.
pub open spec fn row_len(lines: Seq<Seq<char>>, y: int) -> nat {
    if 0 <= y < lines.len() {
        grapheme_clusters(lines[y]).len()
    } else {
        0
    }
}

/// The row that `key` takes a cursor to that stands at `at`, in a document of
/// `rows` rows, in a row of `width` clusters. `page` is the number of rows
/// that the page keys jump.
///
/// The row just past the last one counts as a place to stand: text typed
/// there starts a new line. Up, Down and the page keys stop at the first row
/// and at that row. Left at the start of a row goes up one row. Right at the
/// end of a row goes down one where a row follows; at the end of the last
/// row it stays.
pub open spec fn next_row(at: Position, key: Key, rows: int, page: int, width: int) -> int {
    let x = at.x as int;
    let y = at.y as int;
    match key {
        Key::Up => if y > 0 {
            y - 1
        } else {
            0
        },
        Key::Down => if y < rows {
            y + 1
        } else {
            y
        },
        Key::Left => if x == 0 && y > 0 {
            y - 1
        } else {
            y
        },
        Key::Right => if x >= width && y + 1 < rows {
            y + 1
        } else {
            y
        },
        Key::PageUp => if y > page {
            y - page
        } else {
            0
        },
        Key::PageDown => if y + page < rows {
            y + page
        } else {
            rows
        },
        _ => y,
    }
}

/// The column that `key` takes a cursor to that stands at `at`, in a
/// document of `rows` rows, in a row of `width` clusters, when the row it
/// arrives in has `arrival_width` clusters.
///
/// Left steps back, and from the start of a row to the end of the row
/// above. Right steps on, and from the end of a row to the start of the row
/// below, where there is one. Home and End go to the two ends of the row.
/// Whatever the key, the column is at most the length of the row of arrival.
pub open spec fn next_column(
    at: Position,
    key: Key,
    rows: int,
    width: int,
    arrival_width: int,
) -> int {
    let x = at.x as int;
    let y = at.y as int;
    let target = match key {
        Key::Left => if x > 0 {
            x - 1
        } else if y > 0 {
            arrival_width
        } else {
            x
        },
        Key::Right => if x < width {
            x + 1
        } else if y + 1 < rows {
            0
        } else {
            x
        },
        Key::Home => 0,
        Key::End => width,
        _ => x,
    };
    if target > arrival_width {
        arrival_width
    } else {
        target
    }
}

/// Where `key` takes a cursor standing at `at` in `lines`.
pub open spec fn moved(lines: Seq<Seq<char>>, at: Position, key: Key, page: usize) -> Position {
    let rows = lines.len() as int;
    let width = row_len(lines, at.y as int) as int;
    let y = next_row(at, key, rows, page as int, width);
    let x = next_column(at, key, rows, width, row_len(lines, y) as int);
    Position { x: x as usize, y: y as usize }
}

/// The row that `key` takes a cursor to that stands at `at`, in a document of
/// `rows` rows, in a row of `width` clusters, when the page keys jump `page`
/// rows.
pub fn row_after(at: Position, key: Key, rows: usize, page: usize, width: usize) -> (y: usize)
    ensures
        y == next_row(at, key, rows as int, page as int, width as int),
{
    let Position { x, y } = at;
    match key {
        Key::Up => y.saturating_sub(1),
        Key::Down => if y < rows {
            y.saturating_add(1)
        } else {
            y
        },
        Key::Left => if x == 0 && y > 0 {
            y - 1
        } else {
            y
        },
        Key::Right => if x >= width && rows > 0 && y < rows - 1 {
            y + 1
        } else {
            y
        },
        Key::PageUp => if y > page {
            y - page
        } else {
            0
        },
        Key::PageDown => if y.saturating_add(page) < rows {
            y + page
        } else {
            rows
        },
        _ => y,
    }
}

/// The column that `key` takes a cursor to that stands at `at`, in a
/// document of `rows` rows, in a row of `width` clusters, when the row it
/// arrives in has `arrival_width` clusters.
pub fn column_after(
    at: Position,
    key: Key,
    rows: usize,
    width: usize,
    arrival_width: usize,
) -> (x: usize)
    ensures
        x == next_column(at, key, rows as int, width as int, arrival_width as int),
{
    let Position { mut x, y } = at;
    match key {
        Key::Left => {
            if x > 0 {
                x -= 1;
            } else if y > 0 {
                x = arrival_width;
            }
        },
        Key::Right => {
            if x < width {
                x += 1;
            } else if rows > 0 && y < rows - 1 {
                x = 0;
            }
        },
        Key::Home => {
            x = 0;
        },
        Key::End => {
            x = width;
        },
        _ => {},
    }
    if x > arrival_width {
        x = arrival_width;
    }
    x
}

/// The offset of the window along one axis after it follows the cursor.
///
/// A cursor before the window pulls the window's start onto itself; a cursor
/// at or past the window's end pulls the window's last cell onto itself;
/// a cursor inside leaves the window where it is.
pub open spec fn scrolled(offset: int, at: int, extent: int) -> int {
    if at < offset {
        at
    } else if at >= offset + extent {
        at - extent + 1
    } else {
        offset
    }
}

/// `value`, held at the largest `usize`.
pub open spec fn held(value: int) -> int {
    if value > usize::MAX {
        usize::MAX as int
    } else {
        value
    }
}

/// Wherever the window was and wherever the cursor is, a window of at least
/// one cell that has followed the cursor holds it.
pub proof fn lemma_scrolled_holds_cursor(offset: int, at: int, extent: int)
    requires
        extent > 0,
    ensures
        scrolled(offset, at, extent) <= at < scrolled(offset, at, extent) + extent,
{
}

/// The window offset along one axis after it follows the cursor, held at
/// the largest `usize`.
pub fn scroll_axis(offset: usize, at: usize, extent: usize) -> (next: usize)
    ensures
        next == held(scrolled(offset as int, at as int, extent as int)),
        extent > 0 ==> next <= at < next + extent,
{
    if at < offset {
        at
    } else if at - offset >= extent {
        at.saturating_sub(extent).saturating_add(1)
    } else {
        offset
    }
}

/// What a key press asks of whoever runs the session, beyond what the
/// session did itself.
#[derive(Clone, Copy, Debug, PartialEq, Eq, Structural)]
pub enum Request {
    /// Nothing.
    Nothing,
    /// Write the document out.
    Save,
    /// The document has unsaved changes: ask whether to leave.
    ConfirmExit,
}

/// Whether the cursor has anything before it to step back over.
pub open spec fn can_step_back(at: Position) -> bool {
    at.x > 0 || at.y > 0
}

/// The lines after `key` was pressed with the cursor at `at`.
///
/// A character is typed at the cursor. Backspace deletes at the place one
/// step to the left of the cursor, which at the start of a row is the end of
/// the row above, so that the two rows are joined. Other keys leave the
/// lines as they are.
pub open spec fn lines_after(lines: Seq<Seq<char>>, at: Position, key: Key, page: usize) -> Seq<
    Seq<char>,
> {
    match key {
        Key::Char(c) => with_char(lines, at, c),
        Key::Backspace => if can_step_back(at) {
            without_char(lines, moved(lines, at, Key::Left, page))
        } else {
            lines
        },
        _ => lines,
    }
}

/// The cursor after `key` was pressed with the cursor at `at`.
///
/// Typing moves the cursor one step to the right in the lines as they are
/// after the character went in. Backspace moves it one step to the left.
/// The movement keys move it. Other keys leave it where it is.
pub open spec fn cursor_after(lines: Seq<Seq<char>>, at: Position, key: Key, page: usize) -> Position {
    match key {
        Key::Char(c) => moved(with_char(lines, at, c), at, Key::Right, page),
        Key::Backspace => if can_step_back(at) {
            moved(lines, at, Key::Left, page)
        } else {
            at
        },
        Key::Up | Key::Down | Key::Left | Key::Right | Key::PageUp | Key::PageDown | Key::End
        | Key::Home => moved(lines, at, key, page),
        _ => at,
    }
}

/// Whether `key`, pressed with the cursor at `at`, marks the document as
/// changed.
pub open spec fn marks_changed(lines: Seq<Seq<char>>, at: Position, key: Key, page: usize) -> bool {
    match key {
        Key::Char(_) => at.y <= lines.len(),
        Key::Backspace => can_step_back(at) && deletes(lines, moved(lines, at, Key::Left, page)),
        _ => false,
    }
}

/// What one row of the window shows.
#[derive(Debug, PartialEq, Eq)]
pub enum ScreenRow {
    /// The visible part of a row of the document.
    Text(String),
    /// The welcome text.
    Welcome,
    /// The mark of a row below the end of the document.
    Blank,
}

/// Whether window row `terminal_row` is where the welcome text goes: the
/// middle row of the window, while the text is still due and the document
/// is empty.
pub open spec fn welcome_due(
    terminal_row: u16,
    height: u16,
    welcoming: bool,
    lines: Seq<Seq<char>>,
) -> bool {
    terminal_row == height / 2 && welcoming && lines.len() == 0
}

/// What pressing `key` asks of whoever runs the session, given whether the
/// document has unsaved changes.
pub open spec fn request_for(key: Key, dirty: bool) -> Request {
    if key == Key::Ctrl('s') {
        Request::Save
    } else if key == Key::Ctrl('q') && dirty {
        Request::ConfirmExit
    } else {
        Request::Nothing
    }
}

/// An editing session.
#[derive(Debug)]
pub struct Editor {
    should_quit: bool,
    show_welcome: bool,
    cursor_position: Position,
    offset: Position,
    size: Size,
    document: Document,
}

impl Editor {
    /// The place of the cursor in the document.
    pub closed spec fn cursor(&self) -> Position {
        self.cursor_position
    }

    /// The top left corner of the window, as a place in the document.
    pub closed spec fn corner(&self) -> Position {
        self.offset
    }

    /// The extent of the window.
    pub closed spec fn extent(&self) -> Size {
        self.size
    }

    /// The document being edited.
    pub closed spec fn text(&self) -> Document {
        self.document
    }

    /// Whether the session is to end.
    pub closed spec fn quitting(&self) -> bool {
        self.should_quit
    }

    /// Whether the welcome text is still to be shown.
    pub closed spec fn welcoming(&self) -> bool {
        self.show_welcome
    }

    /// The document is well formed.
    pub open spec fn wf(&self) -> bool {
        self.text().wf()
    }

    /// A session on `document` in a window of the given size, with the cursor
    /// and the window at the top left corner.
    pub fn new(document: Document, size: Size) -> (editor: Editor)
        ensures
            editor.text() == document,
            editor.extent() == size,
            editor.cursor() == (Position { x: 0, y: 0 }),
            editor.corner() == (Position { x: 0, y: 0 }),
            !editor.quitting(),
            editor.welcoming(),
    {
        Editor {
            should_quit: false,
            show_welcome: true,
            cursor_position: Position::default(),
            offset: Position::default(),
            size,
            document,
        }
    }

    /// Moves the window so that it holds the cursor.
    ///
    /// Along each axis the offset follows `scrolled`. In a window that has
    /// at least one row and one column the cursor then lies inside it.
    pub fn scroll(&mut self)
        ensures
            final(self).corner().y == held(
                scrolled(
                    old(self).corner().y as int,
                    old(self).cursor().y as int,
                    old(self).extent().height as int,
                ),
            ),
            final(self).corner().x == held(
                scrolled(
                    old(self).corner().x as int,
                    old(self).cursor().x as int,
                    old(self).extent().width as int,
                ),
            ),
            final(self).extent().height > 0 ==> final(self).corner().y <= final(self).cursor().y
                < final(self).corner().y + final(self).extent().height,
            final(self).extent().width > 0 ==> final(self).corner().x <= final(self).cursor().x
                < final(self).corner().x + final(self).extent().width,
            final(self).cursor() == old(self).cursor(),
            final(self).extent() == old(self).extent(),
            final(self).text() == old(self).text(),
            final(self).quitting() == old(self).quitting(),
            final(self).welcoming() == old(self).welcoming(),
    {
        let Position { x, y } = self.cursor_position;
        let width = self.size.width as usize;
        let height = self.size.height as usize;
        let next_y = scroll_axis(self.offset.y, y, height);
        self.offset.set_position_y(next_y);
        let next_x = scroll_axis(self.offset.x, x, width);
        self.offset.set_position_x(next_x);
    }

    /// The number of clusters in row `y`, and 0 where there is no such row.
    fn width_at(&self, y: usize) -> (width: usize)
        requires
            self.wf(),
        ensures
            width == row_len(self.text().lines(), y as int),
    {
        match self.document.row(y) {
            Some(row) => row.len(),
            None => 0,
        }
    }

    /// Moves the cursor as `key` says; a key that is no movement key only
    /// pulls the column back to the end of its row.
    ///
    /// Left at the start of a row goes to the end of the row above, Right at
    /// the end of a row to the start of the row below; at the end of the last
    /// row Right stays. Up and Down stop at the
    /// first row and at the row just past the last one. The page keys jump by
    /// the height of the window and stop at the same bounds. Wherever the
    /// cursor arrives, its column is at most the length of the row.
    pub fn move_cursor(&mut self, key: Key)
        requires
            old(self).wf(),
        ensures
            final(self).cursor() == moved(
                old(self).text().lines(),
                old(self).cursor(),
                key,
                old(self).extent().height as usize,
            ),
            final(self).cursor().x <= row_len(final(self).text().lines(), final(self).cursor().y as int),
            old(self).cursor().y <= old(self).text().lines().len() ==> final(self).cursor().y
                <= final(self).text().lines().len(),
            final(self).corner() == old(self).corner(),
            final(self).extent() == old(self).extent(),
            final(self).text() == old(self).text(),
            final(self).quitting() == old(self).quitting(),
            final(self).welcoming() == old(self).welcoming(),
    {
        let at = self.cursor_position;
        let height = self.document.len();
        let width = self.width_at(at.y);
        let terminal_height = self.size.height as usize;
        let y = row_after(at, key, height, terminal_height, width);
        let x = column_after(at, key, height, width, self.width_at(y));
        self.cursor_position.set_position_x(x);
        self.cursor_position.set_position_y(y);
    }

    /// The place of the cursor in the document.
    pub fn get_cursor_position(&self) -> (position: Position)
        ensures
            position == self.cursor(),
    {
        self.cursor_position
    }

    /// The top left corner of the window, as a place in the document.
    pub fn get_offset(&self) -> (offset: Position)
        ensures
            offset == self.corner(),
    {
        self.offset
    }

    /// The extent of the window.
    pub fn size(&self) -> (size: &Size)
        ensures
            *size == self.extent(),
    {
        &self.size
    }

    /// The document being edited.
    pub fn document(&self) -> (document: &Document)
        ensures
            *document == self.text(),
    {
        &self.document
    }

    /// Whether the session is to end.
    pub fn get_should_quit(&self) -> (quit: bool)
        ensures
            quit == self.quitting(),
    {
        self.should_quit
    }

    /// Whether the welcome text is still to be shown.
    pub fn get_show_welcome(&self) -> (show: bool)
        ensures
            show == self.welcoming(),
    {
        self.show_welcome
    }

    /// Where the caret stands in the window: the cursor, counted from the
    /// window's corner, and 0 along an axis on which the cursor lies before
    /// the corner.
    pub fn caret(&self) -> (caret: Position)
        ensures
            caret.x == if self.cursor().x >= self.corner().x {
                self.cursor().x - self.corner().x
            } else {
                0
            },
            caret.y == if self.cursor().y >= self.corner().y {
                self.cursor().y - self.corner().y
            } else {
                0
            },
    {
        Position {
            x: self.cursor_position.x.saturating_sub(self.offset.x),
            y: self.cursor_position.y.saturating_sub(self.offset.y),
        }
    }

    /// Types `c` at the cursor. The cursor stays where it is.
    pub fn insert_at_cursor(&mut self, c: char)
        requires
            old(self).wf(),
        ensures
            final(self).wf(),
            final(self).text().lines() == with_char(old(self).text().lines(), old(self).cursor(), c),
            final(self).text().dirty() == (old(self).text().dirty() || old(self).cursor().y <= old(
                self,
            ).text().lines().len()),
            final(self).text().name() == old(self).text().name(),
            final(self).cursor() == old(self).cursor(),
            final(self).corner() == old(self).corner(),
            final(self).extent() == old(self).extent(),
            final(self).quitting() == old(self).quitting(),
            final(self).welcoming() == old(self).welcoming(),
    {
        let at = self.cursor_position;
        self.document.inesrt(&at, c);
    }

    /// Deletes what stands before the cursor: steps one place to the left
    /// and deletes there. At the very start of the document nothing happens.
    pub fn delete_backward(&mut self)
        requires
            old(self).wf(),
        ensures
            final(self).wf(),
            final(self).text().lines() == lines_after(
                old(self).text().lines(),
                old(self).cursor(),
                Key::Backspace,
                old(self).extent().height as usize,
            ),
            final(self).cursor() == cursor_after(
                old(self).text().lines(),
                old(self).cursor(),
                Key::Backspace,
                old(self).extent().height as usize,
            ),
            final(self).text().dirty() == (old(self).text().dirty() || marks_changed(
                old(self).text().lines(),
                old(self).cursor(),
                Key::Backspace,
                old(self).extent().height as usize,
            )),
            final(self).text().name() == old(self).text().name(),
            final(self).corner() == old(self).corner(),
            final(self).extent() == old(self).extent(),
            final(self).quitting() == old(self).quitting(),
            final(self).welcoming() == old(self).welcoming(),
    {
        if self.cursor_position.x > 0 || self.cursor_position.y > 0 {
            self.move_cursor(Key::Left);
            let at = self.cursor_position;
            self.document.delete(&at);
        }
    }

    /// Takes one key press: edits the document or moves the cursor as the
    /// key says, then moves the window so that it holds the cursor.
    ///
    /// Ctrl-S and Ctrl-Q are passed on as requests. Ctrl-Q on a document
    /// without unsaved changes ends the session at once.
    pub fn process_key(&mut self, key: Key) -> (request: Request)
        requires
            old(self).wf(),
        ensures
            final(self).wf(),
            request == request_for(key, old(self).text().dirty()),
            final(self).text().lines() == lines_after(
                old(self).text().lines(),
                old(self).cursor(),
                key,
                old(self).extent().height as usize,
            ),
            final(self).cursor() == cursor_after(
                old(self).text().lines(),
                old(self).cursor(),
                key,
                old(self).extent().height as usize,
            ),
            final(self).text().dirty() == (old(self).text().dirty() || marks_changed(
                old(self).text().lines(),
                old(self).cursor(),
                key,
                old(self).extent().height as usize,
            )),
            final(self).text().name() == old(self).text().name(),
            final(self).corner().y == held(
                scrolled(
                    old(self).corner().y as int,
                    final(self).cursor().y as int,
                    old(self).extent().height as int,
                ),
            ),
            final(self).corner().x == held(
                scrolled(
                    old(self).corner().x as int,
                    final(self).cursor().x as int,
                    old(self).extent().width as int,
                ),
            ),
            final(self).extent().height > 0 ==> final(self).corner().y <= final(self).cursor().y
                < final(self).corner().y + final(self).extent().height,
            final(self).extent().width > 0 ==> final(self).corner().x <= final(self).cursor().x
                < final(self).corner().x + final(self).extent().width,
            final(self).extent() == old(self).extent(),
            final(self).quitting() == (old(self).quitting() || (key == Key::Ctrl('q') && !old(
                self,
            ).text().dirty())),
            final(self).welcoming() == old(self).welcoming(),
    {
        let mut request = Request::Nothing;
        match key {
            Key::Ctrl(c) => {
                if c == 'q' {
                    if self.document.is_dirty() {
                        request = Request::ConfirmExit;
                    } else {
                        self.should_quit = true;
                    }
                } else if c == 's' {
                    request = Request::Save;
                }
            },
            Key::Char(c) => {
                self.insert_at_cursor(c);
                self.move_cursor(Key::Right);
            },
            Key::Backspace => {
                self.delete_backward();
            },
            Key::Up | Key::Down | Key::Left | Key::Right | Key::PageUp | Key::PageDown | Key::End
            | Key::Home => {
                self.move_cursor(key);
            },
            _ => {},
        }
        self.scroll();
        request
    }

    /// Takes the answer to the question whether to leave with unsaved
    /// changes: the session ends if the answer is `y`, in either case.
    pub fn answer_exit(&mut self, answer: &str)
        ensures
            final(self).quitting() == (old(self).quitting() || answer@ == seq!['y'] || answer@
                == seq!['Y']),
            final(self).cursor() == old(self).cursor(),
            final(self).corner() == old(self).corner(),
            final(self).extent() == old(self).extent(),
            final(self).text() == old(self).text(),
            final(self).welcoming() == old(self).welcoming(),
    {
        proof {
            reveal_strlit("y");
            reveal_strlit("Y");
            assert("y"@ =~= seq!['y']);
            assert("Y"@ =~= seq!['Y']);
        }
        let given = String::from_str(answer);
        if given.eq(&String::from_str("y")) || given.eq(&String::from_str("Y")) {
            self.should_quit = true;
        }
    }

    /// Sets whether the session is to end.
    pub fn set_should_quit(&mut self, value: bool)
        ensures
            final(self).quitting() == value,
            final(self).cursor() == old(self).cursor(),
            final(self).corner() == old(self).corner(),
            final(self).extent() == old(self).extent(),
            final(self).text() == old(self).text(),
            final(self).welcoming() == old(self).welcoming(),
    {
        self.should_quit = value;
    }

    /// Sets whether the welcome text is still to be shown.
    pub fn set_show_welcome(&mut self, value: bool)
        ensures
            final(self).welcoming() == value,
            final(self).cursor() == old(self).cursor(),
            final(self).corner() == old(self).corner(),
            final(self).extent() == old(self).extent(),
            final(self).text() == old(self).text(),
            final(self).quitting() == old(self).quitting(),
    {
        self.show_welcome = value;
    }

    /// The part of `row` that the window shows: the clusters from the
    /// window's left edge on, as many as the window is wide.
    pub fn row_text(&self, row: &Row) -> (text: String)
        ensures
            text@ == rendered(
                row@,
                self.corner().x as int,
                held(self.corner().x + self.extent().width),
            ),
    {
        let width = self.size.width as usize;
        let start = self.offset.x;
        let end = start.saturating_add(width);
        row.render(start, end)
    }

    /// What row `terminal_row` of the window shows: the row of the document
    /// that lies that far below the window's top edge, or, below the end of
    /// the document, the welcome text where it is due and a blank mark
    /// elsewhere.
    pub fn screen_row(&self, terminal_row: u16) -> (shown: ScreenRow)
        requires
            self.wf(),
        ensures
            match shown {
                ScreenRow::Text(text) => {
                    &&& terminal_row + self.corner().y < self.text().lines().len()
                    &&& text@ == rendered(
                        self.text().lines()[terminal_row + self.corner().y],
                        self.corner().x as int,
                        held(self.corner().x + self.extent().width),
                    )
                },
                ScreenRow::Welcome => {
                    &&& terminal_row + self.corner().y >= self.text().lines().len()
                    &&& welcome_due(
                        terminal_row,
                        self.extent().height,
                        self.welcoming(),
                        self.text().lines(),
                    )
                },
                ScreenRow::Blank => {
                    &&& terminal_row + self.corner().y >= self.text().lines().len()
                    &&& !welcome_due(
                        terminal_row,
                        self.extent().height,
                        self.welcoming(),
                        self.text().lines(),
                    )
                },
            },
    {
        let rows = self.document.len();
        let index = (terminal_row as usize).saturating_add(self.offset.y);
        match self.document.row(index) {
            Some(row) => ScreenRow::Text(self.row_text(row)),
            None => {
                if terminal_row == self.size.height / 2 && self.show_welcome
                    && self.document.is_empty() {
                    ScreenRow::Welcome
                } else {
                    ScreenRow::Blank
                }
            },
        }
    }

    /// The text of the status bar.
    pub fn status_bar(&self) -> (status: String)
        ensures
            status@ == status_text(
                self.text().name(),
                self.text().lines().len(),
                self.text().dirty(),
                self.cursor().y,
                self.extent().width as usize,
            ),
    {
        status_bar_text(
            self.document.get_file_name(),
            self.document.len(),
            self.document.is_dirty(),
            self.cursor_position.y,
            self.size.width as usize,
        )
    }

    /// Gives the document another file name, or none.
    pub fn reset_document_filename(&mut self, filename: Option<String>)
        ensures
            match filename {
                Some(name) => final(self).text().name() == Some(name@),
                None => final(self).text().name() is None,
            },
            final(self).text().lines() == old(self).text().lines(),
            final(self).text().dirty() == old(self).text().dirty(),
            old(self).wf() ==> final(self).wf(),
            final(self).cursor() == old(self).cursor(),
            final(self).corner() == old(self).corner(),
            final(self).extent() == old(self).extent(),
            final(self).quitting() == old(self).quitting(),
            final(self).welcoming() == old(self).welcoming(),
    {
        self.document.set_file_name(filename);
    }

    /// Records that the document was written out.
    pub fn mark_saved(&mut self)
        ensures
            final(self).text().saved_from(old(self).text()),
            old(self).wf() ==> final(self).wf(),
            final(self).cursor() == old(self).cursor(),
            final(self).corner() == old(self).corner(),
            final(self).extent() == old(self).extent(),
            final(self).quitting() == old(self).quitting(),
            final(self).welcoming() == old(self).welcoming(),
    {
        self.document.mark_saved();
    }
}

} // verus!
