//! The document: rows in display order, with a dirty flag and a file name.

use crate::grapheme::{grapheme_clusters, lemma_segments_of_empty};
use crate::lines::{file_bytes, lines_of, split_lines};
use crate::position::Position;
use crate::row::{deleted, inserted, split_head, split_tail, Row};
use vstd::prelude::*;
use vstd::string::StringExecFns;
use vstd::utf8::encode_utf8;

verus! {

/// The lines after a line break is put in at `at`.
///
/// At the row just past the last one an empty line is added. In an existing
/// row the line is cut at column `at.x` and what follows the cut becomes the
/// next line. A row further out leaves the lines as they are.
pub open spec fn with_new_line(lines: Seq<Seq<char>>, at: Position) -> Seq<Seq<char>> {
    let y = at.y as int;
    if y > lines.len() {
        lines
    } else if y == lines.len() {
        lines.push(Seq::empty())
    } else {
        lines.update(y, split_head(lines[y], at.x as int)).insert(
            y + 1,
            split_tail(lines[y], at.x as int),
        )
    }
}

/// The lines after `c` is typed at `at`.
///
/// A line feed breaks the line. At the row just past the last one a new line
/// holding only `c` is added. A row further out leaves the lines as they are.
pub open spec fn with_char(lines: Seq<Seq<char>>, at: Position, c: char) -> Seq<Seq<char>> {
    let y = at.y as int;
    if y > lines.len() {
        lines
    } else if c == '\n' {
        with_new_line(lines, at)
    } else if y == lines.len() {
        lines.push(seq![c])
    } else {
        lines.update(y, inserted(lines[y], at.x as int, c))
    }
}

/// Whether deleting at `at`, in a row of `row_len` clusters in a document of
/// `rows` rows, joins the row with the one after it: the column is the end
/// of the row and the row is not the last.
pub open spec fn joins(at: Position, row_len: int, rows: int) -> bool {
    at.x == row_len && at.y + 1 < rows
}

/// Whether deleting at `at`, in a row of `row_len` clusters in a document of
/// `rows` rows, takes anything away: a cluster of the row, or the line break
/// at its end.
pub open spec fn takes_away(at: Position, row_len: int, rows: int) -> bool {
    at.y < rows && (at.x < row_len || joins(at, row_len, rows))
}

/// Whether deleting at `at` joins the row with the one after it.
pub open spec fn joins_next(lines: Seq<Seq<char>>, at: Position) -> bool {
    &&& at.y < lines.len()
    &&& joins(at, grapheme_clusters(lines[at.y as int]).len() as int, lines.len() as int)
}

/// Whether deleting at `at` takes anything away from `lines`: a cluster, or
/// the line break between two rows.
pub open spec fn deletes(lines: Seq<Seq<char>>, at: Position) -> bool {
    &&& at.y < lines.len()
    &&& takes_away(at, grapheme_clusters(lines[at.y as int]).len() as int, lines.len() as int)
}

/// Whether deleting at `at`, in a row of `row_len` clusters in a document of
/// `rows` rows, joins the row with the one after it.
pub fn joins_next_row(at: &Position, row_len: usize, rows: usize) -> (joining: bool)
    ensures
        joining == joins(*at, row_len as int, rows as int),
{
    at.x == row_len && at.y < rows.saturating_sub(1)
}

/// Whether deleting at `at`, in a row of `row_len` clusters in a document of
/// `rows` rows, takes anything away.
pub fn takes_away_at(at: &Position, row_len: usize, rows: usize) -> (taking: bool)
    ensures
        taking == takes_away(*at, row_len as int, rows as int),
{
    at.y < rows && (at.x < row_len || joins_next_row(at, row_len, rows))
}

/// The lines after the cluster at `at` is deleted.
///
/// At the end of a row that is not the last, the next row is joined onto it.
/// Inside a row, the cluster at the column goes. At the end of the last row,
/// past the end of any row, and in a row that does not exist, the lines stay
/// as they are.
pub open spec fn without_char(lines: Seq<Seq<char>>, at: Position) -> Seq<Seq<char>> {
    let y = at.y as int;
    if !deletes(lines, at) {
        lines
    } else if joins_next(lines, at) {
        lines.update(y, lines[y] + lines[y + 1]).remove(y + 1)
    } else {
        lines.update(y, deleted(lines[y], at.x as int))
    }
}

/// An ordered sequence of rows, the name of the file it belongs to, and
/// whether it was changed since it was last saved.
#[derive(Debug)]
pub struct Document {
    rows: Vec<Row>,
    dirty: bool,
    pub file_name: Option<String>,
}

impl Default for Document {
    /// The empty, unnamed, unchanged document.
    fn default() -> (document: Document)
        ensures
            document.wf(),
            document.lines() == Seq::<Seq<char>>::empty(),
            !document.dirty(),
            document.name() is None,
    {
        Document { rows: Vec::new(), dirty: false, file_name: None }
    }
}

impl Document {
    /// The text of each row, in order.
    pub closed spec fn lines(&self) -> Seq<Seq<char>> {
        self.rows@.map_values(|row: Row| row@)
    }

    /// Whether the document was changed since it was last saved.
    pub closed spec fn dirty(&self) -> bool {
        self.dirty
    }

    /// The characters of the file name, if the document has one.
    pub closed spec fn name(&self) -> Option<Seq<char>> {
        match self.file_name {
            Some(name) => Some(name@),
            None => None,
        }
    }

    /// Every row is well formed.
    pub closed spec fn wf(&self) -> bool {
        forall|i: int| 0 <= i < self.rows.len() ==> (#[trigger] self.rows[i]).wf()
    }

    /// This document is `before` after a save: the same lines under the same
    /// name, and unchanged since.
    pub open spec fn saved_from(&self, before: Document) -> bool {
        &&& self.lines() == before.lines()
        &&& self.name() == before.name()
        &&& !self.dirty()
    }

    /// The document that the file `file_name` holds when its text is
    /// `contents`: one row for each line, unchanged since it was read.
    pub fn from_text(file_name: &str, contents: &str) -> (document: Document)
        ensures
            document.wf(),
            document.lines() == split_lines(contents@),
            !document.dirty(),
            document.name() == Some(file_name@),
    {
        let lines = lines_of(contents);
        let mut rows: Vec<Row> = Vec::new();
        let mut i: usize = 0;
        while i < lines.len()
            invariant
                i <= lines.len(),
                rows.len() == i,
                forall|j: int| 0 <= j < i ==> (#[trigger] rows[j]).wf(),
                forall|j: int| 0 <= j < i ==> (#[trigger] rows[j])@ == lines[j]@,
            decreases lines.len() - i,
        {
            rows.push(Row::from(lines[i].as_str()));
            i += 1;
        }
        let document = Document {
            rows,
            dirty: false,
            file_name: Some(String::from_str(file_name)),
        };
        assert(document.lines() =~= lines.deep_view());
        document
    }

    /// The bytes that a save writes: the rows in order, each followed by a
    /// line feed.
    pub fn to_bytes(&self) -> (bytes: Vec<u8>)
        ensures
            bytes@ == file_bytes(self.lines()),
    {
        let mut bytes: Vec<u8> = Vec::new();
        let mut i: usize = 0;
        while i < self.rows.len()
            invariant
                i <= self.rows.len(),
                bytes@ == file_bytes(self.lines().subrange(0, i as int)),
            decreases self.rows.len() - i,
        {
            proof {
                let lines = self.lines();
                let f = |line: Seq<char>| encode_utf8(line).push(0x0au8);
                assert(lines.subrange(0, i + 1).map_values(f) =~= lines.subrange(
                    0,
                    i as int,
                ).map_values(f).push(f(lines[i as int])));
                lines.subrange(0, i as int).map_values(f).lemma_flatten_push(f(lines[i as int]));
            }
            bytes.extend_from_slice(self.rows[i].as_bytes());
            bytes.push(0x0au8);
            i += 1;
        }
        assert(self.lines().subrange(0, i as int) =~= self.lines());
        bytes
    }

    /// Records that the document was written out: it counts as unchanged
    /// from here on.
    pub fn mark_saved(&mut self)
        ensures
            final(self).saved_from(*old(self)),
            old(self).wf() ==> final(self).wf(),
    {
        self.dirty = false;
    }

    /// Puts a line break in at `at` and marks the document as changed.
    ///
    /// A position whose row lies beyond the row just past the last one
    /// changes nothing.
    pub fn insert_new_line(&mut self, at: &Position)
        requires
            old(self).wf(),
        ensures
            final(self).wf(),
            final(self).lines() == with_new_line(old(self).lines(), *at),
            final(self).dirty() == (old(self).dirty() || at.y <= old(self).lines().len()),
            final(self).name() == old(self).name(),
    {
        if at.y > self.rows.len() {
            return ;
        }
        self.dirty = true;
        if at.y == self.rows.len() {
            self.rows.push(Row::default());
            assert(final(self).lines() =~= with_new_line(old(self).lines(), *at));
            return ;
        }
        let new_row = self.rows[at.y].split(at.x);
        self.rows.insert(at.y + 1, new_row);
        assert(final(self).lines() =~= with_new_line(old(self).lines(), *at));
    }

    /// Types `c` at `at` and marks the document as changed.
    ///
    /// A position whose row lies beyond the row just past the last one
    /// changes nothing, not even the dirty flag.
    pub fn inesrt(&mut self, at: &Position, c: char)
        requires
            old(self).wf(),
        ensures
            final(self).wf(),
            final(self).lines() == with_char(old(self).lines(), *at, c),
            final(self).dirty() == (old(self).dirty() || at.y <= old(self).lines().len()),
            final(self).name() == old(self).name(),
    {
        if at.y > self.rows.len() {
            return ;
        }
        self.dirty = true;
        if c == '\n' {
            self.insert_new_line(at);
            return ;
        }
        if at.y == self.rows.len() {
            let mut row = Row::default();
            proof {
                lemma_segments_of_empty(row.clusters());
            }
            row.insert(0, c);
            self.rows.push(row);
            assert(final(self).lines() =~= with_char(old(self).lines(), *at, c));
        } else {
            self.rows[at.y].insert(at.x, c);
            assert(final(self).lines() =~= with_char(old(self).lines(), *at, c));
        }
    }

    /// Deletes the cluster at `at`, and marks the document as changed if
    /// anything was deleted.
    ///
    /// At the end of a row that is not the last one, the line break goes: the
    /// next row is joined onto this one. At the end of the last row, past the
    /// end of any row, and in a row that does not exist there is nothing to
    /// delete: the lines and the dirty flag stay as they are.
    pub fn delete(&mut self, at: &Position)
        requires
            old(self).wf(),
        ensures
            final(self).wf(),
            final(self).lines() == without_char(old(self).lines(), *at),
            final(self).dirty() == (old(self).dirty() || deletes(old(self).lines(), *at)),
            final(self).name() == old(self).name(),
    {
        let len = self.rows.len();
        if at.y >= len {
            return ;
        }
        let row_len = self.rows[at.y].len();
        if !takes_away_at(at, row_len, len) {
            return ;
        }
        self.dirty = true;
        if joins_next_row(at, row_len, len) {
            let next_row = self.rows.remove(at.y + 1);
            self.rows[at.y].append(&next_row);
            assert(final(self).lines() =~= without_char(old(self).lines(), *at));
        } else {
            self.rows[at.y].delete(at.x);
            assert(final(self).lines() =~= without_char(old(self).lines(), *at));
        }
    }

    /// The row at `index`, if there is one.
    pub fn row(&self, index: usize) -> (row: Option<&Row>)
        requires
            self.wf(),
        ensures
            index < self.lines().len() ==> row is Some && row->0@ == self.lines()[index as int]
                && row->0.wf(),
            index >= self.lines().len() ==> row is None,
    {
        if index < self.rows.len() {
            Some(&self.rows[index])
        } else {
            None
        }
    }

    /// The name of the file, if the document has one.
    pub fn get_file_name(&self) -> (name: Option<&str>)
        ensures
            match name {
                Some(name) => self.name() == Some(name@),
                None => self.name() is None,
            },
    {
        match &self.file_name {
            Some(name) => Some(name.as_str()),
            None => None,
        }
    }

    /// Gives the document another file name, or none.
    pub fn set_file_name(&mut self, file_name: Option<String>)
        ensures
            match file_name {
                Some(name) => final(self).name() == Some(name@),
                None => final(self).name() is None,
            },
            final(self).lines() == old(self).lines(),
            final(self).dirty() == old(self).dirty(),
            old(self).wf() ==> final(self).wf(),
    {
        self.file_name = file_name;
    }

    /// Whether the document has no rows.
    pub fn is_empty(&self) -> (empty: bool)
        ensures
            empty == (self.lines().len() == 0),
    {
        self.rows.is_empty()
    }

    /// Whether the document was changed since it was last saved.
    pub fn is_dirty(&self) -> (dirty: bool)
        ensures
            dirty == self.dirty(),
    {
        self.dirty
    }

    /// The number of rows.
    pub fn len(&self) -> (n: usize)
        ensures
            n == self.lines().len(),
    {
        self.rows.len()
    }
}

/// Saving a document that was just saved writes the same bytes again and
/// leaves it unchanged.
pub proof fn lemma_save_twice(before: Document, once: Document, twice: Document)
    requires
        once.saved_from(before),
        twice.saved_from(once),
    ensures
        file_bytes(twice.lines()) == file_bytes(once.lines()),
        !twice.dirty(),
        twice.saved_from(before),
{
}

} // verus!
