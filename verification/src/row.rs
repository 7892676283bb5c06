//! One line of text, edited at grapheme-cluster positions.

use crate::clusters::{
    alone_at, head, insert_char, lemma_head_tail, lemma_removed_keeps_pieces, lemma_spliced_keeps_pieces,
    lemma_tail_unfold, lone_position, remove_part, removed, render_parts, shown_range, spliced,
    split_parts, stands_at, start_of, tail,
};
use crate::grapheme::{grapheme_clusters, graphemes, lemma_segments_of_empty, segments};
use vstd::prelude::*;
use vstd::std_specs::convert::FromSpecImpl;
use vstd::string::{StrSliceExecFns, StringExecFns};
use vstd::utf8::encode_utf8;

verus! {

/// The visible text between the cluster positions `start` and `end` of `text`.
///
/// `end` is cut down to the number of clusters and `start` to `end`, so a
/// range that is inverted or lies past the end shows nothing.
pub open spec fn rendered(text: Seq<char>, start: int, end: int) -> Seq<char> {
    shown_range(grapheme_clusters(text), start, end)
}

/// `text` with `c` put in before the cluster at position `at`, or at the end
/// when there is no such cluster.
pub open spec fn inserted(text: Seq<char>, at: int, c: char) -> Seq<char> {
    spliced(grapheme_clusters(text), at, c)
}

/// `text` without the cluster at position `at`.
pub open spec fn deleted(text: Seq<char>, at: int) -> Seq<char> {
    removed(grapheme_clusters(text), at)
}

/// The first `at` clusters of `text` (all of it when `at` is past the end).
pub open spec fn split_head(text: Seq<char>, at: int) -> Seq<char> {
    head(grapheme_clusters(text), at)
}

/// What follows the first `at` clusters of `text`.
pub open spec fn split_tail(text: Seq<char>, at: int) -> Seq<char> {
    tail(grapheme_clusters(text), at)
}

/// A line of text together with the number of its grapheme clusters.
#[derive(Debug)]
pub struct Row {
    text: String,
    len: usize,
}

impl View for Row {
    type V = Seq<char>;

    closed spec fn view(&self) -> Seq<char> {
        self.text@
    }
}

impl Default for Row {
    /// The empty row.
    fn default() -> (row: Row)
        ensures
            row.wf(),
            row@ == Seq::<char>::empty(),
    {
        let mut row = Row { text: String::new(), len: 0 };
        row.update_len();
        row
    }
}

impl<'a> From<&'a str> for Row {
    /// A row holding `value`.
    fn from(value: &'a str) -> (row: Row)
        ensures
            row.wf(),
            row@ == value@,
    {
        let mut row = Row { text: String::from_str(value), len: 0 };
        row.update_len();
        row
    }
}

impl<'a> FromSpecImpl<&'a str> for Row {
    /// Two strings with the same characters need not be the same value, so
    /// the row is described by its view and not as a term.
    open spec fn obeys_from_spec() -> bool {
        false
    }

    open spec fn from_spec(v: &'a str) -> Row {
        arbitrary()
    }
}

impl Row {
    /// The cluster count that the row carries.
    pub closed spec fn cached_len(&self) -> nat {
        self.len as nat
    }

    /// The grapheme clusters of the row's text.
    pub open spec fn clusters(&self) -> Seq<Seq<char>> {
        grapheme_clusters(self@)
    }

    /// The carried count is the number of clusters of the text, and the
    /// clusters cut the text into non-empty pieces.
    pub open spec fn wf(&self) -> bool {
        &&& self.cached_len() == self.clusters().len()
        &&& segments(self.clusters(), self@)
    }

    /// Recounts the clusters of the text.
    pub fn update_len(&mut self)
        ensures
            final(self).wf(),
            final(self)@ == old(self)@,
    {
        let parts = graphemes(self.text.as_str());
        self.len = parts.len();
    }

    /// The number of grapheme clusters in the row.
    pub fn len(&self) -> (n: usize)
        ensures
            n == self.clusters().len(),
    {
        graphemes(self.text.as_str()).len()
    }

    /// Whether the row holds no cluster, which is to say no text.
    pub fn is_empty(&self) -> (empty: bool)
        requires
            self.wf(),
        ensures
            empty == (self.clusters().len() == 0),
            empty == (self@.len() == 0),
    {
        proof {
            if self@.len() == 0 {
                assert(self@ =~= Seq::<char>::empty());
                lemma_segments_of_empty(self.clusters());
            }
        }
        self.len == 0
    }

    /// The visible text between the cluster positions `start` and `end`,
    /// each tab shown as two spaces.
    pub fn render(&self, start: usize, end: usize) -> (out: String)
        ensures
            out@ == rendered(self@, start as int, end as int),
    {
        let parts = graphemes(self.text.as_str());
        render_parts(&parts, start, end)
    }

    /// Puts `c` in before the cluster at position `at`, or at the end of the
    /// row when `at` is not the position of a cluster.
    pub fn insert(&mut self, at: usize, c: char)
        ensures
            final(self).wf(),
            final(self)@ == inserted(old(self)@, at as int, c),
            at >= old(self).clusters().len() ==> final(self)@ == old(self)@.push(c),
    {
        let parts = graphemes(self.text.as_str());
        proof {
            let dv = parts.deep_view();
            if at >= dv.len() {
                assert(dv.subrange(0, dv.len() as int) =~= dv);
                assert(dv.subrange(dv.len() as int, dv.len() as int) =~= Seq::<Seq<char>>::empty());
                assert(spliced(dv, at as int, c) =~= old(self)@.push(c));
            }
        }
        self.text = insert_char(&parts, at, c);
        self.update_len();
    }

    /// Puts `c` in at position `at` and takes it out again where that can
    /// be done by deleting one cluster, which is where `c` stands in the
    /// row as a cluster of its own. Says whether it was taken out: if so the
    /// row is as it was; if not, `c` has joined a neighbour and stays.
    pub fn insert_then_delete(&mut self, at: usize, c: char) -> (restored: bool)
        ensures
            final(self).wf(),
            restored == exists|p: int|
                stands_alone(old(self)@, at as int, inserted(old(self)@, at as int, c), p),
            restored ==> final(self)@ == old(self)@,
            !restored ==> final(self)@ == inserted(old(self)@, at as int, c),
    {
        self.update_len();
        let ghost before = *self;
        let parts = graphemes(self.text.as_str());
        let (beginning, _) = split_parts(&parts, at);
        let offset = beginning.as_str().unicode_len();
        self.insert(at, c);
        let ghost with_c = *self;
        let new_parts = graphemes(self.text.as_str());
        match lone_position(&new_parts, offset) {
            Some(p) => {
                proof {
                    assert(stands_alone(before@, at as int, with_c@, p as int));
                    lemma_insert_then_delete(before, with_c, at as int, c, p as int);
                }
                self.delete(p);
                true
            },
            None => {
                assert forall|p: int| !stands_alone(before@, at as int, with_c@, p) by {
                    assert(!alone_at(new_parts.deep_view(), p, offset as int));
                }
                false
            },
        }
    }

    /// Removes the cluster at position `at`; does nothing when `at` is not
    /// the position of a cluster.
    pub fn delete(&mut self, at: usize)
        ensures
            final(self).wf(),
            final(self)@ == deleted(old(self)@, at as int),
            at >= old(self).clusters().len() ==> final(self)@ == old(self)@,
    {
        let parts = graphemes(self.text.as_str());
        self.text = remove_part(&parts, at);
        self.update_len();
    }

    /// Cuts the row after its first `at` clusters: the row keeps them and the
    /// rest is returned as a row of its own, which is empty when `at` is at or
    /// past the end.
    pub fn split(&mut self, at: usize) -> (rest: Row)
        ensures
            final(self).wf(),
            rest.wf(),
            final(self)@ == split_head(old(self)@, at as int),
            rest@ == split_tail(old(self)@, at as int),
            at >= old(self).clusters().len() ==> final(self)@ == old(self)@ && rest@.len() == 0,
    {
        let parts = graphemes(self.text.as_str());
        proof {
            let dv = parts.deep_view();
            if at >= dv.len() {
                assert(dv.subrange(0, dv.len() as int) =~= dv);
                assert(dv.subrange(dv.len() as int, dv.len() as int) =~= Seq::<Seq<char>>::empty());
            }
        }
        let (beginning, remainder) = split_parts(&parts, at);
        self.text = beginning;
        self.update_len();
        Row::from(remainder.as_str())
    }

    /// Adds the text of `new` to the end of the row.
    pub fn append(&mut self, new: &Row)
        ensures
            final(self).wf(),
            final(self)@ == old(self)@ + new@,
    {
        self.text.append(new.text.as_str());
        self.update_len();
    }

    /// The text of the row as UTF-8.
    pub fn as_bytes(&self) -> (bytes: &[u8])
        ensures
            bytes@ == encode_utf8(self@),
    {
        self.text.as_str().as_bytes()
    }
}

/// The cluster at position `p` of `after` is exactly the one character that
/// `inserted(before, at, c)` put in: it starts where the first `at` clusters
/// of `before` end, and it is one character long.
pub open spec fn stands_alone(before: Seq<char>, at: int, after: Seq<char>, p: int) -> bool {
    let parts = grapheme_clusters(after);
    &&& 0 <= p < parts.len()
    &&& parts[p].len() == 1
    &&& head(parts, p).len() == head(grapheme_clusters(before), at).len()
}

/// Inserting a character and then deleting the cluster it forms gives back
/// the row as it was, in text and in length.
///
/// This holds where the inserted character stands as a cluster of its own in
/// the new row. A character that joins a neighbour, as a combining mark
/// joins the letter before it, cannot be taken out again by deleting one
/// cluster.
pub proof fn lemma_insert_then_delete(row: Row, with_c: Row, at: int, c: char, p: int)
    requires
        row.wf(),
        with_c.wf(),
        with_c@ == inserted(row@, at, c),
        stands_alone(row@, at, with_c@, p),
    ensures
        deleted(with_c@, p) == row@,
        grapheme_clusters(deleted(with_c@, p)).len() == row.clusters().len(),
{
    let r = row.clusters();
    let m = with_c.clusters();
    let a = head(r, at);
    let b = tail(r, at);
    lemma_head_tail(r, at);
    lemma_head_tail(m, p);
    lemma_tail_unfold(m, p);
    let x = with_c@;
    assert(x == a.push(c) + b);
    assert(x == head(m, p) + (m[p] + tail(m, p + 1)));
    assert(head(m, p) =~= x.subrange(0, a.len() as int));
    assert(a =~= x.subrange(0, a.len() as int));
    assert(tail(m, p + 1) =~= x.subrange(a.len() as int + 1, x.len() as int));
    assert(b =~= x.subrange(a.len() as int + 1, x.len() as int));
}

/// Splitting a row at any position and appending the split-off rest to what
/// is left restores the text.
pub proof fn lemma_split_then_append(row: Row, at: int)
    requires
        row.wf(),
    ensures
        split_head(row@, at) + split_tail(row@, at) == row@,
{
    lemma_head_tail(row.clusters(), at);
}

/// Inserting into a row never splits a cluster: each cluster of the row
/// stands whole in the new text, where it stood if it lies before the
/// position of the insertion and one place further on if it does not.
pub proof fn lemma_insert_keeps_clusters_whole(row: Row, at: int, c: char, j: int)
    requires
        0 <= j < row.clusters().len(),
    ensures
        stands_at(
            inserted(row@, at, c),
            start_of(row.clusters(), j) + if j < at {
                0int
            } else {
                1int
            },
            row.clusters()[j],
        ),
{
    lemma_spliced_keeps_pieces(row.clusters(), at, c, j);
}

/// Deleting from a row never splits a cluster: each cluster but the deleted
/// one stands whole in the new text, where it stood if it lies before the
/// deleted one and further back by the length of the deleted one if it lies
/// after it.
pub proof fn lemma_delete_keeps_clusters_whole(row: Row, at: int, j: int)
    requires
        0 <= j < row.clusters().len(),
        j != at,
    ensures
        stands_at(
            deleted(row@, at),
            start_of(row.clusters(), j) - if 0 <= at < j {
                row.clusters()[at].len() as int
            } else {
                0int
            },
            row.clusters()[j],
        ),
{
    lemma_removed_keeps_pieces(row.clusters(), at, j);
}

} // verus!
