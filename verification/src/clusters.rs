//! Editing a text that is given as its sequence of clusters: cutting the
//! sequence at a position, and putting the pieces together again with a
//! character more or a cluster less.

use crate::strings::push_char;
use vstd::prelude::*;
use vstd::seq_lib::lemma_flatten_concat;
use vstd::string::{StrSliceExecFns, StringExecFns};

verus! {

/// `n` brought into `0..=len`.
pub open spec fn clamp_index(n: int, len: int) -> int {
    if n < 0 {
        0
    } else if n > len {
        len
    } else {
        n
    }
}

/// The text of the first `n` pieces (all of them when `n` is past the end).
pub open spec fn head(parts: Seq<Seq<char>>, n: int) -> Seq<char> {
    parts.subrange(0, clamp_index(n, parts.len() as int)).flatten()
}

/// The text of the pieces from index `n` on (empty when `n` is past the end).
pub open spec fn tail(parts: Seq<Seq<char>>, n: int) -> Seq<char> {
    parts.subrange(clamp_index(n, parts.len() as int), parts.len() as int).flatten()
}

/// The text of `parts` with `c` put in before the piece at position `at`, or
/// at the end when there is no such piece.
pub open spec fn spliced(parts: Seq<Seq<char>>, at: int, c: char) -> Seq<char> {
    head(parts, at).push(c) + tail(parts, at)
}

/// The text of `parts` without the piece at position `at`, or all of it
/// when there is no such piece.
pub open spec fn removed(parts: Seq<Seq<char>>, at: int) -> Seq<char> {
    if 0 <= at < parts.len() {
        head(parts, at) + tail(parts, at + 1)
    } else {
        parts.flatten()
    }
}

/// What one cluster looks like on screen: a tab is two spaces, anything else
/// is itself.
pub open spec fn shown(part: Seq<char>) -> Seq<char> {
    if part == seq!['\t'] {
        seq![' ', ' ']
    } else {
        part
    }
}

/// What the pieces from position `start` up to position `end` look like on
/// screen.
///
/// `end` is cut down to the number of pieces and `start` to `end`, so a
/// range that is inverted or lies past the end shows nothing.
pub open spec fn shown_range(parts: Seq<Seq<char>>, start: int, end: int) -> Seq<char> {
    let to = clamp_index(end, parts.len() as int);
    let from = clamp_index(start, to);
    parts.subrange(from, to).map_values(|part: Seq<char>| shown(part)).flatten()
}

/// Cutting a sequence of pieces at any index and joining both sides gives
/// the text of all pieces.
pub proof fn lemma_head_tail(parts: Seq<Seq<char>>, n: int)
    ensures
        head(parts, n) + tail(parts, n) == parts.flatten(),
{
    let k = clamp_index(n, parts.len() as int);
    lemma_flatten_concat(parts.subrange(0, k), parts.subrange(k, parts.len() as int));
    assert(parts.subrange(0, k) + parts.subrange(k, parts.len() as int) =~= parts);
}

/// The pieces from `p` on are the piece at `p` followed by the pieces after it.
pub proof fn lemma_tail_unfold(parts: Seq<Seq<char>>, p: int)
    requires
        0 <= p < parts.len(),
    ensures
        tail(parts, p) == parts[p] + tail(parts, p + 1),
{
    let rest = parts.subrange(p, parts.len() as int);
    assert(rest.drop_first() =~= parts.subrange(p + 1, parts.len() as int));
    assert(rest.first() == parts[p]);
}

/// The characters of the pieces from `from` up to `to`, with the piece at
/// `j` among them, are those before it, the piece, and those after it.
pub proof fn lemma_range_around(parts: Seq<Seq<char>>, from: int, j: int, to: int)
    requires
        0 <= from <= j < to <= parts.len(),
    ensures
        parts.subrange(from, to).flatten() == parts.subrange(from, j).flatten() + parts[j]
            + parts.subrange(j + 1, to).flatten(),
{
    let before = parts.subrange(from, j);
    let one = parts.subrange(j, j + 1);
    let after = parts.subrange(j + 1, to);
    assert(parts.subrange(from, to) =~= before + (one + after));
    lemma_flatten_concat(before, one + after);
    lemma_flatten_concat(one, after);
    assert(one =~= seq![parts[j]]);
    assert(one.flatten() =~= parts[j]) by {
        one.lemma_flatten_singleton();
    }
}

/// Where the piece at position `j` starts in the text of `parts`.
pub open spec fn start_of(parts: Seq<Seq<char>>, j: int) -> int {
    head(parts, j).len() as int
}

/// `piece` stands in `text` at `offset`, whole and unbroken.
pub open spec fn stands_at(text: Seq<char>, offset: int, piece: Seq<char>) -> bool {
    &&& 0 <= offset
    &&& offset + piece.len() <= text.len()
    &&& text.subrange(offset, offset + piece.len()) == piece
}

/// A character put in at a position between pieces breaks no piece: each
/// piece stands whole in the new text, where it stood if it lies before the
/// position and one place further on if it does not.
pub proof fn lemma_spliced_keeps_pieces(parts: Seq<Seq<char>>, at: int, c: char, j: int)
    requires
        0 <= j < parts.len(),
    ensures
        stands_at(
            spliced(parts, at, c),
            start_of(parts, j) + if j < at {
                0int
            } else {
                1int
            },
            parts[j],
        ),
{
    let n = parts.len() as int;
    let k = clamp_index(at, n);
    let text = spliced(parts, at, c);
    let piece = parts[j];
    if j < k {
        lemma_range_around(parts, 0, j, k);
        let o = start_of(parts, j);
        assert(text.subrange(o, o + piece.len()) =~= piece);
    } else {
        lemma_range_around(parts, k, j, n);
        lemma_flatten_concat(parts.subrange(0, k), parts.subrange(k, j));
        assert(parts.subrange(0, k) + parts.subrange(k, j) =~= parts.subrange(0, j));
        let o = start_of(parts, j) + 1;
        assert(text.subrange(o, o + piece.len()) =~= piece);
    }
}

/// Taking the piece at position `at` out breaks no other piece: each stands
/// whole in the new text, where it stood if it lies before the position and
/// further back by the length of the piece taken out if it lies after it.
pub proof fn lemma_removed_keeps_pieces(parts: Seq<Seq<char>>, at: int, j: int)
    requires
        0 <= j < parts.len(),
        j != at,
    ensures
        stands_at(
            removed(parts, at),
            start_of(parts, j) - if 0 <= at < j {
                parts[at].len() as int
            } else {
                0int
            },
            parts[j],
        ),
{
    let n = parts.len() as int;
    let text = removed(parts, at);
    let piece = parts[j];
    let o = start_of(parts, j);
    if 0 <= at < n {
        if j < at {
            lemma_range_around(parts, 0, j, at);
            assert(text.subrange(o, o + piece.len()) =~= piece);
        } else {
            lemma_range_around(parts, at + 1, j, n);
            lemma_range_around(parts, 0, at, j);
            let back = o - parts[at].len();
            assert(text.subrange(back, back + piece.len()) =~= piece);
        }
    } else {
        lemma_range_around(parts, 0, j, n);
        assert(parts.subrange(0, n) =~= parts);
        assert(text.subrange(o, o + piece.len()) =~= piece);
    }
}

/// The piece at position `p` is one character long and starts at `offset`.
pub open spec fn alone_at(parts: Seq<Seq<char>>, p: int, offset: int) -> bool {
    &&& 0 <= p < parts.len()
    &&& parts[p].len() == 1
    &&& start_of(parts, p) == offset
}

/// The piece after the piece at `i` starts where that piece ends.
pub proof fn lemma_start_of_next(parts: Seq<Seq<char>>, i: int)
    requires
        0 <= i < parts.len(),
    ensures
        start_of(parts, i + 1) == start_of(parts, i) + parts[i].len(),
{
    assert(parts.subrange(0, i + 1) =~= parts.subrange(0, i).push(parts[i]));
    parts.subrange(0, i).lemma_flatten_push(parts[i]);
}

/// A later piece starts no earlier than an earlier one.
pub proof fn lemma_start_of_grows(parts: Seq<Seq<char>>, i: int, j: int)
    requires
        0 <= i <= j <= parts.len(),
    ensures
        start_of(parts, i) <= start_of(parts, j),
    decreases j - i,
{
    if i < j {
        lemma_start_of_next(parts, j - 1);
        lemma_start_of_grows(parts, i, j - 1);
    }
}

/// Joins the pieces `parts[from..to]` into one string.
pub fn join_range(parts: &Vec<String>, from: usize, to: usize) -> (text: String)
    requires
        from <= to <= parts.len(),
    ensures
        text@ == parts.deep_view().subrange(from as int, to as int).flatten(),
{
    let mut text = String::new();
    let mut i: usize = from;
    while i < to
        invariant
            from <= i <= to <= parts.len(),
            text@ == parts.deep_view().subrange(from as int, i as int).flatten(),
        decreases to - i,
    {
        proof {
            let dv = parts.deep_view();
            assert(dv.subrange(from as int, i + 1) =~= dv.subrange(from as int, i as int).push(
                dv[i as int],
            ));
            dv.subrange(from as int, i as int).lemma_flatten_push(dv[i as int]);
        }
        text.append(parts[i].as_str());
        i += 1;
    }
    text
}

/// The text of `parts` cut after the first `at` pieces: what comes before
/// the cut and what comes after it.
pub fn split_parts(parts: &Vec<String>, at: usize) -> (halves: (String, String))
    ensures
        halves.0@ == head(parts.deep_view(), at as int),
        halves.1@ == tail(parts.deep_view(), at as int),
{
    let cut = if at < parts.len() { at } else { parts.len() };
    (join_range(parts, 0, cut), join_range(parts, cut, parts.len()))
}

/// The text of `parts` with `c` put in before the piece at position `at`, or
/// at the end when there is no such piece.
pub fn insert_char(parts: &Vec<String>, at: usize, c: char) -> (text: String)
    ensures
        text@ == spliced(parts.deep_view(), at as int, c),
{
    let (mut text, remainder) = split_parts(parts, at);
    push_char(&mut text, c);
    text.append(remainder.as_str());
    text
}

/// The text of `parts` without the piece at position `at`, or all of it
/// when there is no such piece.
pub fn remove_part(parts: &Vec<String>, at: usize) -> (text: String)
    ensures
        text@ == removed(parts.deep_view(), at as int),
{
    if at < parts.len() {
        let mut text = join_range(parts, 0, at);
        let remainder = join_range(parts, at + 1, parts.len());
        text.append(remainder.as_str());
        text
    } else {
        proof {
            assert(parts.deep_view().subrange(0, parts.len() as int) =~= parts.deep_view());
        }
        join_range(parts, 0, parts.len())
    }
}

/// What the pieces from position `start` up to position `end` look like on
/// screen, each tab shown as two spaces.
pub fn render_parts(parts: &Vec<String>, start: usize, end: usize) -> (out: String)
    ensures
        out@ == shown_range(parts.deep_view(), start as int, end as int),
{
    let to = if end < parts.len() { end } else { parts.len() };
    let from = if start < to { start } else { to };
    let tab = String::from_str("\t");
    let mut out = String::new();
    let mut i: usize = from;
    proof {
        reveal_strlit("\t");
        reveal_strlit("  ");
        assert("\t"@ =~= seq!['\t']);
        assert("  "@ =~= seq![' ', ' ']);
    }
    while i < to
        invariant
            from <= i <= to <= parts.len(),
            tab@ == seq!['\t'],
            "  "@ == seq![' ', ' '],
            out@ == parts.deep_view().subrange(from as int, i as int).map_values(
                |part: Seq<char>| shown(part),
            ).flatten(),
        decreases to - i,
    {
        proof {
            let dv = parts.deep_view();
            let f = |part: Seq<char>| shown(part);
            assert(dv.subrange(from as int, i + 1).map_values(f) =~= dv.subrange(
                from as int,
                i as int,
            ).map_values(f).push(shown(dv[i as int])));
            dv.subrange(from as int, i as int).map_values(f).lemma_flatten_push(
                shown(dv[i as int]),
            );
        }
        if parts[i].eq(&tab) {
            out.append("  ");
        } else {
            out.append(parts[i].as_str());
        }
        i += 1;
    }
    out
}

/// The position of a piece of `parts` that is one character long and starts
/// at character `offset` of their text, if there is such a piece.
pub fn lone_position(parts: &Vec<String>, offset: usize) -> (found: Option<usize>)
    ensures
        match found {
            Some(p) => alone_at(parts.deep_view(), p as int, offset as int),
            None => forall|p: int| !alone_at(parts.deep_view(), p, offset as int),
        },
{
    let ghost dv = parts.deep_view();
    let mut start: usize = 0;
    let mut i: usize = 0;
    assert(dv.subrange(0, 0) =~= Seq::<Seq<char>>::empty());
    while i < parts.len()
        invariant
            dv == parts.deep_view(),
            i <= parts.len(),
            start == start_of(dv, i as int),
            start <= offset,
            forall|p: int| 0 <= p < i ==> !alone_at(dv, p, offset as int),
        decreases parts.len() - i,
    {
        let len = parts[i].as_str().unicode_len();
        proof {
            lemma_start_of_next(dv, i as int);
        }
        if start == offset && len == 1 {
            return Some(i);
        }
        if len > offset - start {
            proof {
                assert forall|p: int| !alone_at(dv, p, offset as int) by {
                    if i < p < dv.len() {
                        lemma_start_of_grows(dv, i + 1, p);
                    }
                }
            }
            return None;
        }
        start += len;
        i += 1;
    }
    None
}

} // verus!
