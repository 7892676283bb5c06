//! The file format: text cut into lines at line feeds, and lines written
//! back out, each followed by a line feed.

use crate::strings::push_char;
use vstd::prelude::*;
use vstd::std_specs::iter::IteratorSpec;
use vstd::utf8::encode_utf8;

verus! {

/// The index of the first line feed in `text`, or its length when it holds
/// none.
pub open spec fn line_end(text: Seq<char>) -> int
    decreases text.len(),
{
    if text.len() == 0 || text[0] == '\n' {
        0
    } else {
        1 + line_end(text.drop_first())
    }
}

/// `line` without a carriage return at its end.
pub open spec fn without_cr(line: Seq<char>) -> Seq<char> {
    if line.len() > 0 && line.last() == '\r' {
        line.drop_last()
    } else {
        line
    }
}

/// The lines of `text`.
///
/// A line ends at a line feed, or at a carriage return directly followed by
/// one; neither belongs to the line. What follows the last line feed is a
/// line too unless it is empty, so a final line feed adds no empty line, and
/// an empty text has no lines. A carriage return that no line feed follows
/// stays in its line.
pub open spec fn split_lines(text: Seq<char>) -> Seq<Seq<char>>
    decreases text.len(),
{
    let end = line_end(text);
    if text.len() == 0 {
        Seq::empty()
    } else if !(0 <= end < text.len()) {
        seq![text]
    } else {
        seq![without_cr(text.subrange(0, end))] + split_lines(
            text.subrange(end + 1, text.len() as int),
        )
    }
}

/// What is written to the file for `lines`: each line as UTF-8, followed by
/// one line feed.
pub open spec fn file_bytes(lines: Seq<Seq<char>>) -> Seq<u8> {
    lines.map_values(|line: Seq<char>| encode_utf8(line).push(0x0au8)).flatten()
}

/// `end` is the first line feed of `text`, or its length if it holds none.
pub proof fn lemma_line_end(text: Seq<char>, end: int)
    requires
        0 <= end <= text.len(),
        forall|j: int| 0 <= j < end ==> text[j] != '\n',
        end < text.len() ==> text[end] == '\n',
    ensures
        line_end(text) == end,
    decreases text.len(),
{
    if text.len() != 0 && text[0] != '\n' {
        let rest = text.drop_first();
        assert forall|j: int| 0 <= j < end - 1 implies rest[j] != '\n' by {
            assert(rest[j] == text[j + 1]);
        }
        lemma_line_end(rest, end - 1);
    }
}

/// Cuts `contents` into its lines.
pub fn lines_of(contents: &str) -> (lines: Vec<String>)
    ensures
        lines.deep_view() == split_lines(contents@),
{
    let mut lines: Vec<String> = Vec::new();
    let mut current = String::new();
    let mut held_cr = false;
    let ghost text = contents@;
    let ghost start: int = 0;
    assert(text.subrange(0, text.len() as int) =~= text);
    assert(lines.deep_view() =~= Seq::<Seq<char>>::empty());
    for c in iter: contents.chars()
        invariant
            iter.seq() == text,
            0 <= start <= iter.index() <= text.len(),
            forall|j: int| start <= j < iter.index() ==> text[j] != '\n',
            text.subrange(start, iter.index() as int) == current@ + (if held_cr {
                seq!['\r']
            } else {
                Seq::<char>::empty()
            }),
            !held_cr ==> current@.len() == 0 || current@.last() != '\r',
            split_lines(text) == lines.deep_view() + split_lines(
                text.subrange(start, text.len() as int),
            ),
    {
        let ghost i = iter.index() as int;
        let ghost rest = text.subrange(start, text.len() as int);
        let ghost logical = text.subrange(start, i);
        assert(text.subrange(start, i + 1) =~= logical.push(c));
        if c == '\n' {
            proof {
                lemma_line_end(rest, i - start);
                assert(rest.subrange(0, i - start) =~= logical);
                assert(rest.subrange(i - start + 1, rest.len() as int) =~= text.subrange(
                    i + 1,
                    text.len() as int,
                ));
                if held_cr {
                    assert(logical.drop_last() =~= current@);
                } else {
                    assert(logical =~= current@);
                }
                assert(without_cr(logical) == current@);
                assert(lines.deep_view().push(current@) + split_lines(
                    text.subrange(i + 1, text.len() as int),
                ) =~= lines.deep_view() + split_lines(rest));
            }
            let ghost before = lines.deep_view();
            lines.push(current);
            assert(lines.deep_view() =~= before.push(current@));
            current = String::new();
            held_cr = false;
            proof {
                start = i + 1;
                assert(text.subrange(start, i + 1) =~= Seq::<char>::empty());
            }
        } else {
            if held_cr {
                push_char(&mut current, '\r');
            }
            if c == '\r' {
                held_cr = true;
            } else {
                push_char(&mut current, c);
                held_cr = false;
            }
            assert(text.subrange(start, i + 1) =~= current@ + (if held_cr {
                seq!['\r']
            } else {
                Seq::<char>::empty()
            }));
        }
    }
    let ghost rest = text.subrange(start, text.len() as int);
    if held_cr {
        push_char(&mut current, '\r');
    }
    assert(current@ =~= rest);
    if current.as_str().is_empty() {
        assert(lines.deep_view() + split_lines(rest) =~= lines.deep_view());
    } else {
        proof {
            lemma_line_end(rest, rest.len() as int);
            assert(lines.deep_view().push(rest) =~= lines.deep_view() + split_lines(rest));
        }
        let ghost before = lines.deep_view();
        lines.push(current);
        assert(lines.deep_view() =~= before.push(rest));
    }
    lines
}

} // verus!
