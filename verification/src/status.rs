//! The text of the status bar: the name of the file, the number of its
//! lines and whether it was changed on the left, the row of the cursor on
//! the right.

use crate::strings::push_char;
use crate::terminal::blanks;
use vstd::prelude::*;
use vstd::string::{StringExecFns, StringSliceAdditionalSpecFns};
use vstd::utf8::{decode_utf8, encode_utf8, is_char_boundary};

verus! {

broadcast use {
    vstd::utf8::encode_utf8_valid_utf8,
    vstd::utf8::encode_utf8_decode_utf8,
    vstd::utf8::is_char_boundary_start_end_of_seq,
};

/// The most bytes of a file name that the status bar shows.
pub const NAME_BYTES: usize = 20;

/// The number of bytes that `text` takes as UTF-8.
pub open spec fn byte_len(text: Seq<char>) -> nat {
    encode_utf8(text).len()
}

/// The largest index up to `max` at which `bytes` can be cut without
/// cutting a character in two.
pub open spec fn floor_boundary(bytes: Seq<u8>, max: int) -> int
    decreases max,
{
    if max <= 0 {
        0
    } else if max >= bytes.len() {
        bytes.len() as int
    } else if is_char_boundary(bytes, max) {
        max
    } else {
        floor_boundary(bytes, max - 1)
    }
}

/// The longest start of `text` that takes at most `max` bytes as UTF-8.
pub open spec fn cut_text(text: Seq<char>, max: int) -> Seq<char> {
    let bytes = encode_utf8(text);
    decode_utf8(bytes.subrange(0, floor_boundary(bytes, max)))
}

/// The decimal digit for `d`.
pub open spec fn digit(d: int) -> char {
    seq!['0', '1', '2', '3', '4', '5', '6', '7', '8', '9'][d]
}

/// `n` in decimal digits, without leading zeros.
pub open spec fn digits(n: nat) -> Seq<char>
    decreases n,
{
    if n < 10 {
        seq![digit(n as int)]
    } else {
        digits(n / 10).push(digit((n % 10) as int))
    }
}

/// The left part of the status bar: the name, cut to `NAME_BYTES` bytes, or
/// a stand-in for a document without one; the number of lines; and a mark
/// if the document has unsaved changes.
pub open spec fn status_left(name: Option<Seq<char>>, rows: nat, dirty: bool) -> Seq<char> {
    let shown = match name {
        Some(name) => cut_text(name, NAME_BYTES as int),
        None => "[No Name]"@,
    };
    shown + " - "@ + digits(rows) + " lines"@ + (if dirty {
        "(modified)"@
    } else {
        Seq::<char>::empty()
    })
}

/// The right part of the status bar: the row of the cursor, counted from 1,
/// and the number of lines.
pub open spec fn status_right(rows: nat, cursor_row: usize) -> Seq<char> {
    let row: nat = if cursor_row == usize::MAX {
        cursor_row as nat
    } else {
        (cursor_row + 1) as nat
    };
    digits(row) + "/"@ + digits(rows)
}

/// The status bar for a window of `width` columns: the left part, then
/// blanks so that both parts together take `width` bytes where they are
/// shorter, then the right part; and all of it cut to `width` bytes.
pub open spec fn status_text(
    name: Option<Seq<char>>,
    rows: nat,
    dirty: bool,
    cursor_row: usize,
    width: usize,
) -> Seq<char> {
    let left = status_left(name, rows, dirty);
    let right = status_right(rows, cursor_row);
    let len = byte_len(left) + byte_len(right);
    let gap = if width > len {
        width - len
    } else {
        0
    };
    cut_text(left + blanks(gap) + right, width as int)
}

/// The longest start of `text` that takes at most `max` bytes.
pub fn cut(text: &str, max: usize) -> (head: &str)
    ensures
        head@ == cut_text(text@, max as int),
{
    let ghost bytes = text.spec_bytes();
    let n = text.as_bytes().len();
    if max >= n {
        assert(bytes.subrange(0, n as int) =~= bytes);
        return text;
    }
    let mut k: usize = max;
    while !text.is_char_boundary(k)
        invariant
            bytes == encode_utf8(text@),
            k <= max < n == bytes.len(),
            floor_boundary(bytes, max as int) == floor_boundary(bytes, k as int),
        decreases k,
    {
        k -= 1;
    }
    let (head, _) = text.split_at(k);
    head
}

/// The digit for `d` as a character.
fn digit_char(d: usize) -> (c: char)
    requires
        d < 10,
    ensures
        c == digit(d as int),
{
    match d {
        0 => '0',
        1 => '1',
        2 => '2',
        3 => '3',
        4 => '4',
        5 => '5',
        6 => '6',
        7 => '7',
        8 => '8',
        _ => '9',
    }
}

/// Writes `n` in decimal digits at the end of `out`.
pub fn push_decimal(out: &mut String, n: usize)
    ensures
        final(out)@ == old(out)@ + digits(n as nat),
    decreases n,
{
    if n >= 10 {
        push_decimal(out, n / 10);
    }
    push_char(out, digit_char(n % 10));
    assert(final(out)@ =~= old(out)@ + digits(n as nat));
}

/// The text of the status bar for a document called `name` that has `rows`
/// lines, with the cursor in row `cursor_row`, in a window of `width`
/// columns.
pub fn status_bar_text(
    name: Option<&str>,
    rows: usize,
    dirty: bool,
    cursor_row: usize,
    width: usize,
) -> (status: String)
    ensures
        status@ == status_text(
            match name {
                Some(name) => Some(name@),
                None => None,
            },
            rows as nat,
            dirty,
            cursor_row,
            width,
        ),
{
    let mut status = match name {
        Some(name) => String::from_str(cut(name, NAME_BYTES)),
        None => String::from_str("[No Name]"),
    };
    status.append(" - ");
    push_decimal(&mut status, rows);
    status.append(" lines");
    if dirty {
        status.append("(modified)");
    }
    let mut line_indicator = String::new();
    push_decimal(&mut line_indicator, cursor_row.saturating_add(1));
    line_indicator.append("/");
    push_decimal(&mut line_indicator, rows);
    let ghost left = status@;
    let ghost right = line_indicator@;
    assert(left =~= status_left(
        match name {
            Some(name) => Some(name@),
            None => None,
        },
        rows as nat,
        dirty,
    ));
    assert(right =~= status_right(rows as nat, cursor_row));
    let left_len = status.as_str().as_bytes().len();
    let right_len = line_indicator.as_str().as_bytes().len();
    let mut gap: usize = 0;
    if left_len <= width && right_len < width - left_len {
        gap = width - left_len - right_len;
    }
    let mut i: usize = 0;
    while i < gap
        invariant
            i <= gap,
            status@ == left + blanks(i as int),
        decreases gap - i,
    {
        push_char(&mut status, ' ');
        assert(blanks(i as int).push(' ') =~= blanks(i + 1));
        assert(status@ =~= left + blanks(i + 1));
        i += 1;
    }
    status.append(line_indicator.as_str());
    String::from_str(cut(status.as_str(), width))
}

} // verus!
