//! The measures of the terminal window that the editor draws into, and the
//! text of rows that are laid out by them.

use crate::strings::push_char;
use vstd::prelude::*;
use vstd::string::{StringExecFns, StringSliceAdditionalSpecFns};

verus! {

/// The rows at the foot of the terminal that are kept for the status bar and
/// the message bar.
pub const BAR_ROWS: u16 = 2;

/// The extent of the text area, in columns and rows.
#[derive(Clone, Copy, Debug, PartialEq, Eq, Structural)]
pub struct Size {
    pub width: u16,
    pub height: u16,
}

/// The number of blanks that stand between the prefix and a text of
/// `text_bytes` bytes, so that the text sits in the middle of `width`
/// columns: half of the room that the text leaves, less one for the prefix.
pub open spec fn left_padding(width: int, text_bytes: int) -> int {
    let room = if width > text_bytes {
        width - text_bytes
    } else {
        0
    };
    if room / 2 > 0 {
        room / 2 - 1
    } else {
        0
    }
}

/// `n` blanks.
pub open spec fn blanks(n: int) -> Seq<char> {
    Seq::new(n as nat, |i: int| ' ')
}

impl Size {
    /// The text area of a terminal of `width` columns and `height` rows:
    /// all of it but the rows kept for the bars.
    pub fn for_terminal(width: u16, height: u16) -> (size: Size)
        requires
            height >= BAR_ROWS,
        ensures
            size == (Size { width, height: (height - BAR_ROWS) as u16 }),
    {
        Size { width, height: height - BAR_ROWS }
    }

    /// The row that shows `text` in the middle of the window, after
    /// `prefix` and the blanks that `left_padding` counts.
    pub fn centered_text(&self, prefix: &str, text: &str) -> (row: String)
        ensures
            row@ == prefix@ + blanks(left_padding(self.width as int, text.spec_bytes().len() as int))
                + text@,
    {
        let width = self.width as usize;
        let len = text.as_bytes().len();
        let padding = width.saturating_sub(len) / 2;
        let spaces = padding.saturating_sub(1);
        let mut row = String::from_str(prefix);
        let mut i: usize = 0;
        while i < spaces
            invariant
                i <= spaces,
                row@ == prefix@ + blanks(i as int),
            decreases spaces - i,
        {
            push_char(&mut row, ' ');
            assert(blanks(i as int).push(' ') =~= blanks(i + 1));
            assert(row@ =~= prefix@ + blanks(i + 1));
            i += 1;
        }
        row.append(text);
        row
    }
}

} // verus!
