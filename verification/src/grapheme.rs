//! Grapheme-cluster segmentation: where the library meets the Unicode
//! text-segmentation crate.

use unicode_segmentation::UnicodeSegmentation;
use vstd::prelude::*;

verus! {

/// The extended grapheme clusters of `text`, in order.
///
/// This names what `UnicodeSegmentation::graphemes(text, true)` yields; the
/// boundary rules themselves are those of the segmentation library and are
/// not restated here.
pub uninterp spec fn grapheme_clusters(text: Seq<char>) -> Seq<Seq<char>>;

/// `parts` cuts `text` into consecutive non-empty pieces.
pub open spec fn segments(parts: Seq<Seq<char>>, text: Seq<char>) -> bool {
    &&& parts.flatten() == text
    &&& forall|i: int| 0 <= i < parts.len() ==> (#[trigger] parts[i]).len() > 0
}

/// Splits `text` into its extended grapheme clusters.
///
/// Trusted: calls `UnicodeSegmentation::graphemes` with `is_extended = true`
/// and copies each yielded slice into a `String`. The contract claims that the
/// result is the named segmentation of `text`, and that the iterator walks the
/// string from its start to its end in consecutive non-empty slices, so that
/// the pieces concatenate to `text`.
#[verifier::external_body]
pub(crate) fn graphemes(text: &str) -> (parts: Vec<String>)
    ensures
        parts.deep_view() == grapheme_clusters(text@),
        segments(parts.deep_view(), text@),
{
    text.graphemes(true).map(String::from).collect()
}

/// Pieces that cut an empty text are none at all.
pub proof fn lemma_segments_of_empty(parts: Seq<Seq<char>>)
    requires
        segments(parts, Seq::<char>::empty()),
    ensures
        parts.len() == 0,
{
    if parts.len() > 0 {
        assert(parts.flatten() == parts.first() + parts.drop_first().flatten());
        assert(parts[0].len() > 0);
    }
}

} // verus!
