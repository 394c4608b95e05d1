//! Trusted view of the Unicode primitives the wrapper and the widgets
//! measure text with: extended grapheme clusters and display widths.
use vstd::prelude::*;
use unicode_segmentation::UnicodeSegmentation;
use unicode_width::UnicodeWidthStr;

verus! {

/// The display width of one character, as unicode_width reports it.
pub uninterp spec fn char_width(c: char) -> nat;

/// The extended grapheme clusters of a string, in order.
pub uninterp spec fn graphemes(s: Seq<char>) -> Seq<Seq<char>>;

/// The display width of a string: the sum of the widths of its characters.
pub open spec fn text_width(s: Seq<char>) -> nat
    decreases s.len(),
{
    if s.len() == 0 {
        0
    } else {
        char_width(s[0]) + text_width(s.drop_first())
    }
}

/// The concatenation of a sequence of character sequences.
pub open spec fn concat_all(gs: Seq<Seq<char>>) -> Seq<char>
    decreases gs.len(),
{
    if gs.len() == 0 {
        Seq::empty()
    } else {
        gs[0] + concat_all(gs.drop_first())
    }
}

/// Relies on unicode_width's `UnicodeWidthStr::width`: in the version this
/// crate pins, the width of a string is the sum of the widths of its
/// characters, and each character is at most two columns wide.
#[verifier::external_body]
pub(crate) fn display_width(s: &str) -> (r: usize)
    ensures
        r == text_width(s@),
        r <= 2 * s@.len(),
        s@.len() == 1 ==> r == char_width(s@[0]),
{
    UnicodeWidthStr::width(s)
}

/// Relies on unicode_segmentation's `graphemes(true)`: the extended grapheme
/// clusters of a string, whose concatenation is the original string and none
/// of which is empty.
#[verifier::external_body]
pub(crate) fn grapheme_clusters(s: &str) -> (r: Vec<String>)
    ensures
        r@.map_values(|g: String| g@) == graphemes(s@),
        concat_all(r@.map_values(|g: String| g@)) == s@,
        forall|i: int| 0 <= i < r@.len() ==> r@[i]@.len() > 0,
        s@.len() == 0 ==> r@.len() == 0,
{
    s.graphemes(true).map(|g| g.to_owned()).collect()
}

/// Width distributes over concatenation: a string is as wide as its parts.
pub proof fn lemma_text_width_concat(a: Seq<char>, b: Seq<char>)
    ensures
        text_width(a + b) == text_width(a) + text_width(b),
    decreases a.len(),
{
    if a.len() == 0 {
        assert(a + b =~= b);
    } else {
        assert((a + b).drop_first() =~= a.drop_first() + b);
        lemma_text_width_concat(a.drop_first(), b);
    }
}

} // verus!
