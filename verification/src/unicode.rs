//! Grapheme clusters and display widths, from `unicode-segmentation` and `ratatui-core`.

use vstd::prelude::*;
use unicode_segmentation::UnicodeSegmentation;
use crate::text::views;
use vstd::seq_lib::lemma_flatten_concat;

verus! {

/// The extended grapheme clusters of `s`, in order, as
/// `UnicodeSegmentation::graphemes(s, true)` yields them.
pub uninterp spec fn graphemes_of(s: Seq<char>) -> Seq<Seq<char>>;

/// The display width of `s` in terminal columns, as `ratatui_core::text::Line::from(s).width()`
/// computes it.
pub uninterp spec fn width_of(s: Seq<char>) -> usize;

/// The number of grapheme clusters of `s`.
pub open spec fn grapheme_count(s: Seq<char>) -> nat {
    graphemes_of(s).len()
}

/// Calls `UnicodeSegmentation::graphemes(s, true)` and collects the clusters. The result is the
/// named segmentation of `s`; as the iterator in unicode-segmentation yields the slices between
/// consecutive boundaries from the start of `s` to its end, the clusters are non-empty and
/// together spell `s`.
#[verifier::external_body]
pub(crate) fn grapheme_clusters(s: &str) -> (res: Vec<String>)
    ensures
        views(res@) == graphemes_of(s@),
        views(res@).flatten() == s@,
        forall|i: int| 0 <= i < res@.len() ==> #[trigger] res@[i]@.len() > 0,
{
    s.graphemes(true).map(String::from).collect()
}

/// Calls `ratatui_core::text::Line::from(s).width()`; the result is the named width of `s`.
#[verifier::external_body]
pub(crate) fn display_width(s: &str) -> (w: usize)
    ensures
        w == width_of(s@),
{
    ratatui_core::text::Line::from(s).width()
}

} // verus!

verus! {

/// The characters before the cluster at index `j` never outnumber those before the cluster
/// at index `k >= j`, nor the whole string.
pub proof fn lemma_prefix_lengths(g: Seq<Seq<char>>, j: int, k: int)
    requires
        0 <= j <= k <= g.len(),
    ensures
        g.take(j).flatten().len() <= g.take(k).flatten().len() <= g.flatten().len(),
{
    lemma_flatten_concat(g.take(j), g.subrange(j, k));
    assert(g.take(j) + g.subrange(j, k) =~= g.take(k));
    lemma_flatten_concat(g.take(k), g.skip(k));
    assert(g.take(k) + g.skip(k) =~= g);
}

} // verus!
