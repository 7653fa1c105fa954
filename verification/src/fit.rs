//! Fitting a status label into a number of columns by keeping its end.

use vstd::prelude::*;
use crate::text::{push_char, views};
use vstd::seq_lib::lemma_flatten_concat;
use crate::unicode::{display_width, grapheme_clusters, graphemes_of, width_of};

verus! {

/// The ellipsis that stands for the dropped beginning of a label.
pub open spec fn ellipsis() -> char {
    '\u{2026}'
}

/// Dropping clusters from the front: `remaining` is the width still counted after the
/// clusters before `k` were dropped; the first cluster whose removal brings it under
/// `columns` is the last one dropped.
pub open spec fn fit_scan(gs: Seq<Seq<char>>, columns: int, k: int, remaining: int) -> Seq<char>
    decreases gs.len() - k,
{
    if k < 0 || k >= gs.len() {
        seq![ellipsis()]
    } else {
        let rest = remaining - width_of(gs[k]) as int;
        if rest < columns {
            seq![ellipsis()] + gs.skip(k + 1).flatten()
        } else {
            fit_scan(gs, columns, k + 1, rest)
        }
    }
}

/// The label as shown in `columns` columns: empty for no columns, the whole label when it
/// fits, else an ellipsis followed by the longest run of whole trailing clusters found by
/// [`fit_scan`].
pub open spec fn fitted(label: Seq<char>, columns: nat) -> Seq<char> {
    if columns == 0 {
        Seq::empty()
    } else if width_of(label) <= columns {
        label
    } else {
        fit_scan(graphemes_of(label), columns as int, 0, width_of(label) as int)
    }
}

/// Keep the end of a status label readable without splitting a display grapheme.
pub fn fit_suffix(label: &str, columns: u16) -> (res: String)
    ensures
        res@ == fitted(label@, columns as nat),
        columns == 0 ==> res@.len() == 0,
        columns > 0 ==> res@ == label@ || exists|m: int|
            0 <= m <= label@.len() && res@ == seq![ellipsis()] + label@.skip(m),
{
    if columns == 0 {
        return String::new();
    }
    let mut width = display_width(label);
    if width <= columns as usize {
        return String::from_str(label);
    }
    let gs = grapheme_clusters(label);
    let ghost g = views(gs@);
    let n = gs.len();
    let mut k: usize = 0;
    while k < n
        invariant
            n == gs@.len(),
            g == views(gs@),
            g == graphemes_of(label@),
            g.flatten() == label@,
            columns > 0,
            width >= columns,
            k <= n,
            fitted(label@, columns as nat) == fit_scan(g, columns as int, k as int, width as int),
        decreases n - k,
    {
        let gw = display_width(gs[k].as_str());
        assert(g[k as int] == gs@[k as int]@);
        if gw > width || width - gw < columns as usize {
            let mut res = String::new();
            push_char(&mut res, '\u{2026}');
            let mut j = k + 1;
            assert(g.subrange(k + 1, j as int) =~= Seq::<Seq<char>>::empty());
            while j < n
                invariant
                    n == gs@.len(),
                    g == views(gs@),
                    k < j <= n,
                    res@ == seq![ellipsis()] + g.subrange(k + 1, j as int).flatten(),
                decreases n - j,
            {
                res.append(gs[j].as_str());
                proof {
                    assert(g.subrange(k + 1, j + 1) =~= g.subrange(k + 1, j as int).push(
                        g[j as int],
                    ));
                    g.subrange(k + 1, j as int).lemma_flatten_push(g[j as int]);
                }
                j += 1;
            }
            assert(g.subrange(k + 1, n as int) =~= g.skip(k + 1));
            proof {
                lemma_flatten_concat(g.take(k + 1), g.skip(k + 1));
                assert(g.take(k + 1) + g.skip(k + 1) =~= g);
                let m = g.take(k + 1).flatten().len() as int;
                assert(label@.skip(m) =~= g.skip(k + 1).flatten());
            }
            return res;
        }
        width = width - gw;
        k += 1;
    }
    let mut res = String::new();
    push_char(&mut res, '\u{2026}');
    assert(res@ =~= seq![ellipsis()] + label@.skip(label@.len() as int));
    res
}

} // verus!
