//! A subsequence relation on character sequences.
//!
//! It states what terminal decoration may do to a text: insert escape
//! sequences around and inside it, but never delete or alter the text
//! itself. The contracts of the coloured rendering functions promise the
//! plain report as a subsequence of the decorated one.

use vstd::prelude::*;

verus! {

/// Whether `f` embeds `xs` into `ys`: a strictly increasing choice of one
/// position in `ys` for each character of `xs`, reading back that
/// character.
pub open spec fn is_embedding(f: Seq<int>, xs: Seq<char>, ys: Seq<char>) -> bool {
    &&& f.len() == xs.len()
    &&& forall|i: int|
        0 <= i < f.len() ==> 0 <= #[trigger] f[i] < ys.len() && ys[f[i]] == xs[i]
    &&& forall|i: int, j: int| 0 <= i < j < f.len() ==> #[trigger] f[i] < #[trigger] f[j]
}

/// Whether `xs` can be read within `ys` in order: `ys` is `xs` with
/// arbitrary insertions, and nothing of `xs` deleted or altered.
pub open spec fn is_subseq(xs: Seq<char>, ys: Seq<char>) -> bool {
    exists|f: Seq<int>| is_embedding(f, xs, ys)
}

/// Every sequence is a subsequence of itself.
pub proof fn lemma_subseq_refl(xs: Seq<char>)
    ensures
        is_subseq(xs, xs),
{
    let f = Seq::new(xs.len(), |i: int| i);
    assert(is_embedding(f, xs, xs));
}

/// Subsequences concatenate: reading `a` within `x` and `b` within `y`
/// reads `a + b` within `x + y`.
pub proof fn lemma_subseq_concat(a: Seq<char>, b: Seq<char>, x: Seq<char>, y: Seq<char>)
    requires
        is_subseq(a, x),
        is_subseq(b, y),
    ensures
        is_subseq(a + b, x + y),
{
    let f = choose|f: Seq<int>| is_embedding(f, a, x);
    let g = choose|g: Seq<int>| is_embedding(g, b, y);
    let h = f + g.map_values(|v: int| v + x.len() as int);
    assert forall|i: int|
        0 <= i < h.len() implies 0 <= #[trigger] h[i] < (x + y).len() && (x + y)[h[i]] == (a
        + b)[i] by {
        if i < f.len() {
            assert(h[i] == f[i]);
        } else {
            assert(h[i] == g[i - f.len()] + x.len());
            assert(0 <= g[i - f.len()] < y.len());
        }
    }
    assert forall|i: int, j: int| 0 <= i < j < h.len() implies #[trigger] h[i] < #[trigger] h[j] by {
        if j < f.len() {
        } else if i < f.len() {
            assert(h[i] == f[i] && f[i] < x.len());
            assert(h[j] == g[j - f.len()] + x.len() && 0 <= g[j - f.len()]);
        } else {
            assert(h[i] == g[i - f.len()] + x.len());
            assert(h[j] == g[j - f.len()] + x.len());
            assert(g[i - f.len()] < g[j - f.len()]);
        }
    }
    assert(is_embedding(h, a + b, x + y));
}

} // verus!
