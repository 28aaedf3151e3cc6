//! What the two brick grids share: the abstract state of a grid of cells
//! that may be filled and claimed, and counting over it.
use vstd::prelude::*;

verus! {

/// Number of `true` entries of a sequence.
pub open spec fn count_true(s: Seq<bool>) -> nat
    decreases s.len(),
{
    if s.len() == 0 {
        0
    } else {
        count_true(s.drop_last()) + if s.last() {
            1nat
        } else {
            0nat
        }
    }
}

/// The abstract state of a brick grid: per cell, whether it is filled and
/// whether some agent holds a claim on it, and the number of filled cells.
pub struct GridView {
    pub filled: Seq<bool>,
    pub claimed: Seq<bool>,
    pub qty_filled: nat,
}

impl GridView {
    /// The grid after a claim on cell `id` is handed out.
    pub open spec fn claim(self, id: int) -> GridView {
        GridView { claimed: self.claimed.update(id, true), ..self }
    }

    /// The grid after the claim on cell `id` is dropped, its fill untouched.
    pub open spec fn release(self, id: int) -> GridView {
        GridView { claimed: self.claimed.update(id, false), ..self }
    }

    /// The grid after the piece of cell `id` is taken away.
    pub open spec fn take(self, id: int) -> GridView {
        GridView {
            filled: self.filled.update(id, false),
            claimed: self.claimed.update(id, false),
            qty_filled: (self.qty_filled - 1) as nat,
        }
    }

    /// The grid after a piece is put into cell `id`.
    pub open spec fn fill(self, id: int) -> GridView {
        GridView {
            filled: self.filled.update(id, true),
            claimed: self.claimed.update(id, false),
            qty_filled: self.qty_filled + 1,
        }
    }

    /// Number of cells under a claim.
    pub open spec fn claim_count(self) -> nat {
        count_true(self.claimed)
    }
}

pub proof fn lemma_count_le_len(s: Seq<bool>)
    ensures
        count_true(s) <= s.len(),
    decreases s.len(),
{
    if s.len() > 0 {
        lemma_count_le_len(s.drop_last());
    }
}

pub proof fn lemma_count_update(s: Seq<bool>, i: int, v: bool)
    requires
        0 <= i < s.len(),
    ensures
        count_true(s.update(i, v)) + (if s[i] { 1int } else { 0int }) == count_true(s) + (if v {
            1int
        } else {
            0int
        }),
    decreases s.len(),
{
    let t = s.update(i, v);
    if i == s.len() - 1 {
        assert(t.drop_last() =~= s.drop_last());
    } else {
        assert(t.drop_last() =~= s.drop_last().update(i, v));
        lemma_count_update(s.drop_last(), i, v);
    }
}

pub proof fn lemma_count_constant(n: nat, b: bool)
    ensures
        count_true(Seq::new(n, |i: int| b)) == if b {
            n
        } else {
            0
        },
    decreases n,
{
    if n > 0 {
        assert(Seq::new(n, |i: int| b).drop_last() =~= Seq::new((n - 1) as nat, |i: int| b));
        lemma_count_constant((n - 1) as nat, b);
    }
}

pub proof fn lemma_count_zero(s: Seq<bool>)
    requires
        count_true(s) == 0,
    ensures
        forall|i: int| 0 <= i < s.len() ==> !#[trigger] s[i],
    decreases s.len(),
{
    if s.len() > 0 {
        lemma_count_zero(s.drop_last());
        assert forall|i: int| 0 <= i < s.len() implies !#[trigger] s[i] by {
            if i < s.len() - 1 {
                assert(s[i] == s.drop_last()[i]);
            }
        }
    }
}

/// A pointwise smaller sequence has no more `true` entries.
pub proof fn lemma_count_mono(a: Seq<bool>, b: Seq<bool>)
    requires
        a.len() == b.len(),
        forall|i: int| 0 <= i < a.len() && #[trigger] a[i] ==> b[i],
    ensures
        count_true(a) <= count_true(b),
    decreases a.len(),
{
    if a.len() > 0 {
        lemma_count_mono(a.drop_last(), b.drop_last());
    }
}

/// Counting the `false` entries of a sequence.
pub proof fn lemma_count_negation(a: Seq<bool>)
    ensures
        count_true(a.map_values(|v: bool| !v)) + count_true(a) == a.len(),
    decreases a.len(),
{
    if a.len() > 0 {
        assert(a.map_values(|v: bool| !v).drop_last() =~= a.drop_last().map_values(
            |v: bool| !v,
        ));
        lemma_count_negation(a.drop_last());
    }
}

/// Handing out a claim on an unclaimed cell and releasing it again gives back
/// the grid as it was: the same fill, the same count, the same claimed cells.
pub proof fn law_request_untarget_round_trip(g: GridView, id: int)
    requires
        0 <= id < g.claimed.len(),
        !g.claimed[id],
    ensures
        g.claim(id).release(id) == g,
{
    assert(g.claim(id).release(id).claimed =~= g.claimed);
}

} // verus!
