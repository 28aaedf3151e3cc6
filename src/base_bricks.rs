//! The source grid: three piles of four rows by four columns, raided from the
//! top row down. Each cell holds a removable piece.
use crate::common::TargetBrick;
use crate::grid::{count_true, GridView, lemma_count_constant, lemma_count_update, lemma_count_mono};
use crate::random::gen_range_u32;
use rand::rngs::StdRng;
use vstd::prelude::*;

verus! {

pub const BASE_BRICKS_Y: i32 = 630;

pub const BRICKS_HOME_X: i32 = 60;

pub const BRICKS_START_X: i32 = -600;

pub const BRICKS_SPEED: i32 = 2;

pub const BRICK_HEIGHT: u32 = 10;

pub const BRICK_WIDTH: u32 = 15;

pub const PILE_SPACING: i32 = 210;

pub const BRICK_QTY: usize = 48;

pub open spec fn pile_of(id: int) -> int {
    id / 16
}

pub open spec fn row_of(id: int) -> int {
    (id % 16) / 4
}

pub open spec fn col_of(id: int) -> int {
    id % 4
}

/// Row `row` of pile `pile` still holds at least one piece.
pub open spec fn row_has_pieces(filled: Seq<bool>, pile: int, row: int) -> bool {
    let i = pile * 16 + row * 4;
    filled[i] || filled[i + 1] || filled[i + 2] || filled[i + 3]
}

/// `row` is the exposed row of `pile`: the topmost one that holds a piece.
pub open spec fn is_exposed_row(filled: Seq<bool>, pile: int, row: int) -> bool {
    &&& row_has_pieces(filled, pile, row)
    &&& forall|r: int| 0 <= r < row ==> !row_has_pieces(filled, pile, r)
}

/// No two claimed cells sit side by side in a row of a pile.
pub open spec fn no_adjacent_claims(claimed: Seq<bool>) -> bool {
    forall|id: int|
        0 <= id < BRICK_QTY as int && col_of(id) < 3 ==> !(#[trigger] claimed[id] && claimed[id
            + 1])
}

/// Pixel position of a cell when the piles stand at horizontal offset `x`.
pub open spec fn target_of(x: int, id: int) -> TargetBrick {
    TargetBrick {
        x: (x + pile_of(id) * PILE_SPACING + col_of(id) * BRICK_WIDTH) as i32,
        y: (BASE_BRICKS_Y + row_of(id) * BRICK_HEIGHT) as i32,
        brick_id: id as usize,
    }
}

pub struct BaseBricks {
    /// Horizontal offset of the piles; below the home offset while they slide in.
    pub x: i32,
    pub filled: Vec<bool>,
    pub targetted: Vec<bool>,
    pub qty_filled: u32,
}

impl View for BaseBricks {
    type V = GridView;

    open spec fn view(&self) -> GridView {
        GridView {
            filled: self.filled@,
            claimed: self.targetted@,
            qty_filled: self.qty_filled as nat,
        }
    }
}

impl BaseBricks {
    pub open spec fn wf(&self) -> bool {
        &&& self.filled@.len() == BRICK_QTY
        &&& self.targetted@.len() == BRICK_QTY
        &&& self.qty_filled == count_true(self.filled@)
        &&& forall|id: int| 0 <= id < BRICK_QTY as int && #[trigger] self.targetted@[id] ==> self.filled@[id]
        &&& no_adjacent_claims(self.targetted@)
        &&& BRICKS_START_X <= self.x <= BRICKS_HOME_X
        &&& self.x % 2 == 0
    }

    /// Cell `id` may be claimed now: the piles are home, the cell holds a piece
    /// in the exposed row of its pile, and neither it nor a neighbour in its row
    /// is claimed.
    pub open spec fn eligible(&self, id: int) -> bool {
        &&& 0 <= id < BRICK_QTY as int
        &&& self.qty_filled > 0
        &&& self.x >= BRICKS_HOME_X
        &&& is_exposed_row(self.filled@, pile_of(id), row_of(id))
        &&& self.filled@[id]
        &&& !self.targetted@[id]
        &&& !(col_of(id) > 0 && self.targetted@[id - 1])
        &&& !(col_of(id) < 3 && self.targetted@[id + 1])
    }

    /// The eligible cells below `n`, in increasing order.
    pub open spec fn candidates_below(&self, n: nat) -> Seq<usize>
        decreases n,
    {
        if n == 0 {
            Seq::empty()
        } else {
            let prev = self.candidates_below((n - 1) as nat);
            if self.eligible(n - 1) {
                prev.push((n - 1) as usize)
            } else {
                prev
            }
        }
    }

    /// The cells a request may hand out, in the order the choice indexes them.
    pub open spec fn candidates(&self) -> Seq<usize> {
        self.candidates_below(BRICK_QTY as nat)
    }

    pub proof fn lemma_candidates_below(&self, n: nat)
        ensures
            self.candidates_below(n).len() <= n,
            forall|i: int|
                0 <= i < self.candidates_below(n).len() ==> (#[trigger] self.candidates_below(
                    n,
                )[i]) < n && self.eligible(self.candidates_below(n)[i] as int),
        decreases n,
    {
        if n > 0 {
            self.lemma_candidates_below((n - 1) as nat);
        }
    }

    pub fn new() -> (r: BaseBricks)
        ensures
            r.wf(),
            r.qty_filled == 0,
            r.x == BRICKS_HOME_X,
            r@.claimed == Seq::new(BRICK_QTY as nat, |i: int| false),
    {
        let r = BaseBricks {
            x: BRICKS_HOME_X,
            filled: vec![false; BRICK_QTY],
            targetted: vec![false; BRICK_QTY],
            qty_filled: 0,
        };
        proof {
            lemma_count_constant(BRICK_QTY as nat, false);
            assert(r.filled@ =~= Seq::new(BRICK_QTY as nat, |i: int| false));
            assert(r.targetted@ =~= Seq::new(BRICK_QTY as nat, |i: int| false));
        }
        r
    }

    /// Empties the grid; the next `update` fills it again.
    pub fn reset(&mut self)
        ensures
            final(self).wf(),
            final(self).qty_filled == 0,
            final(self).x == old(self).x || final(self).x == BRICKS_HOME_X,
            final(self)@.claimed == Seq::new(BRICK_QTY as nat, |i: int| false),
    {
        self.filled = vec![false; BRICK_QTY];
        self.targetted = vec![false; BRICK_QTY];
        self.qty_filled = 0;
        if self.x < BRICKS_START_X || self.x > BRICKS_HOME_X || self.x % 2 != 0 {
            self.x = BRICKS_HOME_X;
        }
        proof {
            lemma_count_constant(BRICK_QTY as nat, false);
            assert(self.filled@ =~= Seq::new(BRICK_QTY as nat, |i: int| false));
            assert(self.targetted@ =~= Seq::new(BRICK_QTY as nat, |i: int| false));
        }
    }

    /// An empty grid is filled again and slides in from the left; a grid
    /// that is still sliding moves one step towards home.
    pub fn update(&mut self)
        requires
            old(self).wf(),
        ensures
            final(self).wf(),
            old(self).qty_filled == 0 ==> {
                &&& final(self).x == BRICKS_START_X
                &&& final(self)@.filled == Seq::new(BRICK_QTY as nat, |i: int| true)
                &&& final(self)@.claimed == Seq::new(BRICK_QTY as nat, |i: int| false)
                &&& final(self).qty_filled == BRICK_QTY
            },
            old(self).qty_filled != 0 ==> final(self)@ == old(self)@,
            old(self).qty_filled != 0 && old(self).x < BRICKS_HOME_X ==> final(self).x == old(
                self,
            ).x + BRICKS_SPEED,
            old(self).qty_filled != 0 && old(self).x >= BRICKS_HOME_X ==> final(self).x == old(
                self,
            ).x,
    {
        if self.qty_filled == 0 {
            self.x = BRICKS_START_X;
            self.filled = vec![true; BRICK_QTY];
            self.targetted = vec![false; BRICK_QTY];
            self.qty_filled = BRICK_QTY as u32;
            proof {
                lemma_count_constant(BRICK_QTY as nat, true);
                assert(self.filled@ =~= Seq::new(BRICK_QTY as nat, |i: int| true));
                assert(self.targetted@ =~= Seq::new(BRICK_QTY as nat, |i: int| false));
            }
        } else if self.x < BRICKS_HOME_X {
            self.x += BRICKS_SPEED;
        }
    }

    fn row_has_bricks(&self, pile: usize, row: usize) -> (r: bool)
        requires
            self.wf(),
            pile < 3,
            row < 4,
        ensures
            r == row_has_pieces(self.filled@, pile as int, row as int),
    {
        let i = pile * 16 + row * 4;
        self.filled[i] || self.filled[i + 1] || self.filled[i + 2] || self.filled[i + 3]
    }

    /// The exposed row of a pile, if any row of it holds a piece.
    fn exposed_row(&self, pile: usize) -> (r: Option<usize>)
        requires
            self.wf(),
            pile < 3,
        ensures
            r matches Some(row) ==> row < 4 && is_exposed_row(self.filled@, pile as int, row as int),
            r is None ==> forall|row: int| 0 <= row < 4 ==> !row_has_pieces(self.filled@, pile as int, row),
    {
        let mut row: usize = 0;
        while row < 4
            invariant
                self.wf(),
                pile < 3,
                row <= 4,
                forall|r: int| 0 <= r < row ==> !row_has_pieces(self.filled@, pile as int, r),
            decreases 4 - row,
        {
            if self.row_has_bricks(pile, row) {
                return Some(row);
            }
            row += 1;
        }
        None
    }

    fn is_eligible(&self, id: usize) -> (r: bool)
        requires
            self.wf(),
            id < BRICK_QTY,
        ensures
            r == self.eligible(id as int),
    {
        if self.qty_filled == 0 || self.x < BRICKS_HOME_X {
            return false;
        }
        let col = id % 4;
        let exposed = self.exposed_row(id / 16);
        match exposed {
            None => false,
            Some(row) => {
                row == (id % 16) / 4 && self.filled[id] && !self.targetted[id] && !(col > 0
                    && self.targetted[id - 1]) && !(col < 3 && self.targetted[id + 1])
            },
        }
    }

    /// The cells that a request may hand out now, in increasing order.
    pub fn target_candidates(&self) -> (r: Vec<usize>)
        requires
            self.wf(),
        ensures
            r@ == self.candidates(),
    {
        let mut list: Vec<usize> = Vec::new();
        let mut id: usize = 0;
        while id < BRICK_QTY
            invariant
                self.wf(),
                id <= BRICK_QTY,
                list@ == self.candidates_below(id as nat),
            decreases BRICK_QTY - id,
        {
            if self.is_eligible(id) {
                list.push(id);
            }
            id += 1;
        }
        list
    }

    /// Hands out a claim on the candidate at position `pick` of
    /// `candidates()`; `None`, with the grid unchanged, where there is none.
    pub fn claim_candidate(&mut self, pick: usize) -> (r: Option<TargetBrick>)
        requires
            old(self).wf(),
        ensures
            final(self).wf(),
            final(self).x == old(self).x,
            pick >= old(self).candidates().len() ==> r is None && final(self)@ == old(self)@,
            pick < old(self).candidates().len() ==> {
                let id = old(self).candidates()[pick as int] as int;
                &&& r == Some(target_of(old(self).x as int, id))
                &&& old(self).eligible(id)
                &&& final(self)@ == old(self)@.claim(id)
            },
    {
        let list = self.target_candidates();
        if pick >= list.len() {
            return None;
        }
        let id = list[pick];
        proof {
            self.lemma_candidates_below(BRICK_QTY as nat);
            assert(self.eligible(id as int));
        }
        let x = self.x + (id / 16) as i32 * PILE_SPACING + (id % 4) as i32 * BRICK_WIDTH as i32;
        let y = BASE_BRICKS_Y + ((id % 16) / 4) as i32 * BRICK_HEIGHT as i32;
        self.targetted.set(id, true);
        Some(TargetBrick { x, y, brick_id: id })
    }

    /// Hands out a claim on a cell chosen uniformly among `candidates()`, or
    /// `None`, with the grid unchanged, where there is no candidate.
    pub fn request_target(&mut self, rng: &mut StdRng) -> (r: Option<TargetBrick>)
        requires
            old(self).wf(),
        ensures
            final(self).wf(),
            final(self).x == old(self).x,
            r is None <==> old(self).candidates().len() == 0,
            r is None ==> final(self)@ == old(self)@,
            r matches Some(t) ==> {
                &&& old(self).candidates().contains(t.brick_id)
                &&& old(self).eligible(t.brick_id as int)
                &&& t == target_of(old(self).x as int, t.brick_id as int)
                &&& final(self)@ == old(self)@.claim(t.brick_id as int)
            },
    {
        let count = self.target_candidates().len();
        proof {
            self.lemma_candidates_below(BRICK_QTY as nat);
        }
        if count == 0 {
            return None;
        }
        let pick = gen_range_u32(rng, 0, count as u32) as usize;
        let r = self.claim_candidate(pick);
        proof {
            if let Some(t) = r {
                assert(old(self).candidates()[pick as int] == t.brick_id);
            }
        }
        r
    }

    /// Takes the piece out of a claimed cell, releasing the claim.
    pub fn take_target(&mut self, brick_id: usize)
        requires
            old(self).wf(),
            brick_id < BRICK_QTY,
            old(self)@.claimed[brick_id as int],
        ensures
            final(self).wf(),
            final(self).x == old(self).x,
            final(self)@ == old(self)@.take(brick_id as int),
            final(self).qty_filled == old(self).qty_filled - 1,
    {
        proof {
            lemma_count_update(self.filled@, brick_id as int, false);
        }
        self.filled.set(brick_id, false);
        self.targetted.set(brick_id, false);
        self.qty_filled -= 1;
    }

    /// Drops the claim on a cell, leaving its piece in place.
    pub fn untarget(&mut self, brick_id: usize)
        requires
            old(self).wf(),
            brick_id < BRICK_QTY,
        ensures
            final(self).wf(),
            final(self).x == old(self).x,
            final(self)@ == old(self)@.release(brick_id as int),
    {
        self.targetted.set(brick_id, false);
    }

    /// Claims outstanding never outnumber the pieces that could be taken.
    pub proof fn law_claims_within_filled(&self)
        requires
            self.wf(),
        ensures
            self@.claim_count() <= self@.qty_filled,
    {
        lemma_count_mono(self.targetted@, self.filled@);
    }

    /// No two claimed cells stand side by side in a row of a pile.
    pub proof fn law_no_adjacent_claims_in_row(&self)
        requires
            self.wf(),
        ensures
            forall|i: int, j: int|
                0 <= i < BRICK_QTY && 0 <= j < BRICK_QTY && #[trigger] self@.claimed[i] && #[trigger] self@.claimed[j]
                    && pile_of(i) == pile_of(j) && row_of(i) == row_of(j) ==> col_of(j) != col_of(i) + 1,
    {
        assert forall|i: int, j: int|
            0 <= i < BRICK_QTY && 0 <= j < BRICK_QTY && #[trigger] self@.claimed[i] && #[trigger] self@.claimed[j]
                && pile_of(i) == pile_of(j) && row_of(i) == row_of(j) implies col_of(j) != col_of(i) + 1 by {
            if col_of(j) == col_of(i) + 1 {
                assert(j == i + 1);
                assert(!(self.targetted@[i] && self.targetted@[i + 1]));
            }
        }
    }

    /// A claimed cell's neighbours in its row are never offered, whatever
    /// else is on offer.
    pub proof fn law_claimed_neighbours_not_offered(&self, id: int)
        requires
            self.wf(),
            0 <= id < BRICK_QTY,
            self@.claimed[id],
        ensures
            col_of(id) < 3 ==> !self.candidates().contains((id + 1) as usize),
            col_of(id) > 0 ==> !self.candidates().contains((id - 1) as usize),
    {
        self.lemma_candidates_below(BRICK_QTY as nat);
        if col_of(id) < 3 && self.candidates().contains((id + 1) as usize) {
            let k = choose|k: int| 0 <= k < self.candidates().len() && self.candidates()[k] == (id + 1) as usize;
            assert(self.eligible(id + 1));
        }
        if col_of(id) > 0 && self.candidates().contains((id - 1) as usize) {
            let k = choose|k: int| 0 <= k < self.candidates().len() && self.candidates()[k] == (id - 1) as usize;
            assert(self.eligible(id - 1));
        }
    }
}

} // verus!
