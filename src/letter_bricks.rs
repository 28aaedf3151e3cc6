//! The destination grid: three letter shapes of six rows, each row a run of
//! cells that spiders fill from the top row down.
use crate::common::TargetBrick;
use crate::grid::{count_true, GridView, lemma_count_constant, lemma_count_le_len, lemma_count_update, lemma_count_mono, lemma_count_negation};
use crate::random::gen_range_u32;
use rand::rngs::StdRng;
use vstd::prelude::*;

verus! {

pub const LETTER_BRICKS_Y: i32 = 140;

pub const LETTER_BRICKS_X: i32 = 97;

pub const BRICK_HEIGHT: u32 = 10;

pub const BRICK_WIDTH: u32 = 15;

pub const BRICKS_QTY: usize = 86;

pub const LETTERS: usize = 3;

pub const LETTER_ROWS: usize = 6;

pub const REMOVE_PERIOD: u32 = 15;

/// Expansion of the finished pattern, in hundredths of its normal size.
pub const EXPANSION_START: u32 = 100;

pub const EXPANSION_TURN: u32 = 145;

/// Grid row of each cell of the layout.
pub open spec fn layout_row(id: int) -> int {
    if id < 20 {
        0
    } else if id < 30 {
        1
    } else if id < 47 {
        2
    } else if id < 64 {
        3
    } else if id < 74 {
        4
    } else {
        5
    }
}

/// Grid column of each cell of the layout: runs of consecutive columns.
pub open spec fn layout_col(id: int) -> int {
    if id < 10 {
        id
    } else if id < 16 {
        id + 1
    } else if id < 18 {
        id + 2
    } else if id < 20 {
        id + 7
    } else if id < 22 {
        id - 20
    } else if id < 24 {
        id - 9
    } else if id < 28 {
        id - 6
    } else if id < 30 {
        id - 3
    } else if id < 38 {
        id - 30
    } else if id < 40 {
        id - 25
    } else if id < 45 {
        id - 22
    } else if id < 47 {
        id - 20
    } else if id < 55 {
        id - 47
    } else if id < 57 {
        id - 42
    } else if id < 59 {
        id - 39
    } else if id < 64 {
        id - 37
    } else if id < 66 {
        id - 64
    } else if id < 68 {
        id - 53
    } else if id < 70 {
        id - 50
    } else if id < 74 {
        id - 47
    } else if id < 76 {
        id - 74
    } else if id < 82 {
        id - 65
    } else if id < 84 {
        id - 64
    } else {
        id - 59
    }
}

/// First cell of the run that row `row` of letter `letter` occupies.
pub open spec fn range_first(letter: int, row: int) -> int {
    if letter == 0 {
        if row == 0 { 0 } else if row == 1 { 20 } else if row == 2 { 30 } else if row == 3 { 47 } else if row == 4 { 64 } else { 74 }
    } else if letter == 1 {
        if row == 0 { 10 } else if row == 1 { 22 } else if row == 2 { 38 } else if row == 3 { 55 } else if row == 4 { 66 } else { 76 }
    } else {
        if row == 0 { 16 } else if row == 1 { 24 } else if row == 2 { 40 } else if row == 3 { 57 } else if row == 4 { 68 } else { 82 }
    }
}

/// Last cell of the run that row `row` of letter `letter` occupies.
pub open spec fn range_last(letter: int, row: int) -> int {
    if letter == 0 {
        if row == 0 { 9 } else if row == 1 { 21 } else if row == 2 { 37 } else if row == 3 { 54 } else if row == 4 { 65 } else { 75 }
    } else if letter == 1 {
        if row == 0 { 15 } else if row == 1 { 23 } else if row == 2 { 39 } else if row == 3 { 56 } else if row == 4 { 67 } else { 81 }
    } else {
        if row == 0 { 19 } else if row == 1 { 29 } else if row == 2 { 46 } else if row == 3 { 63 } else if row == 4 { 73 } else { 85 }
    }
}

/// Pixel position of a cell of the layout.
pub open spec fn letter_target_of(id: int) -> TargetBrick {
    TargetBrick {
        x: (LETTER_BRICKS_X + layout_col(id) * BRICK_WIDTH) as i32,
        y: (LETTER_BRICKS_Y + layout_row(id) * BRICK_HEIGHT) as i32,
        brick_id: id as usize,
    }
}

/// Next size and step of the swelling pattern.
pub open spec fn next_expansion(e: int, step: int) -> (int, int) {
    if e == 0 {
        (0, step)
    } else if e > EXPANSION_TURN {
        (e - 1, -1)
    } else if e < EXPANSION_START {
        (0, 0)
    } else {
        (e + step, step)
    }
}

/// The filled cells of `lo..hi`, highest first.
pub open spec fn filled_desc(filled: Seq<bool>, lo: int, hi: int) -> Seq<usize>
    decreases hi - lo,
{
    if hi <= lo {
        Seq::empty()
    } else {
        let rest = filled_desc(filled, lo + 1, hi);
        if filled[lo] {
            rest.push(lo as usize)
        } else {
            rest
        }
    }
}

pub proof fn lemma_filled_desc_split(filled: Seq<bool>, lo: int, mid: int, hi: int)
    requires
        lo <= mid <= hi,
    ensures
        filled_desc(filled, lo, hi) == filled_desc(filled, mid, hi) + filled_desc(filled, lo, mid),
    decreases mid - lo,
{
    if lo < mid {
        lemma_filled_desc_split(filled, lo + 1, mid, hi);
    }
    assert(filled_desc(filled, lo, hi) =~= filled_desc(filled, mid, hi) + filled_desc(filled, lo, mid));
}

pub proof fn lemma_filled_desc_bounds(filled: Seq<bool>, lo: int, hi: int)
    requires
        0 <= lo,
        hi <= BRICKS_QTY,
    ensures
        filled_desc(filled, lo, hi).len() <= if hi > lo { hi - lo } else { 0 },
        forall|j: int| 0 <= j < filled_desc(filled, lo, hi).len() ==> lo <= #[trigger] filled_desc(filled, lo, hi)[j] < hi,
    decreases hi - lo,
{
    if lo < hi {
        lemma_filled_desc_bounds(filled, lo + 1, hi);
        let rest = filled_desc(filled, lo + 1, hi);
        if filled[lo] {
            assert forall|j: int| 0 <= j < rest.len() + 1 implies lo <= #[trigger] rest.push(lo as usize)[j] < hi by {
                if j < rest.len() {
                    assert(rest.push(lo as usize)[j] == rest[j]);
                }
            }
        }
    }
}

/// Cells `id - 1` and `id` stand side by side in one row.
pub open spec fn adjacent_to_previous(id: int) -> bool {
    0 < id < BRICKS_QTY as int && layout_col(id - 1) + 1 == layout_col(id)
}

/// Cells side by side in a row of the layout have consecutive ids.
pub proof fn lemma_layout_neighbours(i: int, j: int)
    requires
        0 <= i < BRICKS_QTY,
        0 <= j < BRICKS_QTY,
        layout_row(i) == layout_row(j),
        layout_col(j) == layout_col(i) + 1,
    ensures
        j == i + 1,
{
}

/// No two claimed cells sit side by side in a row.
pub open spec fn no_adjacent_claims(claimed: Seq<bool>) -> bool {
    forall|id: int| #[trigger] adjacent_to_previous(id) ==> !(claimed[id - 1] && claimed[id])
}

#[derive(Clone, Copy, PartialEq, Eq, Structural, Debug)]
pub struct LetterBrick {
    pub row: i32,
    pub col: i32,
    pub filled: bool,
    pub targetted: bool,
}

impl LetterBrick {
    pub fn new(row: i32, col: i32) -> (r: LetterBrick)
        ensures
            r.row == row,
            r.col == col,
            !r.filled,
            !r.targetted,
    {
        LetterBrick { row, col, filled: false, targetted: false }
    }
}

/// Row and column of a cell of the layout.
fn layout_position(id: usize) -> (r: (i32, i32))
    requires
        id < BRICKS_QTY,
    ensures
        r.0 == layout_row(id as int),
        r.1 == layout_col(id as int),
{
    let i = id as i32;
    let row: i32 = if i < 20 {
        0
    } else if i < 30 {
        1
    } else if i < 47 {
        2
    } else if i < 64 {
        3
    } else if i < 74 {
        4
    } else {
        5
    };
    let col: i32 = if i < 10 {
        i
    } else if i < 16 {
        i + 1
    } else if i < 18 {
        i + 2
    } else if i < 20 {
        i + 7
    } else if i < 22 {
        i - 20
    } else if i < 24 {
        i - 9
    } else if i < 28 {
        i - 6
    } else if i < 30 {
        i - 3
    } else if i < 38 {
        i - 30
    } else if i < 40 {
        i - 25
    } else if i < 45 {
        i - 22
    } else if i < 47 {
        i - 20
    } else if i < 55 {
        i - 47
    } else if i < 57 {
        i - 42
    } else if i < 59 {
        i - 39
    } else if i < 64 {
        i - 37
    } else if i < 66 {
        i - 64
    } else if i < 68 {
        i - 53
    } else if i < 70 {
        i - 50
    } else if i < 74 {
        i - 47
    } else if i < 76 {
        i - 74
    } else if i < 82 {
        i - 65
    } else if i < 84 {
        i - 64
    } else {
        i - 59
    };
    (row, col)
}

/// First and last cell of the run of row `row` of letter `letter`.
fn letter_range(letter: usize, row: usize) -> (r: (usize, usize))
    requires
        letter < LETTERS,
        row < LETTER_ROWS,
    ensures
        r.0 == range_first(letter as int, row as int),
        r.1 == range_last(letter as int, row as int),
{
    let firsts: [[usize; 6]; 3] = [[0, 20, 30, 47, 64, 74], [10, 22, 38, 55, 66, 76], [16, 24, 40, 57, 68, 82]];
    let lasts: [[usize; 6]; 3] = [[9, 21, 37, 54, 65, 75], [15, 23, 39, 56, 67, 81], [19, 29, 46, 63, 73, 85]];
    (firsts[letter][row], lasts[letter][row])
}

pub struct LetterBricks {
    pub letter_brick: Vec<LetterBrick>,
    /// Filled cells queued for removal; the last one goes first.
    pub to_remove: Vec<usize>,
    pub qty_filled: usize,
    /// Size of the pattern in hundredths while it swells at the end of a
    /// game; zero when it is not swelling.
    pub expansion: u32,
    pub exp_step: i32,
}

impl View for LetterBricks {
    type V = GridView;

    open spec fn view(&self) -> GridView {
        GridView {
            filled: self.letter_brick@.map_values(|b: LetterBrick| b.filled),
            claimed: self.letter_brick@.map_values(|b: LetterBrick| b.targetted),
            qty_filled: self.qty_filled as nat,
        }
    }
}

impl LetterBricks {
    pub open spec fn wf(&self) -> bool {
        &&& self.letter_brick@.len() == BRICKS_QTY
        &&& forall|i: int|
            0 <= i < BRICKS_QTY as int ==> (#[trigger] self.letter_brick@[i]).row == layout_row(i)
                && self.letter_brick@[i].col == layout_col(i)
        &&& self.qty_filled == count_true(self@.filled)
        &&& forall|i: int| 0 <= i < BRICKS_QTY as int && #[trigger] self@.claimed[i] ==> !self@.filled[i]
        &&& no_adjacent_claims(self@.claimed)
        &&& forall|j: int| 0 <= j < self.to_remove@.len() ==> #[trigger] self.to_remove@[j] < BRICKS_QTY
        &&& self.expansion <= EXPANSION_TURN + 1
        &&& -1 <= self.exp_step <= 1
    }

    /// Row `row` of letter `letter` has a cell without a piece.
    pub open spec fn has_gap(&self, letter: int, row: int) -> bool {
        exists|k: int| range_first(letter, row) <= k <= range_last(letter, row) && !#[trigger] self@.filled[k]
    }

    /// The first row of `letter`, from `row` on, that has a gap.
    pub open spec fn first_gap_from(&self, letter: int, row: int) -> Option<int>
        decreases LETTER_ROWS - row,
    {
        if row < 0 || row >= LETTER_ROWS {
            None
        } else if self.has_gap(letter, row) {
            Some(row)
        } else {
            self.first_gap_from(letter, row + 1)
        }
    }

    /// Cell `k` is empty, unclaimed, and no neighbour in its row is claimed.
    pub open spec fn claimable(&self, k: int) -> bool {
        &&& 0 <= k < BRICKS_QTY as int
        &&& !self@.filled[k]
        &&& !self@.claimed[k]
        &&& !(k > 0 && self@.claimed[k - 1] && layout_col(k - 1) == layout_col(k) - 1)
        &&& !(k < BRICKS_QTY - 1 && self@.claimed[k + 1] && layout_col(k + 1) == layout_col(k) + 1)
    }

    /// The claimable cells of `lo..hi`, in increasing order.
    pub open spec fn run_candidates(&self, lo: int, hi: int) -> Seq<usize>
        decreases hi - lo,
    {
        if hi <= lo {
            Seq::empty()
        } else {
            let prev = self.run_candidates(lo, hi - 1);
            if self.claimable(hi - 1) {
                prev.push((hi - 1) as usize)
            } else {
                prev
            }
        }
    }

    /// The claimable cells of the exposed row of `letter`.
    pub open spec fn letter_candidates(&self, letter: int) -> Seq<usize> {
        if self.qty_filled >= BRICKS_QTY {
            Seq::empty()
        } else {
            match self.first_gap_from(letter, 0) {
                Some(row) => self.run_candidates(range_first(letter, row), range_last(letter, row) + 1),
                None => Seq::empty(),
            }
        }
    }

    /// The cells a request may hand out, letter by letter, in the order the
    /// choice indexes them.
    pub open spec fn candidates(&self) -> Seq<usize> {
        self.letter_candidates(0) + self.letter_candidates(1) + self.letter_candidates(2)
    }

    pub proof fn lemma_run_candidates(&self, lo: int, hi: int)
        ensures
            self.run_candidates(lo, hi).len() <= if hi > lo { hi - lo } else { 0 },
            forall|i: int|
                0 <= i < self.run_candidates(lo, hi).len() ==> lo <= (#[trigger] self.run_candidates(
                    lo,
                    hi,
                )[i]) < hi && self.claimable(self.run_candidates(lo, hi)[i] as int),
        decreases hi - lo,
    {
        if hi > lo {
            self.lemma_run_candidates(lo, hi - 1);
        }
    }

    pub proof fn lemma_first_gap(&self, letter: int, row: int)
        ensures
            self.first_gap_from(letter, row) matches Some(r) ==> row <= r < LETTER_ROWS,
        decreases LETTER_ROWS - row,
    {
        if 0 <= row < LETTER_ROWS && !self.has_gap(letter, row) {
            self.lemma_first_gap(letter, row + 1);
        }
    }

    pub proof fn lemma_candidates(&self)
        ensures
            self.candidates().len() <= 30,
            forall|i: int|
                0 <= i < self.candidates().len() ==> self.claimable(#[trigger] self.candidates()[i] as int),
    {
        assert forall|l: int| 0 <= l < 3 implies self.letter_candidates(l).len() <= 10
            && forall|i: int| 0 <= i < self.letter_candidates(l).len() ==> self.claimable(
            #[trigger] self.letter_candidates(l)[i] as int) by {
            self.lemma_first_gap(l, 0);
            if self.qty_filled < BRICKS_QTY {
                if let Some(row) = self.first_gap_from(l, 0) {
                    self.lemma_run_candidates(range_first(l, row), range_last(l, row) + 1);
                }
            }
        }
        let a = self.letter_candidates(0);
        let b = self.letter_candidates(1);
        let c = self.letter_candidates(2);
        assert forall|i: int| 0 <= i < self.candidates().len() implies self.claimable(
            #[trigger] self.candidates()[i] as int) by {
            if i < a.len() {
                assert(self.candidates()[i] == a[i]);
            } else if i < a.len() + b.len() {
                assert(self.candidates()[i] == b[i - a.len()]);
            } else {
                assert(self.candidates()[i] == c[i - a.len() - b.len()]);
            }
        }
    }

    pub fn new() -> (r: LetterBricks)
        ensures
            r.wf(),
            r.qty_filled == 0,
            r.to_remove@.len() == 0,
            r.expansion == 0,
            r@.claimed == Seq::new(BRICKS_QTY as nat, |i: int| false),
    {
        let mut bricks: Vec<LetterBrick> = Vec::new();
        let mut id: usize = 0;
        while id < BRICKS_QTY
            invariant
                id <= BRICKS_QTY,
                bricks@.len() == id,
                forall|i: int|
                    0 <= i < id ==> (#[trigger] bricks@[i]).row == layout_row(i) && bricks@[i].col
                        == layout_col(i) && !bricks@[i].filled && !bricks@[i].targetted,
            decreases BRICKS_QTY - id,
        {
            let (row, col) = layout_position(id);
            bricks.push(LetterBrick::new(row, col));
            id += 1;
        }
        let r = LetterBricks {
            letter_brick: bricks,
            to_remove: Vec::new(),
            qty_filled: 0,
            expansion: 0,
            exp_step: 0,
        };
        proof {
            lemma_count_constant(BRICKS_QTY as nat, false);
            assert(r@.filled =~= Seq::new(BRICKS_QTY as nat, |i: int| false));
            assert(r@.claimed =~= Seq::new(BRICKS_QTY as nat, |i: int| false));
        }
        r
    }

    /// Empties every cell, drops every claim and every queued removal.
    pub fn reset(&mut self)
        requires
            old(self).wf(),
        ensures
            final(self).wf(),
            final(self)@.filled == Seq::new(BRICKS_QTY as nat, |i: int| false),
            final(self)@.claimed == Seq::new(BRICKS_QTY as nat, |i: int| false),
            final(self).qty_filled == 0,
            final(self).to_remove@.len() == 0,
            final(self).expansion == 0,
    {
        let mut id: usize = 0;
        while id < BRICKS_QTY
            invariant
                id <= BRICKS_QTY,
                self.letter_brick@.len() == BRICKS_QTY,
                forall|i: int|
                    0 <= i < BRICKS_QTY ==> (#[trigger] self.letter_brick@[i]).row == layout_row(i)
                        && self.letter_brick@[i].col == layout_col(i),
                forall|i: int|
                    0 <= i < id ==> !(#[trigger] self.letter_brick@[i]).filled && !self.letter_brick@[i].targetted,
            decreases BRICKS_QTY - id,
        {
            let mut b = self.letter_brick[id];
            b.filled = false;
            b.targetted = false;
            self.letter_brick.set(id, b);
            id += 1;
        }
        self.qty_filled = 0;
        self.to_remove = Vec::new();
        self.expansion = 0;
        self.exp_step = 0;
        proof {
            lemma_count_constant(BRICKS_QTY as nat, false);
            assert(self@.filled =~= Seq::new(BRICKS_QTY as nat, |i: int| false));
            assert(self@.claimed =~= Seq::new(BRICKS_QTY as nat, |i: int| false));
        }
    }

    fn row_has_gaps(&self, letter: usize, row: usize) -> (r: bool)
        requires
            self.wf(),
            letter < LETTERS,
            row < LETTER_ROWS,
        ensures
            r == self.has_gap(letter as int, row as int),
    {
        let (first, last) = letter_range(letter, row);
        let mut i = first;
        while i <= last
            invariant
                self.wf(),
                first == range_first(letter as int, row as int),
                last == range_last(letter as int, row as int),
                first <= i <= last + 1,
                forall|k: int| first <= k < i ==> #[trigger] self@.filled[k],
            decreases last + 1 - i,
        {
            if !self.letter_brick[i].filled {
                assert(!self@.filled[i as int]);
                return true;
            }
            i += 1;
        }
        false
    }

    fn exposed_row(&self, letter: usize) -> (r: Option<usize>)
        requires
            self.wf(),
            letter < LETTERS,
        ensures
            r matches Some(row) ==> self.first_gap_from(letter as int, 0) == Some(row as int),
            r is None ==> self.first_gap_from(letter as int, 0) is None,
    {
        let mut row: usize = 0;
        while row < LETTER_ROWS
            invariant
                self.wf(),
                letter < LETTERS,
                row <= LETTER_ROWS,
                self.first_gap_from(letter as int, 0) == self.first_gap_from(letter as int, row as int),
            decreases LETTER_ROWS - row,
        {
            if self.row_has_gaps(letter, row) {
                return Some(row);
            }
            row += 1;
        }
        None
    }

    fn targetted_to_left(&self, id: usize) -> (r: bool)
        requires
            self.wf(),
            id < BRICKS_QTY,
        ensures
            r == (id > 0 && self@.claimed[id - 1] && layout_col(id - 1) == layout_col(id as int) - 1),
    {
        id > 0 && self.letter_brick[id - 1].targetted && self.letter_brick[id - 1].col
            == self.letter_brick[id].col - 1
    }

    fn targetted_to_right(&self, id: usize) -> (r: bool)
        requires
            self.wf(),
            id < BRICKS_QTY,
        ensures
            r == (id < BRICKS_QTY - 1 && self@.claimed[id + 1] && layout_col(id + 1) == layout_col(
                id as int,
            ) + 1),
    {
        id < BRICKS_QTY - 1 && self.letter_brick[id + 1].targetted && self.letter_brick[id + 1].col
            == self.letter_brick[id].col + 1
    }

    fn letter_target_candidates(&self, letter: usize) -> (r: Vec<usize>)
        requires
            self.wf(),
            letter < LETTERS,
        ensures
            r@ == self.letter_candidates(letter as int),
    {
        let mut list: Vec<usize> = Vec::new();
        if self.qty_filled >= BRICKS_QTY {
            return list;
        }
        proof {
            self.lemma_first_gap(letter as int, 0);
        }
        match self.exposed_row(letter) {
            None => list,
            Some(row) => {
                let (from, to) = letter_range(letter, row);
                let mut k = from;
                while k <= to
                    invariant
                        self.wf(),
                        from == range_first(letter as int, row as int),
                        to == range_last(letter as int, row as int),
                        from <= k <= to + 1,
                        list@ == self.run_candidates(from as int, k as int),
                    decreases to + 1 - k,
                {
                    if !(self.letter_brick[k].filled || self.letter_brick[k].targetted) && !(
                    self.targetted_to_left(k) || self.targetted_to_right(k)) {
                        list.push(k);
                    }
                    k += 1;
                }
                list
            },
        }
    }

    /// The cells that a request may hand out now.
    pub fn target_candidates(&self) -> (r: Vec<usize>)
        requires
            self.wf(),
        ensures
            r@ == self.candidates(),
    {
        let mut list = self.letter_target_candidates(0);
        let mut second = self.letter_target_candidates(1);
        let mut third = self.letter_target_candidates(2);
        list.append(&mut second);
        list.append(&mut third);
        list
    }

    /// Marks cell `id` as claimed or not, nothing else changing.
    fn set_targetted(&mut self, id: usize, v: bool)
        requires
            id < old(self).letter_brick@.len(),
        ensures
            final(self).letter_brick@.len() == old(self).letter_brick@.len(),
            forall|i: int|
                0 <= i < old(self).letter_brick@.len() ==> (#[trigger] final(self).letter_brick@[i]).row
                    == old(self).letter_brick@[i].row && final(self).letter_brick@[i].col
                    == old(self).letter_brick@[i].col,
            final(self)@ == (GridView { claimed: old(self)@.claimed.update(id as int, v), ..old(self)@ }),
            final(self).to_remove == old(self).to_remove,
            final(self).expansion == old(self).expansion,
            final(self).exp_step == old(self).exp_step,
    {
        let mut b = self.letter_brick[id];
        b.targetted = v;
        self.letter_brick.set(id, b);
        assert(self@.claimed =~= old(self)@.claimed.update(id as int, v));
        assert(self@.filled =~= old(self)@.filled);
    }

    /// Hands out a claim on the candidate at position `pick` of
    /// `candidates()`; `None`, with the grid unchanged, where there is none.
    pub fn claim_candidate(&mut self, pick: usize) -> (r: Option<TargetBrick>)
        requires
            old(self).wf(),
        ensures
            final(self).wf(),
            final(self).to_remove == old(self).to_remove,
            pick >= old(self).candidates().len() ==> r is None && final(self)@ == old(self)@,
            pick < old(self).candidates().len() ==> {
                let id = old(self).candidates()[pick as int] as int;
                &&& r == Some(letter_target_of(id))
                &&& old(self).claimable(id)
                &&& final(self)@ == old(self)@.claim(id)
            },
    {
        let list = self.target_candidates();
        if pick >= list.len() {
            return None;
        }
        let id = list[pick];
        proof {
            self.lemma_candidates();
            assert(self.claimable(id as int));
        }
        let x = LETTER_BRICKS_X + self.letter_brick[id].col * BRICK_WIDTH as i32;
        let y = LETTER_BRICKS_Y + self.letter_brick[id].row * BRICK_HEIGHT as i32;
        self.set_targetted(id, true);
        Some(TargetBrick { x, y, brick_id: id })
    }

    /// Hands out a claim on a cell chosen uniformly among `candidates()`, or
    /// `None`, with the grid unchanged, where there is no candidate.
    pub fn request_target(&mut self, rng: &mut StdRng) -> (r: Option<TargetBrick>)
        requires
            old(self).wf(),
        ensures
            final(self).wf(),
            final(self).to_remove == old(self).to_remove,
            r is None <==> old(self).candidates().len() == 0,
            r is None ==> final(self)@ == old(self)@,
            r matches Some(t) ==> {
                &&& old(self).candidates().contains(t.brick_id)
                &&& old(self).claimable(t.brick_id as int)
                &&& t == letter_target_of(t.brick_id as int)
                &&& final(self)@ == old(self)@.claim(t.brick_id as int)
            },
    {
        let count = self.target_candidates().len();
        proof {
            self.lemma_candidates();
        }
        if count == 0 {
            return None;
        }
        let pick = gen_range_u32(rng, 0, count as u32) as usize;
        let r = self.claim_candidate(pick);
        proof {
            if let Some(t) = r {
                assert(old(self).candidates()[pick as int] == t.brick_id);
            }
        }
        r
    }

    /// Puts a piece into a claimed cell, releasing the claim.
    pub fn fill_target(&mut self, brick_id: usize)
        requires
            old(self).wf(),
            brick_id < BRICKS_QTY,
            old(self)@.claimed[brick_id as int],
        ensures
            final(self).wf(),
            final(self).to_remove == old(self).to_remove,
            final(self)@ == old(self)@.fill(brick_id as int),
            final(self).qty_filled == old(self).qty_filled + 1,
    {
        let ghost old_filled = self@.filled;
        proof {
            lemma_count_update(old_filled, brick_id as int, true);
            lemma_count_le_len(old_filled.update(brick_id as int, true));
        }
        let mut b = self.letter_brick[brick_id];
        b.filled = true;
        b.targetted = false;
        self.letter_brick.set(brick_id, b);
        self.qty_filled += 1;
        assert(self@.claimed =~= old(self)@.claimed.update(brick_id as int, false));
        assert(self@.filled =~= old_filled.update(brick_id as int, true));
    }

    /// Drops the claim on a cell, leaving it empty.
    pub fn untarget(&mut self, brick_id: usize)
        requires
            old(self).wf(),
            brick_id < BRICKS_QTY,
        ensures
            final(self).wf(),
            final(self).to_remove == old(self).to_remove,
            final(self)@ == old(self)@.release(brick_id as int),
    {
        self.set_targetted(brick_id, false);
    }

    /// Every cell of the pattern holds a piece.
    pub fn complete(&self) -> (r: bool)
        ensures
            r == (self.qty_filled == BRICKS_QTY),
    {
        self.qty_filled == BRICKS_QTY
    }

    /// Starts the swelling of the finished pattern.
    pub fn initiate_expansion(&mut self)
        requires
            old(self).wf(),
        ensures
            final(self).wf(),
            final(self)@ == old(self)@,
            final(self).expansion == EXPANSION_START,
            final(self).exp_step == 1,
            final(self).to_remove == old(self).to_remove,
    {
        self.expansion = EXPANSION_START;
        self.exp_step = 1;
    }

    /// Queues filled cells for removal, highest first: enough of them for the
    /// queue to reach `qty` entries, at least one, while any is filled; the
    /// queue is then turned round.
    pub fn initiate_removal(&mut self, qty: usize)
        requires
            old(self).wf(),
            old(self).to_remove@.len() + BRICKS_QTY <= usize::MAX,
        ensures
            final(self).wf(),
            final(self)@ == old(self)@,
            final(self).expansion == old(self).expansion,
            ({
                let all = filled_desc(old(self)@.filled, 0, BRICKS_QTY as int);
                let need = if qty > old(self).to_remove@.len() {
                    qty - old(self).to_remove@.len()
                } else {
                    1
                };
                let k = if all.len() < need { all.len() as int } else { need };
                final(self).to_remove@ == (old(self).to_remove@ + all.take(k)).reverse()
            }),
    {
        let ghost start = self.to_remove@;
        let ghost need: int = if qty > start.len() { qty - start.len() } else { 1 };
        let mut i: usize = BRICKS_QTY;
        let mut queue = Vec::new();
        std::mem::swap(&mut queue, &mut self.to_remove);
        proof {
            lemma_filled_desc_bounds(self@.filled, 0, BRICKS_QTY as int);
        }
        let mut done = false;
        while i > 0 && !done
            invariant
                self.letter_brick@.len() == BRICKS_QTY,
                self@ == old(self)@,
                i <= BRICKS_QTY,
                queue@ == start + filled_desc(self@.filled, i as int, BRICKS_QTY as int),
                !done ==> filled_desc(self@.filled, i as int, BRICKS_QTY as int).len() < need,
                done ==> filled_desc(self@.filled, i as int, BRICKS_QTY as int).len() == need,
                start.len() + BRICKS_QTY <= usize::MAX,
                filled_desc(self@.filled, i as int, BRICKS_QTY as int).len() <= BRICKS_QTY - i,
                need == (if qty > start.len() { qty - start.len() } else { 1 }),
            decreases i,
        {
            i -= 1;
            if self.letter_brick[i].filled {
                queue.push(i);
                assert(queue@ == start + filled_desc(self@.filled, i as int, BRICKS_QTY as int));
                if queue.len() >= qty {
                    done = true;
                }
            }
        }
        proof {
            lemma_filled_desc_split(self@.filled, 0, i as int, BRICKS_QTY as int);
            let all = filled_desc(self@.filled, 0, BRICKS_QTY as int);
            let part = filled_desc(self@.filled, i as int, BRICKS_QTY as int);
            assert(part =~= all.take(part.len() as int));
            let k = if all.len() < need { all.len() as int } else { need };
            assert(k == part.len());
        }
        let mut reversed: Vec<usize> = Vec::new();
        let mut j: usize = queue.len();
        while j > 0
            invariant
                j <= queue@.len(),
                reversed@ == Seq::new((queue@.len() - j) as nat, |t: int| queue@[queue@.len() - 1 - t]),
            decreases j,
        {
            j -= 1;
            reversed.push(queue[j]);
            assert(reversed@ =~= Seq::new((queue@.len() - j) as nat, |t: int| queue@[queue@.len() - 1 - t]));
        }
        self.to_remove = reversed;
        assert(self.to_remove@ =~= queue@.reverse());
    }

    /// One tick: on every removal period the last queued cell loses its
    /// piece (reported by the result; a cell already empty is skipped), and a
    /// swelling pattern grows or shrinks one step.
    pub fn update(&mut self, frame_count: u32) -> (removed: bool)
        requires
            old(self).wf(),
        ensures
            final(self).wf(),
            (final(self).expansion as int, final(self).exp_step as int) == next_expansion(
                old(self).expansion as int,
                old(self).exp_step as int,
            ),
            frame_count % REMOVE_PERIOD != 0 || old(self).to_remove@.len() == 0 ==> {
                &&& !removed
                &&& final(self)@ == old(self)@
                &&& final(self).to_remove == old(self).to_remove
            },
            frame_count % REMOVE_PERIOD == 0 && old(self).to_remove@.len() > 0 ==> {
                let id = old(self).to_remove@.last() as int;
                &&& final(self).to_remove@ == old(self).to_remove@.drop_last()
                &&& removed == old(self)@.filled[id]
                &&& removed ==> final(self)@ == old(self)@.take(id)
                &&& !removed ==> final(self)@ == old(self)@
            },
    {
        let mut removed = false;
        if frame_count % REMOVE_PERIOD == 0 && self.to_remove.len() > 0 {
            if let Some(i) = self.to_remove.pop() {
                proof {
                    assert(old(self).to_remove@[old(self).to_remove@.len() - 1] == i);
                }
                if self.letter_brick[i].filled {
                    let ghost old_filled = self@.filled;
                    proof {
                        lemma_count_update(old_filled, i as int, false);
                    }
                    let mut b = self.letter_brick[i];
                    b.filled = false;
                    self.letter_brick.set(i, b);
                    self.qty_filled -= 1;
                    removed = true;
                    assert(self@.filled =~= old_filled.update(i as int, false));
                    assert(self@.claimed =~= old(self)@.claimed);
                    assert(self@.claimed =~= old(self)@.claimed.update(i as int, false));
                }
            }
        }
        if self.expansion != 0 {
            if self.expansion > EXPANSION_TURN {
                self.exp_step = -1;
            } else if self.expansion < EXPANSION_START {
                self.exp_step = 0;
                self.expansion = 0;
            }
            if self.exp_step > 0 {
                self.expansion += 1;
            } else if self.exp_step < 0 {
                self.expansion -= 1;
            }
        }
        removed
    }

    /// Claims outstanding never outnumber the cells that could still be filled.
    pub proof fn law_claims_within_gaps(&self)
        requires
            self.wf(),
        ensures
            self@.claim_count() + self@.qty_filled <= BRICKS_QTY,
    {
        let gaps = self@.filled.map_values(|v: bool| !v);
        lemma_count_mono(self@.claimed, gaps);
        lemma_count_negation(self@.filled);
    }

    /// No two claimed cells stand side by side in a row of the pattern.
    pub proof fn law_no_adjacent_claims_in_row(&self)
        requires
            self.wf(),
        ensures
            forall|i: int, j: int|
                0 <= i < BRICKS_QTY && 0 <= j < BRICKS_QTY && #[trigger] self@.claimed[i] && #[trigger] self@.claimed[j]
                    && layout_row(i) == layout_row(j) ==> layout_col(j) != layout_col(i) + 1,
    {
        assert forall|i: int, j: int|
            0 <= i < BRICKS_QTY && 0 <= j < BRICKS_QTY && #[trigger] self@.claimed[i] && #[trigger] self@.claimed[j]
                && layout_row(i) == layout_row(j) implies layout_col(j) != layout_col(i) + 1 by {
            if layout_col(j) == layout_col(i) + 1 {
                lemma_layout_neighbours(i, j);
                assert(adjacent_to_previous(j));
            }
        }
    }

    /// A claimed cell's neighbours in its row are never offered, whatever
    /// else is on offer.
    pub proof fn law_claimed_neighbours_not_offered(&self, id: int)
        requires
            self.wf(),
            0 <= id < BRICKS_QTY,
            self@.claimed[id],
        ensures
            adjacent_to_previous(id + 1) ==> !self.candidates().contains((id + 1) as usize),
            adjacent_to_previous(id) ==> !self.candidates().contains((id - 1) as usize),
    {
        self.lemma_candidates();
        if adjacent_to_previous(id + 1) && self.candidates().contains((id + 1) as usize) {
            let k = choose|k: int| 0 <= k < self.candidates().len() && self.candidates()[k] == (id + 1) as usize;
            assert(self.claimable(id + 1));
        }
        if adjacent_to_previous(id) && self.candidates().contains((id - 1) as usize) {
            let k = choose|k: int| 0 <= k < self.candidates().len() && self.candidates()[k] == (id - 1) as usize;
            assert(self.claimable(id - 1));
        }
    }
}

} // verus!
