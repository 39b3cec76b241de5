//! One point of the search tree: a candidate grid together with the
//! operations the controller needs on it.

use vstd::prelude::*;

use crate::grid::{
    first_blank, grid_complete, has_duplicate, lemma_first_blank_is, same_group, wf_grid,
};

verus! {

/// A search node. It owns an independent copy of its candidate grid;
/// no node mutates another's grid.
#[derive(Debug, Clone)]
pub struct Node {
    /// This node's candidate puzzle, 81 cells in row-major order.
    pub candidate: Vec<u8>,
}

impl View for Node {
    type V = Seq<u8>;

    open spec fn view(&self) -> Seq<u8> {
        self.candidate@
    }
}

impl Node {
    /// The node holds a well-formed grid.
    pub open spec fn wf(&self) -> bool {
        wf_grid(self@)
    }

    /// An independent copy of this node.
    pub fn duplicate(&self) -> (r: Node)
        ensures
            r@ == self@,
    {
        let mut cells: Vec<u8> = Vec::new();
        let mut i: usize = 0;
        while i < self.candidate.len()
            invariant
                i <= self.candidate.len(),
                cells@ == self.candidate@.take(i as int),
            decreases self.candidate.len() - i,
        {
            cells.push(self.candidate[i]);
            proof {
                assert(cells@ =~= self.candidate@.take(i + 1));
            }
            i += 1;
        }
        proof {
            assert(cells@ =~= self.candidate@);
        }
        Node { candidate: cells }
    }

    /// Every cell is filled: the completeness test of the search.
    /// Note that a complete grid may still be invalid; the controller
    /// always tests `reject` first.
    pub fn accept(&self) -> (r: bool)
        requires
            self.wf(),
        ensures
            r == grid_complete(self@),
    {
        let mut i: usize = 0;
        while i < 81
            invariant
                i <= 81,
                self.wf(),
                forall|k: int| 0 <= k < i ==> self@[k] != 0,
            decreases 81 - i,
        {
            if self.candidate[i] == 0 {
                return false;
            }
            i += 1;
        }
        true
    }

    /// Some row, column, or box holds a repeated non-zero value: the
    /// pruning test of the search. The result depends only on the grid,
    /// never on the order the cells are examined in.
    pub fn reject(&self) -> (r: bool)
        requires
            self.wf(),
        ensures
            r == has_duplicate(self@),
    {
        let mut i: usize = 0;
        while i < 81
            invariant
                i <= 81,
                self.wf(),
                forall|p: int, q: int|
                    0 <= p < i && p < q < 81 && same_group(p, q) ==> !(self@[p] != 0 && self@[p]
                        == self@[q]),
            decreases 81 - i,
        {
            if self.candidate[i] != 0 {
                let mut j: usize = i + 1;
                while j < 81
                    invariant
                        i < j <= 81,
                        self.wf(),
                        self@[i as int] != 0,
                        forall|q: int|
                            i < q < j && same_group(i as int, q) ==> self@[i as int] != self@[q],
                    decreases 81 - j,
                {
                    if self.candidate[j] == self.candidate[i] && Self::shares_group(i, j) {
                        return true;
                    }
                    j += 1;
                }
            }
            i += 1;
        }
        proof {
            if has_duplicate(self@) {
                let (p, q) = choose|p: int, q: int|
                    0 <= p < 81 && 0 <= q < 81 && p != q && same_group(p, q) && self@[p] != 0
                        && self@[p] == self@[q];
                if p < q {
                    assert(!(self@[p] != 0 && self@[p] == self@[q]));
                } else {
                    assert(same_group(q, p));
                    assert(!(self@[q] != 0 && self@[q] == self@[p]));
                }
            }
        }
        false
    }

    /// Whether the cells at indices `i` and `j` share a row, column,
    /// or 3x3 box.
    fn shares_group(i: usize, j: usize) -> (r: bool)
        requires
            i < 81,
            j < 81,
        ensures
            r == same_group(i as int, j as int),
    {
        i / 9 == j / 9 || i % 9 == j % 9 || (i / 27) * 3 + (i % 9) / 3 == (j / 27) * 3 + (j % 9) / 3
    }

    /// The first child of this node: a copy of the grid with the first
    /// blank cell set to 1, returned together with that cell's index.
    /// The same index is reused for all later siblings.
    pub fn first(&self) -> (r: (Node, usize))
        requires
            self.wf(),
            !grid_complete(self@),
        ensures
            r.1 == first_blank(self@),
            r.1 < 81,
            self@[r.1 as int] == 0,
            r.0@ == self@.update(r.1 as int, 1u8),
            r.0.wf(),
    {
        let mut child = self.duplicate();
        let mut to_change: usize = 0;
        while to_change < 81
            invariant
                to_change <= 81,
                self.wf(),
                child@ == self@,
                forall|k: int| 0 <= k < to_change ==> self@[k] != 0,
            decreases 81 - to_change,
        {
            if self.candidate[to_change] == 0 {
                proof {
                    lemma_first_blank_is(self@, to_change as int);
                }
                child.candidate[to_change] = 1;
                return (child, to_change);
            }
            to_change += 1;
        }
        proof {
            assert(grid_complete(self@));
        }
        unreached()
    }

    /// The next sibling after this node: a copy of the grid with the
    /// value at `to_change` raised by one, in ascending digit order.
    /// Returns `None` once the digit 9 has been tried.
    pub fn next(&self, to_change: usize) -> (r: Option<Node>)
        requires
            self.wf(),
            to_change < 81,
            1 <= self@[to_change as int] <= 9,
        ensures
            self@[to_change as int] == 9 ==> r is None,
            self@[to_change as int] < 9 ==> (r matches Some(n) && n@ == self@.update(
                to_change as int,
                (self@[to_change as int] + 1) as u8,
            ) && n.wf()),
    {
        let v = self.candidate[to_change];
        if v >= 9 {
            return None;
        }
        let mut child = self.duplicate();
        child.candidate[to_change] = v + 1;
        Some(child)
    }
}

impl Default for Node {
    /// An all-blank grid.
    fn default() -> (r: Self)
        ensures
            r@ == Seq::new(81, |i: int| 0u8),
            r.wf(),
    {
        let mut cells: Vec<u8> = Vec::new();
        let mut i: usize = 0;
        while i < 81
            invariant
                i <= 81,
                cells@ == Seq::new(i as nat, |k: int| 0u8),
            decreases 81 - i,
        {
            cells.push(0);
            proof {
                assert(cells@ =~= Seq::new((i + 1) as nat, |k: int| 0u8));
            }
            i += 1;
        }
        Node { candidate: cells }
    }
}

} // verus!
