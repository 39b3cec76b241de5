//! The depth-first search controller.
//!
//! `spec_solve` is the mathematical description of the search: it
//! fixes, for every grid, which solution (if any) the traversal
//! returns, by visiting the first blank cell of each node and its
//! candidate digits 1 through 9 in ascending order. The executable
//! `Node::backtrack` returns exactly `spec_solve` of its grid, which
//! makes the search deterministic: equal inputs give equal results.

use vstd::prelude::*;

use crate::grid::{
    first_blank, grid_complete, grid_extends, has_duplicate, is_solution, lemma_count_blanks_bounds,
    lemma_count_blanks_update, lemma_duplicate_persists, lemma_extends_trans, lemma_first_blank,
    num_blanks, wf_grid,
};
use crate::node::Node;

verus! {

/// The outcome of the search on grid `g`: the solution the depth-first
/// traversal finds first, or `None` once every branch is rejected.
pub open spec fn spec_solve(g: Seq<u8>) -> Option<Seq<u8>>
    decreases num_blanks(g), 10int,
        when wf_grid(g)
{
    if has_duplicate(g) {
        None
    } else if grid_complete(g) {
        Some(g)
    } else {
        {
            proof {
                lemma_count_blanks_bounds(g, 81);
            }
            spec_try(g, first_blank(g), 1)
        }
    }
}

/// The outcome of trying the digits `d` through 9, in ascending order,
/// at the blank cell `b` of grid `g`.
pub open spec fn spec_try(g: Seq<u8>, b: int, d: int) -> Option<Seq<u8>>
    decreases num_blanks(g), 10 - d,
        when wf_grid(g) && 0 <= b < 81 && g[b] == 0 && 1 <= d <= 10
{
    if d > 9 {
        None
    } else {
        {
            proof {
                lemma_count_blanks_update(g, 81, b, d as u8);
                lemma_count_blanks_bounds(g.update(b, d as u8), 81);
            }
            match spec_solve(g.update(b, d as u8)) {
                Some(s) => Some(s),
                None => spec_try(g, b, d + 1),
            }
        }
    }
}

impl Node {
    /// Recursively solve the puzzle: reject invalid grids, accept
    /// complete ones, and otherwise expand the first blank cell with
    /// the digits 1 through 9 in ascending order, returning the first
    /// solution found. The result is exactly `spec_solve` of this
    /// node's grid.
    pub fn backtrack(&self) -> (r: Option<Box<Node>>)
        requires
            self.wf(),
        ensures
            r matches Some(n) ==> wf_grid(n@) && spec_solve(self@) == Some(n@),
            r is None ==> spec_solve(self@) is None,
        decreases num_blanks(self@),
    {
        if self.reject() {
            return None;
        }
        if self.accept() {
            return Some(Box::new(self.duplicate()));
        }
        proof {
            lemma_first_blank(self@);
        }
        let (first_child, to_change) = self.first();
        let mut cur = first_child;
        proof {
            assert(cur@[to_change as int] == 1);
        }
        loop
            invariant
                self.wf(),
                cur.wf(),
                to_change < 81,
                to_change as int == first_blank(self@),
                self@[to_change as int] == 0,
                1 <= cur@[to_change as int] <= 9,
                cur@ == self@.update(to_change as int, cur@[to_change as int]),
                !has_duplicate(self@),
                !grid_complete(self@),
                spec_solve(self@) == spec_try(
                    self@,
                    to_change as int,
                    cur@[to_change as int] as int,
                ),
            decreases 9 - cur@[to_change as int],
        {
            let ghost d = cur@[to_change as int] as int;
            proof {
                lemma_count_blanks_update(self@, 81, to_change as int, cur@[to_change as int]);
                lemma_count_blanks_bounds(cur@, 81);
            }
            match cur.backtrack() {
                Some(solution) => {
                    proof {
                        assert(spec_try(self@, to_change as int, d) == Some(solution@));
                    }
                    return Some(solution);
                },
                None => {
                    proof {
                        assert(spec_try(self@, to_change as int, d) == spec_try(
                            self@,
                            to_change as int,
                            d + 1,
                        ));
                    }
                    match cur.next(to_change) {
                        Some(sibling) => {
                            proof {
                                assert(sibling@ =~= self@.update(
                                    to_change as int,
                                    (d + 1) as u8,
                                ));
                            }
                            cur = sibling;
                        },
                        None => {
                            proof {
                                assert(spec_try(self@, to_change as int, 10) is None);
                            }
                            return None;
                        },
                    }
                },
            }
        }
    }
}

/// The number of nodes the search visits from grid `g`: the node
/// itself, plus — when it is expanded — the nodes of each child
/// subtree it enters before the first solution short-circuits the
/// sweep.
pub open spec fn spec_visits(g: Seq<u8>) -> int
    decreases num_blanks(g), 10int,
        when wf_grid(g)
{
    if has_duplicate(g) || grid_complete(g) {
        1
    } else {
        {
            proof {
                lemma_count_blanks_bounds(g, 81);
            }
            1 + visits_try(g, first_blank(g), 1)
        }
    }
}

/// The number of nodes visited while trying the digits `d` through 9
/// at blank cell `b` of grid `g`.
pub open spec fn visits_try(g: Seq<u8>, b: int, d: int) -> int
    decreases num_blanks(g), 10 - d,
        when wf_grid(g) && 0 <= b < 81 && g[b] == 0 && 1 <= d <= 10
{
    if d > 9 {
        0
    } else {
        {
            proof {
                lemma_count_blanks_update(g, 81, b, d as u8);
                lemma_count_blanks_bounds(g.update(b, d as u8), 81);
            }
            spec_visits(g.update(b, d as u8)) + if spec_solve(g.update(b, d as u8)) is Some {
                0int
            } else {
                visits_try(g, b, d + 1)
            }
        }
    }
}

/// The size of a full search tree over `n` blank cells: one node, and
/// up to nine subtrees with one blank fewer each.
pub open spec fn nodes_bound(n: int) -> int
    decreases n,
{
    if n <= 0 {
        1
    } else {
        1 + 9 * nodes_bound(n - 1)
    }
}

/// The search always terminates: from any grid it visits a finite,
/// positive number of nodes, bounded by the branching factor 9 taken
/// over the number of blank cells.
pub proof fn lemma_visits_bounded(g: Seq<u8>)
    requires
        wf_grid(g),
    ensures
        1 <= spec_visits(g) <= nodes_bound(num_blanks(g)),
    decreases num_blanks(g), 10int,
{
    lemma_count_blanks_bounds(g, 81);
    lemma_nodes_bound_pos(num_blanks(g));
    if !has_duplicate(g) && !grid_complete(g) {
        lemma_first_blank(g);
        let b = first_blank(g);
        lemma_count_blanks_update(g, 81, b, 1u8);
        lemma_visits_try_bounded(g, b, 1);
    }
}

/// The digit sweep from `d` visits at most `10 - d` child subtrees,
/// each one blank smaller than `g`.
proof fn lemma_visits_try_bounded(g: Seq<u8>, b: int, d: int)
    requires
        wf_grid(g),
        0 <= b < 81,
        g[b] == 0,
        1 <= d <= 10,
    ensures
        0 <= visits_try(g, b, d) <= (10 - d) * nodes_bound(num_blanks(g) - 1),
    decreases num_blanks(g), 10 - d,
{
    lemma_nodes_bound_pos(num_blanks(g) - 1);
    if d <= 9 {
        let child = g.update(b, d as u8);
        lemma_count_blanks_update(g, 81, b, d as u8);
        lemma_count_blanks_bounds(child, 81);
        lemma_visits_bounded(child);
        lemma_visits_try_bounded(g, b, d + 1);
        let x = nodes_bound(num_blanks(g) - 1);
        assert((10 - (d + 1)) * x + x == (10 - d) * x) by (nonlinear_arith);
    }
}

proof fn lemma_nodes_bound_pos(n: int)
    ensures
        nodes_bound(n) >= 1,
    decreases n,
{
    if n > 0 {
        lemma_nodes_bound_pos(n - 1);
    }
}

/// Whatever the search returns is a genuine solution: well-formed,
/// complete, free of duplicates, and an extension of the input grid.
pub proof fn lemma_solve_sound(g: Seq<u8>)
    requires
        wf_grid(g),
    ensures
        spec_solve(g) matches Some(s) ==> is_solution(g, s),
    decreases num_blanks(g), 10int,
{
    lemma_count_blanks_bounds(g, 81);
    if !has_duplicate(g) && !grid_complete(g) {
        lemma_first_blank(g);
        lemma_try_sound(g, first_blank(g), 1);
    }
}

/// Whatever trying the digits `d` through 9 at blank cell `b` returns
/// is a genuine solution of `g`.
pub proof fn lemma_try_sound(g: Seq<u8>, b: int, d: int)
    requires
        wf_grid(g),
        0 <= b < 81,
        g[b] == 0,
        1 <= d <= 10,
    ensures
        spec_try(g, b, d) matches Some(s) ==> is_solution(g, s),
    decreases num_blanks(g), 10 - d,
{
    if d <= 9 {
        let child = g.update(b, d as u8);
        lemma_count_blanks_update(g, 81, b, d as u8);
        lemma_count_blanks_bounds(child, 81);
        lemma_solve_sound(child);
        if spec_solve(child) is Some {
            lemma_extends_trans(g, child, spec_solve(child)->0);
        } else {
            lemma_try_sound(g, b, d + 1);
        }
    }
}

/// The search misses nothing: if a solution of `g` exists at all, the
/// search returns one. Together with `lemma_solve_sound` this says the
/// search fails exactly on unsolvable grids.
pub proof fn lemma_solve_complete(g: Seq<u8>, s: Seq<u8>)
    requires
        wf_grid(g),
        is_solution(g, s),
    ensures
        spec_solve(g) is Some,
    decreases num_blanks(g),
{
    lemma_count_blanks_bounds(g, 81);
    if has_duplicate(g) {
        lemma_duplicate_persists(g, s);
        assert(false);
    } else if !grid_complete(g) {
        lemma_first_blank(g);
        let b = first_blank(g);
        let d0 = s[b] as int;
        let child = g.update(b, s[b]);
        assert(grid_extends(child, s));
        lemma_count_blanks_update(g, 81, b, s[b]);
        lemma_count_blanks_bounds(child, 81);
        lemma_solve_complete(child, s);
        lemma_try_reaches(g, b, 1, d0);
    }
}

/// If some digit `d0` at or after `d` leads to a solvable child, the
/// digit sweep starting at `d` succeeds.
proof fn lemma_try_reaches(g: Seq<u8>, b: int, d: int, d0: int)
    requires
        wf_grid(g),
        0 <= b < 81,
        g[b] == 0,
        1 <= d <= d0 <= 9,
        spec_solve(g.update(b, d0 as u8)) is Some,
    ensures
        spec_try(g, b, d) is Some,
    decreases d0 - d,
{
    if d < d0 {
        lemma_try_reaches(g, b, d + 1, d0);
    }
}

} // verus!
