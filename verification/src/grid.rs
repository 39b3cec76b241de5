//! The mathematical model of a puzzle grid.
//!
//! A grid is a sequence of 81 cell values in row-major order: the cell
//! at linear index `r*9 + c` is row `r`, column `c`. A value of 0 marks
//! a blank cell; 1 through 9 are filled digits. The constraint groups
//! are the 9 rows, the 9 columns, and the 9 non-overlapping 3x3 boxes.

use vstd::prelude::*;

verus! {

/// A well-formed grid: 81 cells, each holding 0 (blank) or a digit 1-9.
pub open spec fn wf_grid(g: Seq<u8>) -> bool {
    &&& g.len() == 81
    &&& forall|i: int| 0 <= i < 81 ==> g[i] <= 9
}

/// Every cell is filled with a non-zero digit.
pub open spec fn grid_complete(g: Seq<u8>) -> bool {
    forall|i: int| 0 <= i < 81 ==> g[i] != 0
}

/// The row of the cell at linear index `i`.
pub open spec fn row_of(i: int) -> int {
    i / 9
}

/// The column of the cell at linear index `i`.
pub open spec fn col_of(i: int) -> int {
    i % 9
}

/// The 3x3 box of the cell at linear index `i`, numbered 0 through 8.
pub open spec fn box_of(i: int) -> int {
    (i / 27) * 3 + (i % 9) / 3
}

/// Two cell indices share a constraint group: same row, same column,
/// or same box.
pub open spec fn same_group(i: int, j: int) -> bool {
    ||| row_of(i) == row_of(j)
    ||| col_of(i) == col_of(j)
    ||| box_of(i) == box_of(j)
}

/// Some row, column, or box holds the same non-zero value more than
/// once. This is the rejection condition of the search: it does not
/// depend on any evaluation order over the cells.
pub open spec fn has_duplicate(g: Seq<u8>) -> bool {
    exists|i: int, j: int|
        0 <= i < 81 && 0 <= j < 81 && i != j && same_group(i, j) && g[i] != 0 && g[i] == g[j]
}

/// `s` refines `g`: every cell already filled in `g` keeps its value
/// in `s` (blank cells of `g` may take any value in `s`).
pub open spec fn grid_extends(g: Seq<u8>, s: Seq<u8>) -> bool {
    &&& s.len() == 81
    &&& forall|i: int| 0 <= i < 81 && g[i] != 0 ==> s[i] == g[i]
}

/// `s` solves the puzzle `g`: a well-formed, fully filled, duplicate-free
/// grid that keeps every given of `g`.
pub open spec fn is_solution(g: Seq<u8>, s: Seq<u8>) -> bool {
    &&& wf_grid(s)
    &&& grid_complete(s)
    &&& !has_duplicate(s)
    &&& grid_extends(g, s)
}

/// The number of blank cells among the first `n` cells.
pub open spec fn count_blanks_to(g: Seq<u8>, n: int) -> int
    decreases n,
{
    if n <= 0 {
        0
    } else {
        count_blanks_to(g, n - 1) + if g[n - 1] == 0 {
            1int
        } else {
            0int
        }
    }
}

/// The number of blank cells of the grid.
pub open spec fn num_blanks(g: Seq<u8>) -> int {
    count_blanks_to(g, 81)
}

/// The lowest index of a blank cell at or after `i`, or 81 if none.
pub open spec fn first_blank_from(g: Seq<u8>, i: int) -> int
    decreases 81 - i,
{
    if i < 0 || i >= 81 {
        81
    } else if g[i] == 0 {
        i
    } else {
        first_blank_from(g, i + 1)
    }
}

/// The lowest index of a blank cell, or 81 on a complete grid.
pub open spec fn first_blank(g: Seq<u8>) -> int {
    first_blank_from(g, 0)
}

/// Filling one blank cell with a non-zero digit removes exactly one
/// blank from every prefix that contains it.
pub proof fn lemma_count_blanks_update(g: Seq<u8>, n: int, b: int, d: u8)
    requires
        0 <= b < g.len(),
        n <= g.len(),
        g[b] == 0,
        d != 0,
    ensures
        count_blanks_to(g.update(b, d), n) == count_blanks_to(g, n) - if b < n {
            1int
        } else {
            0int
        },
    decreases n,
{
    if n > 0 {
        lemma_count_blanks_update(g, n - 1, b, d);
    }
}

/// Blank counts are non-negative, and a prefix free of blanks counts zero.
pub proof fn lemma_count_blanks_bounds(g: Seq<u8>, n: int)
    ensures
        0 <= count_blanks_to(g, n) <= if n <= 0 {
            0int
        } else {
            n
        },
        count_blanks_to(g, n) == 0 ==> forall|i: int| 0 <= i < n ==> g[i] != 0,
    decreases n,
{
    if n > 0 {
        lemma_count_blanks_bounds(g, n - 1);
    }
}

/// What `first_blank_from` returns: the first blank at or after `i`,
/// with every cell between `i` and it filled.
proof fn lemma_first_blank_from(g: Seq<u8>, i: int)
    requires
        0 <= i <= 81,
        g.len() == 81,
    ensures
        i <= first_blank_from(g, i) <= 81,
        first_blank_from(g, i) < 81 ==> g[first_blank_from(g, i)] == 0,
        forall|k: int| i <= k < first_blank_from(g, i) ==> g[k] != 0,
        first_blank_from(g, i) == 81 ==> forall|k: int| i <= k < 81 ==> g[k] != 0,
    decreases 81 - i,
{
    if i < 81 && g[i] != 0 {
        lemma_first_blank_from(g, i + 1);
    }
}

/// On an incomplete grid, `first_blank` names a blank cell and every
/// cell before it is filled.
pub proof fn lemma_first_blank(g: Seq<u8>)
    requires
        g.len() == 81,
        !grid_complete(g),
    ensures
        0 <= first_blank(g) < 81,
        g[first_blank(g)] == 0,
        forall|k: int| 0 <= k < first_blank(g) ==> g[k] != 0,
{
    lemma_first_blank_from(g, 0);
}

/// If every cell before `b` is filled and `b` is blank, then `b` is
/// the first blank.
pub proof fn lemma_first_blank_is(g: Seq<u8>, b: int)
    requires
        g.len() == 81,
        0 <= b < 81,
        g[b] == 0,
        forall|k: int| 0 <= k < b ==> g[k] != 0,
    ensures
        first_blank(g) == b,
{
    lemma_first_blank_is_from(g, 0, b);
}

proof fn lemma_first_blank_is_from(g: Seq<u8>, i: int, b: int)
    requires
        g.len() == 81,
        0 <= i <= b < 81,
        g[b] == 0,
        forall|k: int| i <= k < b ==> g[k] != 0,
    ensures
        first_blank_from(g, i) == b,
    decreases 81 - i,
{
    if i < b {
        lemma_first_blank_is_from(g, i + 1, b);
    }
}

/// A duplicate survives any refinement of the grid: filling blanks
/// never clears a violated constraint.
pub proof fn lemma_duplicate_persists(g: Seq<u8>, s: Seq<u8>)
    requires
        g.len() == 81,
        has_duplicate(g),
        grid_extends(g, s),
    ensures
        has_duplicate(s),
{
    let (i, j) = choose|i: int, j: int|
        0 <= i < 81 && 0 <= j < 81 && i != j && same_group(i, j) && g[i] != 0 && g[i] == g[j];
    assert(s[i] == g[i] && s[j] == g[j]);
}

/// Refinement is transitive.
pub proof fn lemma_extends_trans(g1: Seq<u8>, g2: Seq<u8>, g3: Seq<u8>)
    requires
        g1.len() == 81,
        g2.len() == 81,
        grid_extends(g1, g2),
        grid_extends(g2, g3),
    ensures
        grid_extends(g1, g3),
{
    assert forall|i: int| 0 <= i < 81 && g1[i] != 0 implies g3[i] == g1[i] by {
        assert(g2[i] == g1[i]);
    }
}

} // verus!
