//! Laws relating the solver's pieces to one another.

use vstd::prelude::*;

use crate::grid::{grid_complete, has_duplicate, same_group, wf_grid};
use crate::parse::{char_value, enough_input, is_ws, meaningful, parsed_grid};
use crate::render::{digit_char, render_simple};
use crate::search::{spec_solve, spec_visits};

verus! {

/// A grid that is already fully and validly filled is its own
/// solution: the search accepts it at the root, after exactly one
/// node evaluation and with no expansion, and returns it unchanged.
pub proof fn lemma_filled_grid_solves_to_itself(g: Seq<u8>)
    requires
        wf_grid(g),
        grid_complete(g),
        !has_duplicate(g),
    ensures
        spec_solve(g) == Some(g),
        spec_visits(g) == 1,
{
}

/// Determinism: the search's outcome is a function of the input grid
/// alone — `Node::backtrack` promises its result equals `spec_solve`
/// of the grid — so two runs over the same puzzle, however
/// under-constrained it is, return bit-identical results.
pub proof fn lemma_solving_twice_agrees(
    g: Seq<u8>,
    first_run: Option<Seq<u8>>,
    second_run: Option<Seq<u8>>,
)
    requires
        wf_grid(g),
        first_run == spec_solve(g),
        second_run == spec_solve(g),
    ensures
        first_run == second_run,
{
}

/// Completion says nothing about validity: a grid can be complete —
/// and hence accepted — while a constraint is violated. Callers must
/// always test rejection before acceptance.
pub proof fn lemma_complete_grid_may_be_invalid()
    ensures
        exists|g: Seq<u8>| wf_grid(g) && grid_complete(g) && #[trigger] has_duplicate(g),
{
    let g = Seq::new(81, |i: int| 1u8);
    assert(same_group(0, 1));
    assert(g[0] == 1 && g[1] == 1);
    assert(wf_grid(g) && grid_complete(g) && has_duplicate(g));
}

/// Scanning a sequence with no whitespace keeps every character.
proof fn lemma_meaningful_of_clean(s: Seq<char>)
    requires
        forall|i: int| 0 <= i < s.len() ==> !is_ws(s[i]),
    ensures
        meaningful(s) == s,
    decreases s.len(),
{
    if s.len() > 0 {
        lemma_meaningful_of_clean(s.drop_last());
        assert(meaningful(s) =~= s);
    }
}

/// Round trip: rendering a grid in the `simple` style and re-parsing
/// that text yields the identical grid.
pub proof fn lemma_simple_round_trip(g: Seq<u8>)
    requires
        wf_grid(g),
    ensures
        enough_input(render_simple(g)),
        parsed_grid(render_simple(g)) == g,
{
    let line = g.map_values(|v: u8| digit_char(v));
    let text = render_simple(g);
    assert forall|i: int| 0 <= i < line.len() implies !is_ws(line[i]) by {
        assert(line[i] == digit_char(g[i]));
    }
    lemma_meaningful_of_clean(line);
    assert(text.drop_last() =~= line);
    assert(is_ws(text.last()));
    assert(meaningful(text) == line);
    assert(line.take(81) =~= line);
    assert forall|i: int| 0 <= i < 81 implies char_value(line[i]) == g[i] by {
        assert(line[i] == digit_char(g[i]));
    }
    assert(parsed_grid(text) =~= g);
}

} // verus!
