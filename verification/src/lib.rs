//! A verified solver for standard 9x9 Sudoku puzzles.
//!
//! A puzzle is an 81-cell grid in row-major order; a cell holds a digit
//! 1 through 9, or 0 for a blank. The solver runs a depth-first
//! backtracking search: at each node it rejects grids with a duplicated
//! non-zero value in a row, column, or 3x3 box, accepts fully filled
//! grids, and otherwise branches on the first blank cell with the
//! digits 1 through 9 in ascending order. The first accepted grid wins
//! and the result is a function of the input grid alone, so equal
//! inputs always solve to equal outputs.
//!
//! Reading the puzzle text and writing the rendered solution are left
//! to the surrounding program; the library parses characters, solves,
//! and renders.

pub mod cli;
pub mod error;
pub mod grid;
pub mod laws;
pub mod node;
pub mod parse;
pub mod render;
pub mod search;

use vstd::prelude::*;

use crate::cli::Config;
use crate::error::SolveError;
use crate::grid::{is_solution, wf_grid};
use crate::node::Node;
use crate::parse::{enough_input, parse, parsed_grid};
use crate::render::spec_render;
use crate::search::{lemma_solve_complete, lemma_solve_sound, spec_solve};

verus! {

/// Sudoku solver: holds the configuration, the root of the search
/// tree, and, once `solve` has run, the solution.
#[derive(Debug, Clone)]
pub struct SudokuSolver {
    /// The run configuration.
    pub config: Config,
    /// The search tree's root: the parsed input puzzle.
    pub root: Node,
    /// The solution found by `solve`, if any.
    pub solution: Option<Box<Node>>,
}

impl SudokuSolver {
    /// The solver holds well-formed grids throughout.
    pub open spec fn wf(&self) -> bool {
        &&& self.root.wf()
        &&& match self.solution {
            Some(n) => wf_grid(n@),
            None => true,
        }
    }

    /// Create a solver from a [`Config`] and the raw characters of the
    /// puzzle text. Fails with `InputTooShort` when the text holds
    /// fewer than 81 meaningful characters.
    pub fn new(config: Config, text: &Vec<char>) -> (r: Result<SudokuSolver, SolveError>)
        ensures
            enough_input(text@) ==> (r matches Ok(s) && s.wf() && s.root@ == parsed_grid(text@)
                && s.solution is None && s.config == config),
            !enough_input(text@) ==> r == Err::<SudokuSolver, SolveError>(
                SolveError::InputTooShort,
            ),
    {
        match parse(text) {
            Ok(starting_point) => Ok(
                SudokuSolver { config, root: Node { candidate: starting_point }, solution: None },
            ),
            Err(e) => Err(e),
        }
    }

    /// Solve the puzzle. Stores the first solution the deterministic
    /// depth-first search finds and returns `Ok`; when the search
    /// exhausts the whole tree — which happens exactly when no
    /// solution of the root grid exists at all — stores nothing and
    /// returns `Unsolvable`.
    pub fn solve(&mut self) -> (r: Result<(), SolveError>)
        requires
            old(self).wf(),
        ensures
            final(self).wf(),
            final(self).config == old(self).config,
            final(self).root == old(self).root,
            spec_solve(old(self).root@) matches Some(s) ==> (r is Ok
                && (final(self).solution matches Some(n) && n@ == s)
                && is_solution(old(self).root@, s)),
            spec_solve(old(self).root@) is None ==> (r == Err::<(), SolveError>(
                SolveError::Unsolvable,
            ) && final(self).solution is None && (forall|s: Seq<u8>|
                !is_solution(old(self).root@, s))),
    {
        self.solution = self.root.backtrack();
        proof {
            lemma_solve_sound(self.root@);
            if spec_solve(self.root@) is None {
                assert forall|s: Seq<u8>| !is_solution(self.root@, s) by {
                    if is_solution(self.root@, s) {
                        lemma_solve_complete(self.root@, s);
                    }
                }
            }
        }
        match &self.solution {
            Some(_) => Ok(()),
            None => Err(SolveError::Unsolvable),
        }
    }

    /// Render the stored solution in the configured style, or report
    /// `Unsolvable` when no solution is stored.
    pub fn output(&self) -> (r: Result<Vec<char>, SolveError>)
        requires
            self.wf(),
        ensures
            self.solution matches Some(n) ==> (r matches Ok(text) && text@ == spec_render(
                self.config.style,
                n@,
            )),
            self.solution is None ==> r == Err::<Vec<char>, SolveError>(SolveError::Unsolvable),
    {
        match &self.solution {
            Some(n) => Ok(n.render(self.config.style)),
            None => Err(SolveError::Unsolvable),
        }
    }
}

} // verus!
