//! End-to-end tests of the solver.

use rust_sudoku::cli::{Config, OutputStyle};
use rust_sudoku::error::SolveError;
use rust_sudoku::SudokuSolver;

fn chars_of(s: &str) -> Vec<char> {
    s.chars().collect()
}

fn config_with(style: OutputStyle) -> Config {
    Config {
        input: None,
        output: None,
        style,
        print_partials: false,
        delay: None,
    }
}

const SOLVED_ROWS: &str = "123456789\
                           456789123\
                           789123456\
                           214365897\
                           365897214\
                           897214365\
                           531642978\
                           642978531\
                           978531642";

#[test]
fn sudoku1() {
    let config = Config {
        input: Some(String::from("puzzle/sudoku1.txt")),
        output: None,
        style: OutputStyle::Bordered,
        print_partials: false,
        delay: None,
    };
    // The puzzle of puzzle/sudoku1.txt: the confirmed solution with
    // the top-left cell blanked.
    let text = chars_of(
        "023456789\
         456789123\
         789123456\
         214365897\
         365897214\
         897214365\
         531642978\
         642978531\
         978531642",
    );
    let mut solution = SudokuSolver::new(config, &text).unwrap();
    solution.solve().unwrap();

    let confirmed_solution: [u8; 81] = [
        1, 2, 3, 4, 5, 6, 7, 8, 9, 4, 5, 6, 7, 8, 9, 1, 2, 3, 7, 8, 9, 1, 2, 3, 4, 5, 6, 2, 1, 4,
        3, 6, 5, 8, 9, 7, 3, 6, 5, 8, 9, 7, 2, 1, 4, 8, 9, 7, 2, 1, 4, 3, 6, 5, 5, 3, 1, 6, 4, 2,
        9, 7, 8, 6, 4, 2, 9, 7, 8, 5, 3, 1, 9, 7, 8, 5, 3, 1, 6, 4, 2,
    ];
    assert_eq!(solution.solution.unwrap().candidate, confirmed_solution.to_vec());
}

#[test]
#[should_panic]
fn not_enough_input() {
    let config = Config {
        input: Some(String::from("puzzle/sudoku8.txt")),
        output: None,
        print_partials: false,
        style: OutputStyle::Bordered,
        delay: None,
    };
    // The text of puzzle/sudoku8.txt: only 80 meaningful characters.
    let text = chars_of(
        "02345678945678912378912345621436589736589721489721436553164297864297853197853164",
    );
    let mut solution = SudokuSolver::new(config, &text).unwrap();
    solution.solve().unwrap();
}

#[test]
fn insufficient_input_reports_input_too_short() {
    // 80 digits: one short of a grid, so no search is attempted.
    let text = chars_of(
        "02345678945678912378912345621436589736589721489721436553164297864297853197853164",
    );
    match SudokuSolver::new(config_with(OutputStyle::Simple), &text) {
        Err(SolveError::InputTooShort) => {}
        _ => panic!("expected InputTooShort"),
    }
}

#[test]
fn whitespace_is_skipped_and_other_characters_are_blanks() {
    // The same puzzle as sudoku1, with spacing, newlines, and '.'
    // standing for the blank cell.
    let text = chars_of(
        ". 2 3 4 5 6 7 8 9\n\
         4 5 6 7 8 9 1 2 3\n\
         7 8 9 1 2 3 4 5 6\n\
         2 1 4 3 6 5 8 9 7\n\
         3 6 5 8 9 7 2 1 4\n\
         8 9 7 2 1 4 3 6 5\n\
         5 3 1 6 4 2 9 7 8\n\
         6 4 2 9 7 8 5 3 1\n\
         9 7 8 5 3 1 6 4 2\n",
    );
    let mut solver = SudokuSolver::new(config_with(OutputStyle::Simple), &text).unwrap();
    solver.solve().unwrap();
    let rendered: String = solver.output().unwrap().into_iter().collect();
    assert_eq!(rendered, format!("{}\n", SOLVED_ROWS));
}

#[test]
fn characters_beyond_the_81st_are_ignored() {
    let mut text = chars_of(SOLVED_ROWS);
    text.extend("999999999".chars());
    let mut solver = SudokuSolver::new(config_with(OutputStyle::Simple), &text).unwrap();
    solver.solve().unwrap();
    let rendered: String = solver.output().unwrap().into_iter().collect();
    assert_eq!(rendered, format!("{}\n", SOLVED_ROWS));
}

#[test]
fn solved_input_is_returned_unchanged() {
    // A fully and validly filled grid solves to itself.
    let text = chars_of(SOLVED_ROWS);
    let mut solver = SudokuSolver::new(config_with(OutputStyle::Simple), &text).unwrap();
    solver.solve().unwrap();
    let solution = solver.solution.unwrap();
    let expected: Vec<u8> = text.iter().map(|c| c.to_digit(10).unwrap() as u8).collect();
    assert_eq!(solution.candidate, expected);
}

#[test]
fn under_constrained_puzzle_solves_identically_twice() {
    // Blanking the 1-2 / 2-1 rectangle in rows 0 and 3 leaves two
    // valid completions; both runs must pick the same one.
    let text = chars_of(
        "003456789\
         456789123\
         789123456\
         004365897\
         365897214\
         897214365\
         531642978\
         642978531\
         978531642",
    );
    let mut first_run = SudokuSolver::new(config_with(OutputStyle::Simple), &text).unwrap();
    first_run.solve().unwrap();
    let first: String = first_run.output().unwrap().into_iter().collect();

    let mut second_run = SudokuSolver::new(config_with(OutputStyle::Simple), &text).unwrap();
    second_run.solve().unwrap();
    let second: String = second_run.output().unwrap().into_iter().collect();

    assert_eq!(first, second);
    assert_eq!(first, format!("{}\n", SOLVED_ROWS));
}

#[test]
fn duplicate_in_row_is_unsolvable_at_the_root() {
    // Two 1s in the first row: rejected at the very first check.
    let mut cells = String::from("110000000");
    cells.push_str(&"0".repeat(72));
    let text = chars_of(&cells);
    let mut solver = SudokuSolver::new(config_with(OutputStyle::Simple), &text).unwrap();
    match solver.solve() {
        Err(SolveError::Unsolvable) => {}
        _ => panic!("expected Unsolvable"),
    }
    assert!(solver.solution.is_none());
    match solver.output() {
        Err(SolveError::Unsolvable) => {}
        _ => panic!("expected Unsolvable from output"),
    }
}

#[test]
fn simple_output_reparses_to_the_same_grid() {
    // Round trip: format in `simple` style, re-parse, same grid.
    let text = chars_of(
        "023456789\
         456789123\
         789123456\
         214365897\
         365897214\
         897214365\
         531642978\
         642978531\
         978531642",
    );
    let mut solver = SudokuSolver::new(config_with(OutputStyle::Simple), &text).unwrap();
    solver.solve().unwrap();
    let rendered = solver.output().unwrap();
    let solved = solver.solution.unwrap().candidate;

    let mut reparsed = SudokuSolver::new(config_with(OutputStyle::Simple), &rendered).unwrap();
    assert_eq!(reparsed.root.candidate, solved);
    // Solving the already-solved grid changes nothing.
    reparsed.solve().unwrap();
    assert_eq!(reparsed.solution.unwrap().candidate, solved);
}

#[test]
fn bordered_output_frames_each_band() {
    let text = chars_of(SOLVED_ROWS);
    let mut solver = SudokuSolver::new(config_with(OutputStyle::Bordered), &text).unwrap();
    solver.solve().unwrap();
    let rendered: String = solver.output().unwrap().into_iter().collect();
    let expected = "\
        +-------+-------+-------+\n\
        | 1 2 3 | 4 5 6 | 7 8 9 |\n\
        | 4 5 6 | 7 8 9 | 1 2 3 |\n\
        | 7 8 9 | 1 2 3 | 4 5 6 |\n\
        +-------+-------+-------+\n\
        | 2 1 4 | 3 6 5 | 8 9 7 |\n\
        | 3 6 5 | 8 9 7 | 2 1 4 |\n\
        | 8 9 7 | 2 1 4 | 3 6 5 |\n\
        +-------+-------+-------+\n\
        | 5 3 1 | 6 4 2 | 9 7 8 |\n\
        | 6 4 2 | 9 7 8 | 5 3 1 |\n\
        | 9 7 8 | 5 3 1 | 6 4 2 |\n\
        +-------+-------+-------+\n";
    assert_eq!(rendered, expected);
}

#[test]
fn multiline_output_has_nine_lines_of_spaced_digits() {
    let text = chars_of(SOLVED_ROWS);
    let mut solver = SudokuSolver::new(config_with(OutputStyle::MultiLine), &text).unwrap();
    solver.solve().unwrap();
    let rendered: String = solver.output().unwrap().into_iter().collect();
    let expected = "\
        1 2 3 4 5 6 7 8 9\n\
        4 5 6 7 8 9 1 2 3\n\
        7 8 9 1 2 3 4 5 6\n\
        2 1 4 3 6 5 8 9 7\n\
        3 6 5 8 9 7 2 1 4\n\
        8 9 7 2 1 4 3 6 5\n\
        5 3 1 6 4 2 9 7 8\n\
        6 4 2 9 7 8 5 3 1\n\
        9 7 8 5 3 1 6 4 2\n";
    assert_eq!(rendered, expected);
}
