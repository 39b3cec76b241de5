//! Tests of the individual components: nodes, parsing, styles, errors.

use rust_sudoku::cli::OutputStyle;
use rust_sudoku::error::SolveError;
use rust_sudoku::node::Node;
use rust_sudoku::parse::parse;

fn node_of(cells: &[u8]) -> Node {
    Node {
        candidate: cells.to_vec(),
    }
}

fn blank_grid() -> Vec<u8> {
    vec![0u8; 81]
}

#[test]
fn default_node_is_all_blanks() {
    let node = Node::default();
    assert_eq!(node.candidate, blank_grid());
}

#[test]
fn accept_requires_every_cell_filled() {
    let mut cells = vec![5u8; 81];
    assert!(node_of(&cells).accept());
    cells[80] = 0;
    assert!(!node_of(&cells).accept());
}

#[test]
fn accept_ignores_validity() {
    // A grid full of 5s is complete, though certainly invalid; the
    // controller must check reject first.
    let cells = vec![5u8; 81];
    let node = node_of(&cells);
    assert!(node.accept());
    assert!(node.reject());
}

#[test]
fn reject_finds_row_column_and_box_duplicates() {
    let mut row_dup = blank_grid();
    row_dup[0] = 7;
    row_dup[8] = 7;
    assert!(node_of(&row_dup).reject());

    let mut col_dup = blank_grid();
    col_dup[0] = 3;
    col_dup[72] = 3;
    assert!(node_of(&col_dup).reject());

    let mut box_dup = blank_grid();
    box_dup[0] = 9;
    box_dup[20] = 9; // row 2, column 2: same 3x3 box, other row and column
    assert!(node_of(&box_dup).reject());
}

#[test]
fn reject_passes_clean_grids() {
    assert!(!node_of(&blank_grid()).reject());

    // Different values in the same box are fine.
    let mut diagonalish = blank_grid();
    diagonalish[0] = 1;
    diagonalish[10] = 2; // row 1, column 1: same box as index 0
    assert!(!node_of(&diagonalish).reject());

    // The same value twice in different rows, columns, and boxes is fine.
    let mut spread = blank_grid();
    spread[0] = 4;
    spread[40] = 4; // row 4, column 4
    assert!(!node_of(&spread).reject());
}

#[test]
fn first_fills_the_first_blank_with_one() {
    let mut cells = blank_grid();
    cells[0] = 8;
    cells[1] = 6;
    let node = node_of(&cells);
    let (child, to_change) = node.first();
    assert_eq!(to_change, 2);
    assert_eq!(child.candidate[2], 1);
    assert_eq!(child.candidate[0], 8);
    assert_eq!(child.candidate[1], 6);
}

#[test]
fn next_counts_up_to_nine_then_stops() {
    let mut cells = blank_grid();
    cells[5] = 1;
    let mut node = node_of(&cells);
    for expected in 2u8..=9 {
        let sibling = node.next(5).expect("digits below 9 have a successor");
        assert_eq!(sibling.candidate[5], expected);
        node = sibling;
    }
    assert!(node.next(5).is_none());
}

#[test]
fn parse_maps_digits_and_blanks() {
    let mut text: Vec<char> = "12x".chars().collect();
    text.extend(std::iter::repeat('0').take(78));
    let grid = parse(&text).unwrap();
    assert_eq!(grid[0], 1);
    assert_eq!(grid[1], 2);
    assert_eq!(grid[2], 0);
    assert_eq!(grid.len(), 81);
}

#[test]
fn parse_rejects_eighty_meaningful_characters() {
    let text: Vec<char> = "1 ".repeat(80).chars().collect();
    assert_eq!(parse(&text), Err(SolveError::InputTooShort));
}

#[test]
fn style_names_select_styles() {
    let simple: Vec<char> = "simple".chars().collect();
    let multiline: Vec<char> = "multiline".chars().collect();
    let bordered: Vec<char> = "bordered".chars().collect();
    let invalid: Vec<char> = "fancy".chars().collect();
    assert_eq!(OutputStyle::from_name(&simple), Some(OutputStyle::Simple));
    assert_eq!(OutputStyle::from_name(&multiline), Some(OutputStyle::MultiLine));
    assert_eq!(OutputStyle::from_name(&bordered), Some(OutputStyle::Bordered));
    assert_eq!(OutputStyle::from_name(&invalid), None);
}

#[test]
fn error_messages_describe_each_failure() {
    assert!(SolveError::InputTooShort.message().contains("Not enough input"));
    assert!(SolveError::InputReadFailure.message().contains("read input"));
    assert!(SolveError::OutputWriteFailure.message().contains("output file"));
    assert!(SolveError::Unsolvable.message().contains("solve"));
}
