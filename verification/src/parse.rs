//! Reading a puzzle out of raw text.
//!
//! The scanner walks the characters of the input: whitespace is
//! skipped outright, a digit 1-9 fills the next cell with its value,
//! and any other character (the digit 0 included) fills it with a
//! blank. Exactly 81 such meaningful characters are required; extra
//! ones beyond the 81st are ignored.

use vstd::prelude::*;

use crate::error::SolveError;
use crate::grid::wf_grid;

verus! {

/// A whitespace character: exactly the code points with the Unicode
/// `White_Space` property, the set `char::is_whitespace` accepts.
pub open spec fn is_ws(c: char) -> bool {
    let u = c as u32;
    ||| u == 0x09
    ||| u == 0x0A
    ||| u == 0x0B
    ||| u == 0x0C
    ||| u == 0x0D
    ||| u == 0x20
    ||| u == 0x85
    ||| u == 0xA0
    ||| u == 0x1680
    ||| (0x2000 <= u && u <= 0x200A)
    ||| u == 0x2028
    ||| u == 0x2029
    ||| u == 0x202F
    ||| u == 0x205F
    ||| u == 0x3000
}

/// The cell value a meaningful character denotes: a digit 1-9 maps to
/// its numeric value, everything else to 0, the blank.
pub open spec fn char_value(c: char) -> u8 {
    let u = c as u32;
    if 0x31 <= u && u <= 0x39 {
        (u - 0x30) as u8
    } else {
        0
    }
}

/// The meaningful characters of the input, in order: everything that
/// is not whitespace.
pub open spec fn meaningful(s: Seq<char>) -> Seq<char>
    decreases s.len(),
{
    if s.len() == 0 {
        Seq::empty()
    } else {
        meaningful(s.drop_last()) + if is_ws(s.last()) {
            Seq::empty()
        } else {
            seq![s.last()]
        }
    }
}

/// The input holds at least the 81 meaningful characters a grid needs.
pub open spec fn enough_input(s: Seq<char>) -> bool {
    meaningful(s).len() >= 81
}

/// The grid the input denotes: the first 81 meaningful characters,
/// each mapped to its cell value.
pub open spec fn parsed_grid(s: Seq<char>) -> Seq<u8> {
    meaningful(s).take(81).map_values(|c: char| char_value(c))
}

/// Whether `c` counts as whitespace for the scanner.
pub fn is_ws_char(c: char) -> (r: bool)
    ensures
        r == is_ws(c),
{
    let u = c as u32;
    u == 0x09 || u == 0x0A || u == 0x0B || u == 0x0C || u == 0x0D || u == 0x20 || u == 0x85 || u
        == 0xA0 || u == 0x1680 || (0x2000 <= u && u <= 0x200A) || u == 0x2028 || u == 0x2029 || u
        == 0x202F || u == 0x205F || u == 0x3000
}

/// The cell value of one meaningful character.
pub fn char_value_of(c: char) -> (r: u8)
    ensures
        r == char_value(c),
        r <= 9,
{
    let u = c as u32;
    if 0x31 <= u && u <= 0x39 {
        (u - 0x30) as u8
    } else {
        0
    }
}

/// Scan the input characters into a grid.
///
/// Returns the 81 cell values denoted by the first 81 meaningful
/// characters, or `InputTooShort` when the input runs out before the
/// 81st.
pub fn parse(text: &Vec<char>) -> (r: Result<Vec<u8>, SolveError>)
    ensures
        enough_input(text@) ==> (r matches Ok(g) && g@ == parsed_grid(text@) && wf_grid(g@)),
        !enough_input(text@) ==> r == Err::<Vec<u8>, SolveError>(SolveError::InputTooShort),
{
    let mut puzzle: Vec<u8> = Vec::new();
    let mut i: usize = 0;
    while i < text.len()
        invariant
            i <= text.len(),
            puzzle@.len() <= 81,
            puzzle@.len() == if meaningful(text@.take(i as int)).len() < 81 {
                meaningful(text@.take(i as int)).len()
            } else {
                81
            },
            puzzle@ == meaningful(text@.take(i as int)).take(puzzle@.len() as int).map_values(
                |c: char| char_value(c),
            ),
            forall|k: int| 0 <= k < puzzle@.len() ==> puzzle@[k] <= 9,
        decreases text.len() - i,
    {
        let c = text[i];
        proof {
            assert(text@.take(i + 1).drop_last() =~= text@.take(i as int));
            assert(text@.take(i + 1).last() == text@[i as int]);
        }
        if puzzle.len() < 81 && !is_ws_char(c) {
            let ghost n = puzzle@.len() as int;
            puzzle.push(char_value_of(c));
            proof {
                let m = meaningful(text@.take(i as int));
                assert(meaningful(text@.take(i + 1)) =~= m + seq![c]);
                assert((m + seq![c]).take(n + 1) =~= m.take(n).push(c));
                assert(puzzle@ =~= meaningful(text@.take(i + 1)).take(n + 1).map_values(
                    |ch: char| char_value(ch),
                ));
            }
        } else {
            proof {
                let m = meaningful(text@.take(i as int));
                let n = puzzle@.len() as int;
                if is_ws(c) {
                    assert(meaningful(text@.take(i + 1)) =~= m);
                } else {
                    assert(meaningful(text@.take(i + 1)) =~= m + seq![c]);
                    assert((m + seq![c]).take(n) =~= m.take(n));
                }
            }
        }
        i += 1;
    }
    proof {
        assert(text@.take(text@.len() as int) =~= text@);
    }
    if puzzle.len() < 81 {
        Err(SolveError::InputTooShort)
    } else {
        Ok(puzzle)
    }
}

} // verus!
