//! The run configuration of the solver.

use vstd::prelude::*;

verus! {

/// How the puzzle is printed.
#[derive(Debug, Clone, Copy, PartialEq, Eq, Structural)]
pub enum OutputStyle {
    /// The entire puzzle is printed in one line.
    Simple,
    /// The puzzle is printed with 9 numbers on each line.
    MultiLine,
    /// The puzzle is printed with a border around the puzzle and around each 3x3 square.
    Bordered,
}

/// The name a style is selected by on the command line.
pub open spec fn style_name(style: OutputStyle) -> Seq<char> {
    match style {
        OutputStyle::Simple => seq!['s', 'i', 'm', 'p', 'l', 'e'],
        OutputStyle::MultiLine => seq!['m', 'u', 'l', 't', 'i', 'l', 'i', 'n', 'e'],
        OutputStyle::Bordered => seq!['b', 'o', 'r', 'd', 'e', 'r', 'e', 'd'],
    }
}

/// The style a name selects, if any.
pub open spec fn spec_style_of_name(s: Seq<char>) -> Option<OutputStyle> {
    if s == style_name(OutputStyle::Simple) {
        Some(OutputStyle::Simple)
    } else if s == style_name(OutputStyle::MultiLine) {
        Some(OutputStyle::MultiLine)
    } else if s == style_name(OutputStyle::Bordered) {
        Some(OutputStyle::Bordered)
    } else {
        None
    }
}

impl OutputStyle {
    /// Select a style by its command-line name: `simple`, `multiline`
    /// or `bordered`; any other name is invalid.
    pub fn from_name(name: &Vec<char>) -> (r: Option<OutputStyle>)
        ensures
            r == spec_style_of_name(name@),
    {
        if name.len() == 6 && name[0] == 's' && name[1] == 'i' && name[2] == 'm' && name[3] == 'p'
            && name[4] == 'l' && name[5] == 'e' {
            proof {
                assert(name@ =~= style_name(OutputStyle::Simple));
            }
            Some(OutputStyle::Simple)
        } else if name.len() == 9 && name[0] == 'm' && name[1] == 'u' && name[2] == 'l' && name[3]
            == 't' && name[4] == 'i' && name[5] == 'l' && name[6] == 'i' && name[7] == 'n'
            && name[8] == 'e' {
            proof {
                assert(name@ =~= style_name(OutputStyle::MultiLine));
            }
            Some(OutputStyle::MultiLine)
        } else if name.len() == 8 && name[0] == 'b' && name[1] == 'o' && name[2] == 'r' && name[3]
            == 'd' && name[4] == 'e' && name[5] == 'r' && name[6] == 'e' && name[7] == 'd' {
            proof {
                assert(name@ =~= style_name(OutputStyle::Bordered));
            }
            Some(OutputStyle::Bordered)
        } else {
            proof {
                assert(name@ != style_name(OutputStyle::Simple));
                assert(name@ != style_name(OutputStyle::MultiLine));
                assert(name@ != style_name(OutputStyle::Bordered));
            }
            None
        }
    }
}

/// The configuration of a solving run, as gathered from the command
/// line by the surrounding program.
#[derive(Debug, Clone)]
pub struct Config {
    /// Location of the puzzle to read, or standard input by default.
    pub input: Option<String>,
    /// Output file to write the solution to, or standard output by default.
    pub output: Option<String>,
    /// How the solved puzzle is printed.
    pub style: OutputStyle,
    /// Print each partial solution as the search runs.
    pub print_partials: bool,
    /// Delay between search steps in milliseconds (useful with `print_partials`).
    pub delay: Option<u64>,
}

} // verus!
