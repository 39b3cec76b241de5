//! Formatting a grid in one of the three output styles.
//!
//! `simple` is one unbroken line of 81 digits; `multiline` is nine
//! lines of space-separated digits; `bordered` frames each band of
//! three rows with `+-------+-------+-------+` delimiters. Every
//! rendering ends with a trailing newline.

use vstd::prelude::*;

use crate::cli::OutputStyle;
use crate::grid::wf_grid;
use crate::node::Node;

verus! {

/// The character that prints a cell value: its decimal digit.
pub open spec fn digit_char(v: u8) -> char {
    if v == 0 {
        '0'
    } else if v == 1 {
        '1'
    } else if v == 2 {
        '2'
    } else if v == 3 {
        '3'
    } else if v == 4 {
        '4'
    } else if v == 5 {
        '5'
    } else if v == 6 {
        '6'
    } else if v == 7 {
        '7'
    } else if v == 8 {
        '8'
    } else {
        '9'
    }
}

/// The `simple` rendering: the 81 digits in row-major order, then a
/// newline.
pub open spec fn render_simple(g: Seq<u8>) -> Seq<char> {
    g.map_values(|v: u8| digit_char(v)).push('\n')
}

/// One `multiline` row: the nine digits of row `r` separated by
/// spaces, then a newline.
pub open spec fn multi_row(g: Seq<u8>, r: int) -> Seq<char> {
    seq![
        digit_char(g[r * 9 + 0]),
        ' ',
        digit_char(g[r * 9 + 1]),
        ' ',
        digit_char(g[r * 9 + 2]),
        ' ',
        digit_char(g[r * 9 + 3]),
        ' ',
        digit_char(g[r * 9 + 4]),
        ' ',
        digit_char(g[r * 9 + 5]),
        ' ',
        digit_char(g[r * 9 + 6]),
        ' ',
        digit_char(g[r * 9 + 7]),
        ' ',
        digit_char(g[r * 9 + 8]),
        '\n',
    ]
}

/// The `multiline` rendering: nine rows of space-separated digits.
pub open spec fn render_multiline(g: Seq<u8>) -> Seq<char> {
    multi_row(g, 0) + multi_row(g, 1) + multi_row(g, 2) + multi_row(g, 3) + multi_row(g, 4)
        + multi_row(g, 5) + multi_row(g, 6) + multi_row(g, 7) + multi_row(g, 8)
}

/// The horizontal delimiter of the `bordered` rendering.
pub open spec fn border_line() -> Seq<char> {
    seq![
        '+',
        '-',
        '-',
        '-',
        '-',
        '-',
        '-',
        '-',
        '+',
        '-',
        '-',
        '-',
        '-',
        '-',
        '-',
        '-',
        '+',
        '-',
        '-',
        '-',
        '-',
        '-',
        '-',
        '-',
        '+',
        '\n',
    ]
}

/// One `bordered` row: the nine digits of row `r`, grouped by three
/// between vertical bars.
pub open spec fn bordered_row(g: Seq<u8>, r: int) -> Seq<char> {
    seq![
        '|',
        ' ',
        digit_char(g[r * 9 + 0]),
        ' ',
        digit_char(g[r * 9 + 1]),
        ' ',
        digit_char(g[r * 9 + 2]),
        ' ',
        '|',
        ' ',
        digit_char(g[r * 9 + 3]),
        ' ',
        digit_char(g[r * 9 + 4]),
        ' ',
        digit_char(g[r * 9 + 5]),
        ' ',
        '|',
        ' ',
        digit_char(g[r * 9 + 6]),
        ' ',
        digit_char(g[r * 9 + 7]),
        ' ',
        digit_char(g[r * 9 + 8]),
        ' ',
        '|',
        '\n',
    ]
}

/// The `bordered` rendering: each band of three rows framed by
/// delimiter lines.
pub open spec fn render_bordered(g: Seq<u8>) -> Seq<char> {
    border_line() + bordered_row(g, 0) + bordered_row(g, 1) + bordered_row(g, 2) + border_line()
        + bordered_row(g, 3) + bordered_row(g, 4) + bordered_row(g, 5) + border_line()
        + bordered_row(g, 6) + bordered_row(g, 7) + bordered_row(g, 8) + border_line()
}

/// The rendering of `g` in the chosen style.
pub open spec fn spec_render(style: OutputStyle, g: Seq<u8>) -> Seq<char> {
    match style {
        OutputStyle::Simple => render_simple(g),
        OutputStyle::MultiLine => render_multiline(g),
        OutputStyle::Bordered => render_bordered(g),
    }
}

/// The decimal digit character of a cell value.
fn digit_char_of(v: u8) -> (c: char)
    requires
        v <= 9,
    ensures
        c == digit_char(v),
{
    match v {
        0 => '0',
        1 => '1',
        2 => '2',
        3 => '3',
        4 => '4',
        5 => '5',
        6 => '6',
        7 => '7',
        8 => '8',
        _ => '9',
    }
}

/// Append the `simple` line of `g` to `out`.
fn push_simple(out: &mut Vec<char>, g: &Vec<u8>)
    requires
        wf_grid(g@),
    ensures
        final(out)@ == old(out)@ + render_simple(g@),
{
    let ghost start = out@;
    let mut i: usize = 0;
    while i < 81
        invariant
            i <= 81,
            wf_grid(g@),
            out@ == start + g@.take(i as int).map_values(|v: u8| digit_char(v)),
        decreases 81 - i,
    {
        out.push(digit_char_of(g[i]));
        proof {
            assert(g@.take(i + 1).map_values(|v: u8| digit_char(v)) =~= g@.take(
                i as int,
            ).map_values(|v: u8| digit_char(v)).push(digit_char(g@[i as int])));
            assert(out@ =~= start + g@.take(i + 1).map_values(|v: u8| digit_char(v)));
        }
        i += 1;
    }
    out.push('\n');
    proof {
        assert(g@.take(81) =~= g@);
        assert(out@ =~= start + render_simple(g@));
    }
}

/// Append one `multiline` row of `g` to `out`.
fn push_multi_row(out: &mut Vec<char>, g: &Vec<u8>, r: usize)
    requires
        wf_grid(g@),
        r < 9,
    ensures
        final(out)@ == old(out)@ + multi_row(g@, r as int),
{
    let ghost start = out@;
    let offset = r * 9;
    out.push(digit_char_of(g[offset]));
    out.push(' ');
    out.push(digit_char_of(g[offset + 1]));
    out.push(' ');
    out.push(digit_char_of(g[offset + 2]));
    out.push(' ');
    out.push(digit_char_of(g[offset + 3]));
    out.push(' ');
    out.push(digit_char_of(g[offset + 4]));
    out.push(' ');
    out.push(digit_char_of(g[offset + 5]));
    out.push(' ');
    out.push(digit_char_of(g[offset + 6]));
    out.push(' ');
    out.push(digit_char_of(g[offset + 7]));
    out.push(' ');
    out.push(digit_char_of(g[offset + 8]));
    out.push('\n');
    proof {
        assert(out@ =~= start + multi_row(g@, r as int));
    }
}

/// Append the horizontal delimiter line to `out`.
fn push_border(out: &mut Vec<char>)
    ensures
        final(out)@ == old(out)@ + border_line(),
{
    let ghost start = out@;
    out.push('+');
    out.push('-');
    out.push('-');
    out.push('-');
    out.push('-');
    out.push('-');
    out.push('-');
    out.push('-');
    out.push('+');
    out.push('-');
    out.push('-');
    out.push('-');
    out.push('-');
    out.push('-');
    out.push('-');
    out.push('-');
    out.push('+');
    out.push('-');
    out.push('-');
    out.push('-');
    out.push('-');
    out.push('-');
    out.push('-');
    out.push('-');
    out.push('+');
    out.push('\n');
    proof {
        assert(out@ =~= start + border_line());
    }
}

/// Append one `bordered` row of `g` to `out`.
#[verifier::rlimit(60)]
fn push_bordered_row(out: &mut Vec<char>, g: &Vec<u8>, r: usize)
    requires
        wf_grid(g@),
        r < 9,
    ensures
        final(out)@ == old(out)@ + bordered_row(g@, r as int),
{
    let ghost start = out@;
    let offset = r * 9;
    out.push('|');
    out.push(' ');
    out.push(digit_char_of(g[offset]));
    out.push(' ');
    out.push(digit_char_of(g[offset + 1]));
    out.push(' ');
    out.push(digit_char_of(g[offset + 2]));
    out.push(' ');
    out.push('|');
    out.push(' ');
    out.push(digit_char_of(g[offset + 3]));
    out.push(' ');
    out.push(digit_char_of(g[offset + 4]));
    out.push(' ');
    out.push(digit_char_of(g[offset + 5]));
    out.push(' ');
    out.push('|');
    out.push(' ');
    out.push(digit_char_of(g[offset + 6]));
    out.push(' ');
    out.push(digit_char_of(g[offset + 7]));
    out.push(' ');
    out.push(digit_char_of(g[offset + 8]));
    out.push(' ');
    out.push('|');
    out.push('\n');
    proof {
        assert(out@ =~= start + bordered_row(g@, r as int));
    }
}

impl Node {
    /// Render this node's grid in the chosen style.
    pub fn render(&self, style: OutputStyle) -> (out: Vec<char>)
        requires
            self.wf(),
        ensures
            out@ == spec_render(style, self@),
    {
        let mut out: Vec<char> = Vec::new();
        match style {
            OutputStyle::Simple => {
                push_simple(&mut out, &self.candidate);
                proof {
                    assert(out@ =~= spec_render(style, self@));
                }
            },
            OutputStyle::MultiLine => {
                push_multi_row(&mut out, &self.candidate, 0);
                push_multi_row(&mut out, &self.candidate, 1);
                push_multi_row(&mut out, &self.candidate, 2);
                push_multi_row(&mut out, &self.candidate, 3);
                push_multi_row(&mut out, &self.candidate, 4);
                push_multi_row(&mut out, &self.candidate, 5);
                push_multi_row(&mut out, &self.candidate, 6);
                push_multi_row(&mut out, &self.candidate, 7);
                push_multi_row(&mut out, &self.candidate, 8);
                proof {
                    assert(out@ =~= spec_render(style, self@));
                }
            },
            OutputStyle::Bordered => {
                push_border(&mut out);
                push_bordered_row(&mut out, &self.candidate, 0);
                push_bordered_row(&mut out, &self.candidate, 1);
                push_bordered_row(&mut out, &self.candidate, 2);
                push_border(&mut out);
                push_bordered_row(&mut out, &self.candidate, 3);
                push_bordered_row(&mut out, &self.candidate, 4);
                push_bordered_row(&mut out, &self.candidate, 5);
                push_border(&mut out);
                push_bordered_row(&mut out, &self.candidate, 6);
                push_bordered_row(&mut out, &self.candidate, 7);
                push_bordered_row(&mut out, &self.candidate, 8);
                push_border(&mut out);
                proof {
                    assert(out@ =~= spec_render(style, self@));
                }
            },
        }
        out
    }
}

} // verus!
