//! Rendering line numbers into fixed-width cells.
//!
//! A present line is shown one-indexed, right-aligned, with one trailing
//! separator space. An absent line is shown as a placeholder: dots while
//! more real lines follow on that side, blanks once the side's last line
//! has been shown, as many glyphs as the reference number has digits.

use crate::ansi::{
    bright_green_of, bright_green_text, bright_red_of, bright_red_text, dim_of, dim_text,
    green_of, green_text, red_of, red_text,
};
use crate::dims::SourceDimensions;
use crate::lines::string_from_chars;
use crate::types::{BackgroundColor, LineNumber};
use vstd::prelude::*;

verus! {

/// How many digits the decimal rendering of `n` has.
pub open spec fn dec_digits(n: nat) -> nat
    decreases n,
{
    if n < 10 {
        1
    } else {
        1 + dec_digits(n / 10)
    }
}

/// The character for one decimal digit.
pub open spec fn digit_char(d: nat) -> char {
    ((48 + d) as u8) as char
}

/// The decimal rendering of `n`.
pub open spec fn dec_chars(n: nat) -> Seq<char>
    decreases n,
{
    if n < 10 {
        seq![digit_char(n)]
    } else {
        dec_chars(n / 10).push(digit_char(n % 10))
    }
}

/// `n` copies of `c`.
pub open spec fn seq_repeat(c: char, n: nat) -> Seq<char> {
    Seq::new(n, |i: int| c)
}

/// `s` padded on the left with spaces to width `w`; left alone if
/// already at least that wide.
pub open spec fn right_align(s: Seq<char>, w: nat) -> Seq<char> {
    if s.len() >= w {
        s
    } else {
        seq_repeat(' ', (w - s.len()) as nat).add(s)
    }
}

/// The decimal rendering is never empty and has `dec_digits(n)` digits.
pub proof fn lemma_dec_chars_len(n: nat)
    ensures
        dec_chars(n).len() == dec_digits(n),
        dec_digits(n) >= 1,
    decreases n,
{
    if n >= 10 {
        lemma_dec_chars_len(n / 10);
    }
}

/// The decimal digits of `n`, most significant first.
pub(crate) fn usize_to_chars(n: usize) -> (r: Vec<char>)
    ensures
        r@ == dec_chars(n as nat),
    decreases n,
{
    if n < 10 {
        let d: u8 = (48 + n) as u8;
        let c: char = d as char;
        let mut r: Vec<char> = Vec::new();
        r.push(c);
        proof {
            assert(r@ =~= dec_chars(n as nat));
        }
        r
    } else {
        let mut r = usize_to_chars(n / 10);
        let d: u8 = (48 + (n % 10)) as u8;
        r.push(d as char);
        r
    }
}

/// Pushes `n` copies of `c` onto `v`.
pub(crate) fn push_repeat(v: &mut Vec<char>, c: char, n: usize)
    ensures
        final(v)@ == old(v)@.add(seq_repeat(c, n as nat)),
{
    let mut j: usize = 0;
    while j < n
        invariant
            0 <= j <= n,
            v@ =~= old(v)@.add(seq_repeat(c, j as nat)),
        decreases n - j,
    {
        v.push(c);
        j += 1;
        proof {
            assert(v@ =~= old(v)@.add(seq_repeat(c, j as nat)));
        }
    }
    proof {
        assert(v@ =~= old(v)@.add(seq_repeat(c, n as nat)));
    }
}

/// `body` right-aligned in `width` columns, followed by one separator
/// space.
fn align_cell(body: Vec<char>, width: usize) -> (r: String)
    ensures
        r@ == right_align(body@, width as nat).push(' '),
{
    let mut cell: Vec<char> = Vec::new();
    if body.len() < width {
        push_repeat(&mut cell, ' ', width - body.len());
    }
    let mut j: usize = 0;
    while j < body.len()
        invariant
            0 <= j <= body@.len(),
            cell@ =~= right_align(body@, width as nat).take(
                right_align(body@, width as nat).len() - body@.len() + j,
            ),
        decreases body@.len() - j,
    {
        cell.push(body[j]);
        j += 1;
        proof {
            assert(cell@ =~= right_align(body@, width as nat).take(
                right_align(body@, width as nat).len() - body@.len() + j,
            ));
        }
    }
    cell.push(' ');
    proof {
        let al = right_align(body@, width as nat);
        assert(al.take(al.len() as int) =~= al);
        assert(cell@ =~= al.push(' '));
    }
    string_from_chars(&cell)
}

/// The rendering of a present line number cell of the given column
/// width, uncolored.
pub open spec fn padded_num_spec(n: nat, column_width: nat) -> Seq<char> {
    right_align(dec_chars(n + 1), (column_width - 1) as nat).push(' ')
}

/// The one-indexed number followed by one space, with no padding.
pub fn format_line_num(line_num: LineNumber) -> (r: String)
    requires
        line_num.0 < usize::MAX,
    ensures
        r@ == dec_chars((line_num.0 + 1) as nat).push(' '),
        r@.len() == dec_digits((line_num.0 + 1) as nat) + 1,
{
    let digits = usize_to_chars(line_num.one_indexed());
    proof {
        lemma_dec_chars_len((line_num.0 + 1) as nat);
    }
    align_cell(digits, 0)
}

/// The one-indexed number, right-aligned in one column less than
/// `column_width`, followed by one separator space.
pub fn format_line_num_padded(line_num: LineNumber, column_width: usize) -> (r: String)
    requires
        line_num.0 < usize::MAX,
        column_width >= 1,
    ensures
        r@ == padded_num_spec(line_num.0 as nat, column_width as nat),
{
    let digits = usize_to_chars(line_num.one_indexed());
    align_cell(digits, column_width - 1)
}

/// The placeholder cell for an absent line, uncolored: dots while more
/// real lines follow on this side, blanks otherwise, one glyph per digit
/// of the reference number.
pub open spec fn missing_plain_spec(prev: nat, column_width: nat, after_end: bool) -> Seq<
    char,
> {
    right_align(
        seq_repeat(
            if after_end {
                ' '
            } else {
                '.'
            },
            dec_digits(prev + 1),
        ),
        (column_width - 1) as nat,
    ).push(' ')
}

/// Law: with color off and the reference's digits fitting the column,
/// the placeholder cell is exactly the column width wide: all blanks
/// once the side's last line has been shown (the gap is at end of file),
/// else dots right-aligned before the separator space. A reference wider
/// than the column (one beyond the side's maximum) overflows the cell
/// and is left out here.
pub proof fn lemma_placeholder_cell(prev: nat, column_width: nat, after_end: bool)
    requires
        column_width >= 1,
        dec_digits(prev + 1) <= column_width - 1,
    ensures
        missing_plain_spec(prev, column_width, after_end).len() == column_width,
        after_end ==> missing_plain_spec(prev, column_width, after_end) =~= seq_repeat(
            ' ',
            column_width,
        ),
        !after_end ==> missing_plain_spec(prev, column_width, after_end) =~= seq_repeat(
            ' ',
            (column_width - 1 - dec_digits(prev + 1)) as nat,
        ).add(seq_repeat('.', dec_digits(prev + 1))).push(' '),
{
    let d = dec_digits(prev + 1);
    let glyphs = seq_repeat(
        if after_end {
            ' '
        } else {
            '.'
        },
        d,
    );
    assert(right_align(glyphs, (column_width - 1) as nat).len() == column_width - 1);
    if after_end {
        assert(missing_plain_spec(prev, column_width, after_end) =~= seq_repeat(
            ' ',
            column_width,
        ));
    } else {
        assert(missing_plain_spec(prev, column_width, after_end) =~= seq_repeat(
            ' ',
            (column_width - 1 - d) as nat,
        ).add(seq_repeat('.', d)).push(' '));
    }
}

/// The placeholder cell, dimmed when color is enabled.
pub open spec fn missing_cell_spec(
    prev: nat,
    column_width: nat,
    after_end: bool,
    use_color: bool,
) -> Seq<char> {
    if use_color {
        dim_of(missing_plain_spec(prev, column_width, after_end))
    } else {
        missing_plain_spec(prev, column_width, after_end)
    }
}

/// Renders the placeholder cell for a side with no line on this row.
/// `prev_num` is the side's last shown line number.
pub fn format_missing_line_num(
    prev_num: LineNumber,
    source_dims: &SourceDimensions,
    is_lhs: bool,
    use_color: bool,
) -> (r: String)
    requires
        prev_num.0 < usize::MAX,
        source_dims.lhs_line_nums_width >= 1,
        source_dims.rhs_line_nums_width >= 1,
    ensures
        r@ == missing_cell_spec(
            prev_num.0 as nat,
            (if is_lhs {
                source_dims.lhs_line_nums_width
            } else {
                source_dims.rhs_line_nums_width
            }) as nat,
            if is_lhs {
                prev_num.0 >= source_dims.lhs_max_line.0
            } else {
                prev_num.0 >= source_dims.rhs_max_line.0
            },
            use_color,
        ),
{
    let column_width = if is_lhs {
        source_dims.lhs_line_nums_width
    } else {
        source_dims.rhs_line_nums_width
    };
    let after_end = if is_lhs {
        prev_num.0 >= source_dims.lhs_max_line.0
    } else {
        prev_num.0 >= source_dims.rhs_max_line.0
    };
    let glyph: char = if after_end {
        ' '
    } else {
        '.'
    };
    let digits = usize_to_chars(prev_num.one_indexed());
    let mut body: Vec<char> = Vec::new();
    push_repeat(&mut body, glyph, digits.len());
    proof {
        lemma_dec_chars_len((prev_num.0 + 1) as nat);
        assert(body@ =~= seq_repeat(glyph, dec_digits((prev_num.0 + 1) as nat)));
    }
    let plain = align_cell(body, column_width - 1);
    if use_color {
        dim_text(plain.as_str())
    } else {
        plain
    }
}

/// The rendering of one side's number cell when the line is present:
/// padded, and colored by side when the line is novel and color is
/// enabled — a red-family tone on the left, a green-family tone on the
/// right, brighter against a dark background.
pub open spec fn present_cell_spec(
    n: nat,
    column_width: nat,
    novel: bool,
    use_color: bool,
    dark: bool,
    is_lhs: bool,
) -> Seq<char> {
    let p = padded_num_spec(n, column_width);
    if novel && use_color {
        if dark {
            if is_lhs {
                bright_red_of(p)
            } else {
                bright_green_of(p)
            }
        } else {
            if is_lhs {
                red_of(p)
            } else {
                green_of(p)
            }
        }
    } else {
        p
    }
}

/// The rendering of one side's number cell for a row: the present cell
/// when the side has a line, the placeholder otherwise, with the last
/// shown number (or the second line) as reference.
pub open spec fn side_cell_spec(
    line_num: Option<LineNumber>,
    prev_line_num: Option<LineNumber>,
    column_width: nat,
    max_line: nat,
    novel: bool,
    use_color: bool,
    dark: bool,
    is_lhs: bool,
) -> Seq<char> {
    match line_num {
        Some(n) => present_cell_spec(n.0 as nat, column_width, novel, use_color, dark, is_lhs),
        None => {
            let prev: nat = match prev_line_num {
                Some(p) => p.0 as nat,
                None => 1,
            };
            missing_cell_spec(prev, column_width, prev >= max_line, use_color)
        },
    }
}

/// Renders a present, possibly novel-colored number cell.
pub(crate) fn colored_present_cell(
    line_num: LineNumber,
    column_width: usize,
    novel: bool,
    use_color: bool,
    dark: bool,
    is_lhs: bool,
) -> (r: String)
    requires
        line_num.0 < usize::MAX,
        column_width >= 1,
    ensures
        r@ == present_cell_spec(
            line_num.0 as nat,
            column_width as nat,
            novel,
            use_color,
            dark,
            is_lhs,
        ),
{
    let s = format_line_num_padded(line_num, column_width);
    if novel && use_color {
        if dark {
            if is_lhs {
                bright_red_text(s.as_str())
            } else {
                bright_green_text(s.as_str())
            }
        } else {
            if is_lhs {
                red_text(s.as_str())
            } else {
                green_text(s.as_str())
            }
        }
    } else {
        s
    }
}

/// Renders both sides' number cells for one row. An absent side gets the
/// placeholder, referenced to that side's last shown line number.
pub fn display_line_nums(
    lhs_line_num: Option<LineNumber>,
    rhs_line_num: Option<LineNumber>,
    source_dims: &SourceDimensions,
    use_color: bool,
    background: BackgroundColor,
    lhs_has_novel: bool,
    rhs_has_novel: bool,
    prev_lhs_line_num: Option<LineNumber>,
    prev_rhs_line_num: Option<LineNumber>,
) -> (r: (String, String))
    requires
        source_dims.lhs_line_nums_width >= 1,
        source_dims.rhs_line_nums_width >= 1,
        lhs_line_num matches Some(n) ==> n.0 < usize::MAX,
        rhs_line_num matches Some(n) ==> n.0 < usize::MAX,
        prev_lhs_line_num matches Some(n) ==> n.0 < usize::MAX,
        prev_rhs_line_num matches Some(n) ==> n.0 < usize::MAX,
    ensures
        r.0@ == side_cell_spec(
            lhs_line_num,
            prev_lhs_line_num,
            source_dims.lhs_line_nums_width as nat,
            source_dims.lhs_max_line.0 as nat,
            lhs_has_novel,
            use_color,
            background.spec_is_dark(),
            true,
        ),
        r.1@ == side_cell_spec(
            rhs_line_num,
            prev_rhs_line_num,
            source_dims.rhs_line_nums_width as nat,
            source_dims.rhs_max_line.0 as nat,
            rhs_has_novel,
            use_color,
            background.spec_is_dark(),
            false,
        ),
{
    let dark_background = background.is_dark();
    let lhs_cell = match lhs_line_num {
        Some(n) => colored_present_cell(
            n,
            source_dims.lhs_line_nums_width,
            lhs_has_novel,
            use_color,
            dark_background,
            true,
        ),
        None => {
            let prev = match prev_lhs_line_num {
                Some(p) => p,
                None => LineNumber(1),
            };
            format_missing_line_num(prev, source_dims, true, use_color)
        },
    };
    let rhs_cell = match rhs_line_num {
        Some(n) => colored_present_cell(
            n,
            source_dims.rhs_line_nums_width,
            rhs_has_novel,
            use_color,
            dark_background,
            false,
        ),
        None => {
            let prev = match prev_rhs_line_num {
                Some(p) => p,
                None => LineNumber(1),
            };
            format_missing_line_num(prev, source_dims, false, use_color)
        },
    };
    (lhs_cell, rhs_cell)
}

} // verus!
