//! Per-hunk column-width planning.
//!
//! The widths derive from the terminal width and from the largest line
//! number seen on each side of the hunk: each side's number column is one
//! column per digit of that maximum plus one separator column. The left
//! column takes the floor of half the remaining width; the right column
//! absorbs any odd remainder; one spacer column stands between them, so
//! the two columns and the spacer exactly fill the terminal width.

use crate::numfmt::dec_digits;
use crate::types::LineNumber;
use vstd::prelude::*;

verus! {

/// The largest left-side line number among `pairs`, and at least 1.
pub open spec fn max_lhs_line(pairs: Seq<(Option<LineNumber>, Option<LineNumber>)>) -> nat
    decreases pairs.len(),
{
    if pairs.len() == 0 {
        1
    } else {
        let m = max_lhs_line(pairs.drop_last());
        match pairs.last().0 {
            Some(l) => if l.0 > m {
                l.0 as nat
            } else {
                m
            },
            None => m,
        }
    }
}

/// The largest right-side line number among `pairs`, and at least 1.
pub open spec fn max_rhs_line(pairs: Seq<(Option<LineNumber>, Option<LineNumber>)>) -> nat
    decreases pairs.len(),
{
    if pairs.len() == 0 {
        1
    } else {
        let m = max_rhs_line(pairs.drop_last());
        match pairs.last().1 {
            Some(l) => if l.0 > m {
                l.0 as nat
            } else {
                m
            },
            None => m,
        }
    }
}

/// Every line number among `pairs` leaves room for its one-indexed form.
pub open spec fn pairs_in_range(pairs: Seq<(Option<LineNumber>, Option<LineNumber>)>) -> bool {
    forall|j: int|
        0 <= j < pairs.len() ==> (match (#[trigger] pairs[j]).0 {
            Some(l) => l.0 < usize::MAX,
            None => true,
        } && match pairs[j].1 {
            Some(l) => l.0 < usize::MAX,
            None => true,
        })
}

/// The number column width a side with maximum line number `m` needs:
/// one column per digit of the one-indexed maximum, plus the separator.
pub open spec fn nums_width(m: nat) -> nat {
    dec_digits(m + 1) + 1
}

/// Sizes used when displaying one hunk.
pub struct SourceDimensions {
    pub lhs_content_width: usize,
    pub rhs_content_width: usize,
    pub lhs_line_nums_width: usize,
    pub rhs_line_nums_width: usize,
    pub lhs_max_line: LineNumber,
    pub rhs_max_line: LineNumber,
}

impl SourceDimensions {
    /// The planned widths are consistent: both content widths, both
    /// number columns and the one spacer column exactly fill
    /// `terminal_width`.
    pub open spec fn fills(&self, terminal_width: nat) -> bool {
        self.lhs_content_width + self.lhs_line_nums_width + 1 + self.rhs_content_width
            + self.rhs_line_nums_width == terminal_width
    }

    /// Plans the widths for one hunk from the terminal width and the
    /// hunk's aligned line pairs. The two line tables played no part in
    /// the width formula and are accepted only to match the call shape
    /// of the planner's users.
    pub fn new(
        terminal_width: usize,
        line_nums: &[(Option<LineNumber>, Option<LineNumber>)],
        _lhs_lines: &[String],
        _rhs_lines: &[String],
    ) -> (r: SourceDimensions)
        requires
            pairs_in_range(line_nums@),
            terminal_width >= 1,
            (terminal_width - 1) / 2 >= nums_width(max_lhs_line(line_nums@)),
            terminal_width - 1 - (terminal_width - 1) / 2 >= nums_width(
                max_rhs_line(line_nums@),
            ),
        ensures
            r.lhs_max_line.0 == max_lhs_line(line_nums@),
            r.rhs_max_line.0 == max_rhs_line(line_nums@),
            r.lhs_line_nums_width == nums_width(max_lhs_line(line_nums@)),
            r.rhs_line_nums_width == nums_width(max_rhs_line(line_nums@)),
            r.lhs_content_width == (terminal_width - 1) / 2 - r.lhs_line_nums_width,
            r.rhs_content_width == terminal_width - (terminal_width - 1) / 2 - 1
                - r.rhs_line_nums_width,
            r.fills(terminal_width as nat),
    {
        let mut lhs_max: usize = 1;
        let mut rhs_max: usize = 1;
        let mut i: usize = 0;
        while i < line_nums.len()
            invariant
                0 <= i <= line_nums@.len(),
                pairs_in_range(line_nums@),
                lhs_max == max_lhs_line(line_nums@.take(i as int)),
                rhs_max == max_rhs_line(line_nums@.take(i as int)),
                lhs_max < usize::MAX,
                rhs_max < usize::MAX,
            decreases line_nums@.len() - i,
        {
            let pair = line_nums[i];
            if let Some(l) = pair.0 {
                if l.0 > lhs_max {
                    lhs_max = l.0;
                }
            }
            if let Some(r) = pair.1 {
                if r.0 > rhs_max {
                    rhs_max = r.0;
                }
            }
            i += 1;
            proof {
                let t = line_nums@.take(i as int);
                assert(t.drop_last() =~= line_nums@.take(i - 1));
                assert(t.last() == line_nums@[i - 1]);
            }
        }
        proof {
            assert(line_nums@.take(line_nums@.len() as int) =~= line_nums@);
        }
        let lhs_line_nums_width = num_width_exec(lhs_max);
        let rhs_line_nums_width = num_width_exec(rhs_max);

        let lhs_total_width = (terminal_width - 1) / 2;
        let lhs_content_width = lhs_total_width - lhs_line_nums_width;
        let rhs_content_width = terminal_width - lhs_total_width - 1 - rhs_line_nums_width;

        SourceDimensions {
            lhs_content_width,
            rhs_content_width,
            lhs_line_nums_width,
            rhs_line_nums_width,
            lhs_max_line: LineNumber(lhs_max),
            rhs_max_line: LineNumber(rhs_max),
        }
    }
}

/// The number column width for a side whose largest line number is `m`.
pub(crate) fn num_width_exec(m: usize) -> (r: usize)
    requires
        m < usize::MAX,
    ensures
        r == nums_width(m as nat),
{
    let mut n = m + 1;
    let mut digits: usize = 1;
    proof {
        lemma_dec_digits_small((m + 1) as nat);
    }
    while n >= 10
        invariant
            n >= 1,
            digits >= 1,
            digits + dec_digits(n as nat) == 1 + dec_digits((m + 1) as nat),
            digits + dec_digits(n as nat) <= 41,
        decreases n,
    {
        n = n / 10;
        digits += 1;
    }
    proof {
        assert(dec_digits(n as nat) == 1);
    }
    digits + 1
}

/// The digit count never shrinks as the number grows.
proof fn lemma_dec_digits_mono(a: nat, b: nat)
    requires
        a <= b,
    ensures
        dec_digits(a) <= dec_digits(b),
    decreases b,
{
    if b >= 10 && a >= 10 {
        lemma_dec_digits_mono(a / 10, b / 10);
    }
}

/// A number no larger than a machine word has at most 20 digits.
pub(crate) proof fn lemma_dec_digits_small(n: nat)
    requires
        n <= 0xFFFF_FFFF_FFFF_FFFF,
    ensures
        dec_digits(n) <= 20,
{
    lemma_dec_digits_mono(n, 0xFFFF_FFFF_FFFF_FFFF as nat);
    assert(dec_digits(0xFFFF_FFFF_FFFF_FFFF as nat) == 20) by {
        reveal_with_fuel(dec_digits, 21);
    }
}

} // verus!
