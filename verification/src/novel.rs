//! Deciding which lines count as changed for highlighting.
//!
//! A side's line is highlighted when it holds at least one novel token,
//! or when it is blank and the other side has no line on the same row —
//! a synthetic blank insertion or deletion is highlighted even without a
//! novel token, so it stands out from unchanged blank context.

use crate::lines::{chars_of, strs_of};
use crate::types::{LineNumSet, LineNumber, MatchedPos};
use vstd::prelude::*;

verus! {

/// The set of line numbers holding at least one novel token.
pub open spec fn novel_lines_spec(mps: Seq<MatchedPos>) -> Set<usize> {
    Set::new(
        |l: usize|
            exists|i: int|
                0 <= i < mps.len() && (#[trigger] mps[i]).kind.spec_is_novel() && mps[i].pos.line.0
                    == l,
    )
}

/// Collects the line numbers whose tokens include a novel one.
fn collect_novel(mps: &[MatchedPos]) -> (r: LineNumSet)
    ensures
        r@ == novel_lines_spec(mps@),
{
    let mut s = LineNumSet::new();
    let mut i: usize = 0;
    proof {
        assert(s@ =~= novel_lines_spec(mps@.take(0)));
    }
    while i < mps.len()
        invariant
            0 <= i <= mps@.len(),
            s@ =~= novel_lines_spec(mps@.take(i as int)),
        decreases mps@.len() - i,
    {
        let ghost prev = s@;
        let mp = mps[i];
        if mp.kind.is_novel() {
            s.insert(mp.pos.line);
        }
        i += 1;
        proof {
            let t0 = mps@.take(i - 1);
            let t1 = mps@.take(i as int);
            assert(mps@[i - 1] == mp);
            assert forall|x: usize| novel_lines_spec(t1).contains(x) implies s@.contains(
                x,
            ) by {
                let j = choose|j: int|
                    0 <= j < t1.len() && (#[trigger] t1[j]).kind.spec_is_novel()
                        && t1[j].pos.line.0 == x;
                if j < i - 1 {
                    assert(t0[j] == t1[j]);
                    assert(novel_lines_spec(t0).contains(x));
                } else {
                    assert(t1[j] == mp);
                }
            }
            assert forall|x: usize| s@.contains(x) implies novel_lines_spec(t1).contains(
                x,
            ) by {
                if novel_lines_spec(t0).contains(x) {
                    let j = choose|j: int|
                        0 <= j < t0.len() && (#[trigger] t0[j]).kind.spec_is_novel()
                            && t0[j].pos.line.0 == x;
                    assert(t1[j] == t0[j]);
                } else {
                    assert(mp.kind.spec_is_novel() && mp.pos.line.0 == x);
                    assert(t1[i - 1] == mp);
                }
            }
            assert(s@ =~= novel_lines_spec(t1));
        }
    }
    proof {
        assert(mps@.take(mps@.len() as int) =~= mps@);
    }
    s
}

/// The sets of line numbers on each side that hold a novel token.
pub fn lines_with_novel(lhs_mps: &[MatchedPos], rhs_mps: &[MatchedPos]) -> (r: (
    LineNumSet,
    LineNumSet,
))
    ensures
        r.0@ == novel_lines_spec(lhs_mps@),
        r.1@ == novel_lines_spec(rhs_mps@),
{
    (collect_novel(lhs_mps), collect_novel(rhs_mps))
}

/// Unicode whitespace, as the standard library's trim removes it.
pub open spec fn is_ws_char(c: char) -> bool {
    c == ' ' || c == '\t' || c == '\n' || c == '\r' || c == '\u{b}' || c == '\u{c}' || c
        == '\u{85}' || c == '\u{a0}' || c == '\u{1680}' || ('\u{2000}' <= c && c <= '\u{200a}')
        || c == '\u{2028}' || c == '\u{2029}' || c == '\u{202f}' || c == '\u{205f}' || c
        == '\u{3000}'
}

/// A line whose trimmed content is empty.
pub open spec fn line_is_blank(l: Seq<char>) -> bool {
    forall|i: int| 0 <= i < l.len() ==> is_ws_char(#[trigger] l[i])
}

/// Whether `s` trims to the empty string.
fn is_blank_str(s: &str) -> (r: bool)
    ensures
        r == line_is_blank(s@),
{
    let chars = chars_of(s);
    let mut i: usize = 0;
    while i < chars.len()
        invariant
            0 <= i <= chars@.len(),
            chars@ == s@,
            forall|j: int| 0 <= j < i ==> is_ws_char(#[trigger] s@[j]),
        decreases chars@.len() - i,
    {
        let c = chars[i];
        let ws = c == ' ' || c == '\t' || c == '\n' || c == '\r' || c == '\u{b}' || c == '\u{c}'
            || c == '\u{85}' || c == '\u{a0}' || c == '\u{1680}' || ('\u{2000}' <= c && c
            <= '\u{200a}') || c == '\u{2028}' || c == '\u{2029}' || c == '\u{202f}' || c
            == '\u{205f}' || c == '\u{3000}';
        if !ws {
            return false;
        }
        i += 1;
    }
    true
}

/// What the novelty decision returns: false for an absent line; true for
/// a line in the novel set; true for a blank line with no opposing line
/// on this row; false otherwise.
pub open spec fn highlight_as_novel_spec(
    line_num: Option<LineNumber>,
    lines: Seq<Seq<char>>,
    opposite_line_num: Option<LineNumber>,
    lines_with_novel: Set<usize>,
) -> bool {
    match line_num {
        Some(n) => lines_with_novel.contains(n.0) || (n.0 < lines.len() && line_is_blank(
            lines[n.0 as int],
        ) && opposite_line_num is None),
        None => false,
    }
}

/// Decides whether this side's line of one row is shown as changed.
pub fn highlight_as_novel(
    line_num: Option<LineNumber>,
    lines: &[String],
    opposite_line_num: Option<LineNumber>,
    lines_with_novel: &LineNumSet,
) -> (r: bool)
    ensures
        r == highlight_as_novel_spec(line_num, strs_of(lines@), opposite_line_num,
            lines_with_novel@),
{
    match line_num {
        Some(n) => {
            if lines_with_novel.contains(n) {
                return true;
            }
            if n.0 < lines.len() {
                proof {
                    assert(strs_of(lines@)[n.0 as int] == lines@[n.0 as int]@);
                }
                if is_blank_str(lines[n.0].as_str()) {
                    match opposite_line_num {
                        None => true,
                        Some(_) => false,
                    }
                } else {
                    false
                }
            } else {
                false
            }
        },
        None => false,
    }
}

} // verus!
