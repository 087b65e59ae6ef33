//! Assembling the printed output: headers, the single-column rendering
//! for a whole-file addition or removal, and the per-line grouping of
//! style spans.

use crate::ansi::{
    bg_fixed_of, bright_green_of, bright_green_text, bright_red_of, bright_red_text, green_of,
    green_text, paint_bg_fixed, red_of, red_text,
};
use crate::dims::{
    max_lhs_line, max_rhs_line, nums_width, pairs_in_range, SourceDimensions,
};
use crate::lines::{
    chars_of, push_char, push_str, split_lines_spec, split_on_newlines, str_lines,
    str_lines_spec, strs_of,
};
use crate::novel::{highlight_as_novel, highlight_as_novel_spec, lines_with_novel,
    novel_lines_spec};
use crate::numfmt::{
    colored_present_cell, dec_chars, dec_digits, display_line_nums, format_missing_line_num,
    missing_cell_spec, present_cell_spec, seq_repeat, side_cell_spec, usize_to_chars,
};
use crate::types::{
    DisplayMode, DisplayOptions, Hunk, LineNumber, MatchedPos, Side, SingleLineSpan,
};
use crate::wrap::{frags_plain, split_and_apply};
use vstd::prelude::*;

verus! {

/// The header line above one hunk: the file pair (one path when both
/// sides show the same one), the hunk's one-based index and the hunk
/// count, and the language name.
#[verifier::opaque]
pub open spec fn header_spec(
    lhs_path: Seq<char>,
    rhs_path: Seq<char>,
    hunk_num: nat,
    hunk_total: nat,
    lang: Seq<char>,
) -> Seq<char> {
    (if lhs_path == rhs_path {
        lhs_path
    } else {
        lhs_path.add(" "@).add(rhs_path)
    }).add(" --- "@).add(dec_chars(hunk_num)).add("/"@).add(dec_chars(hunk_total)).add(
        " --- "@,
    ).add(lang)
}

/// Whether the two slices hold the same characters.
fn str_eq(a: &str, b: &str) -> (r: bool)
    ensures
        r == (a@ == b@),
{
    let av = crate::lines::chars_of(a);
    let bv = crate::lines::chars_of(b);
    if av.len() != bv.len() {
        proof {
            assert(a@ != b@);
        }
        return false;
    }
    let mut i: usize = 0;
    while i < av.len()
        invariant
            0 <= i <= av@.len(),
            av@ == a@,
            bv@ == b@,
            av@.len() == bv@.len(),
            forall|j: int| 0 <= j < i ==> av@[j] == bv@[j],
        decreases av@.len() - i,
    {
        if av[i] != bv[i] {
            proof {
                assert(a@[i as int] != b@[i as int]);
            }
            return false;
        }
        i += 1;
    }
    proof {
        assert(a@ =~= b@);
    }
    true
}

/// Renders the header line above one hunk.
pub fn header(
    lhs_display_path: &str,
    rhs_display_path: &str,
    hunk_num: usize,
    hunk_total: usize,
    lang_name: &str,
) -> (r: String)
    ensures
        r@ == header_spec(
            lhs_display_path@,
            rhs_display_path@,
            hunk_num as nat,
            hunk_total as nat,
            lang_name@,
        ),
{
    proof {
        reveal(header_spec);
    }
    let mut out = String::new();
    push_str(&mut out, lhs_display_path);
    if !str_eq(lhs_display_path, rhs_display_path) {
        push_str(&mut out, " ");
        push_str(&mut out, rhs_display_path);
    }
    push_str(&mut out, " --- ");
    let num = crate::lines::string_from_chars(&usize_to_chars(hunk_num));
    push_str(&mut out, num.as_str());
    push_str(&mut out, "/");
    let total = crate::lines::string_from_chars(&usize_to_chars(hunk_total));
    push_str(&mut out, total.as_str());
    push_str(&mut out, " --- ");
    push_str(&mut out, lang_name);
    out
}

/// The rows below the header in single-column output: one per line, a
/// number cell (novel-colored when color is on) then the line, each
/// ended by a line feed.
pub open spec fn single_col_body(
    lines: Seq<Seq<char>>,
    column_width: nat,
    use_color: bool,
    dark: bool,
    is_lhs: bool,
) -> Seq<char>
    decreases lines.len(),
{
    if lines.len() == 0 {
        Seq::<char>::empty()
    } else {
        single_col_body(lines.drop_last(), column_width, use_color, dark, is_lhs).add(
            present_cell_spec(
                (lines.len() - 1) as nat,
                column_width,
                true,
                use_color,
                dark,
                is_lhs,
            ),
        ).add(lines.last()).push('\n')
    }
}

/// The whole single-column rendering: header, then every line of `src`
/// numbered sequentially and styled as one added or removed block.
pub open spec fn single_column_spec(
    lhs_path: Seq<char>,
    rhs_path: Seq<char>,
    lang: Seq<char>,
    src: Seq<char>,
    is_lhs: bool,
    use_color: bool,
    dark: bool,
) -> Seq<char> {
    let lines = str_lines_spec(src);
    let column_width = nums_width(lines.len());
    header_spec(lhs_path, rhs_path, 1, 1, lang).push('\n').add(
        single_col_body(lines, column_width, use_color, dark, is_lhs),
    )
}

/// Renders `src` as a single column: a whole-file addition or removal.
/// Every line is numbered from one and, when color is on, its number
/// cell carries the side's novel color.
pub fn display_single_column(
    lhs_display_path: &str,
    rhs_display_path: &str,
    lang_name: &str,
    src: &str,
    is_lhs: bool,
    display_options: &DisplayOptions,
) -> (r: String)
    requires
        src@.len() < usize::MAX,
    ensures
        r@ == single_column_spec(
            lhs_display_path@,
            rhs_display_path@,
            lang_name@,
            src@,
            is_lhs,
            display_options.use_color,
            display_options.background_color.spec_is_dark(),
        ),
{
    let use_color = display_options.use_color;
    let dark = display_options.background_color.is_dark();
    let lines = str_lines(src);
    proof {
        crate::lines::lemma_str_lines_count(src@);
    }
    let column_width = crate::dims::num_width_exec(lines.len());
    let mut out = header(lhs_display_path, rhs_display_path, 1, 1, lang_name);
    push_char(&mut out, '\n');
    let ghost lv = strs_of(lines@);
    let ghost cw = column_width as nat;
    let mut i: usize = 0;
    while i < lines.len()
        invariant
            0 <= i <= lines@.len(),
            lv == strs_of(lines@),
            lv == str_lines_spec(src@),
            lv.len() < usize::MAX,
            cw == column_width as nat,
            column_width >= 1,
            out@ =~= header_spec(
                lhs_display_path@,
                rhs_display_path@,
                1,
                1,
                lang_name@,
            ).push('\n').add(single_col_body(lv.take(i as int), cw, use_color, dark, is_lhs)),
        decreases lines@.len() - i,
    {
        let cell = colored_present_cell(LineNumber(i), column_width, true, use_color, dark, is_lhs);
        push_str(&mut out, cell.as_str());
        push_str(&mut out, lines[i].as_str());
        push_char(&mut out, '\n');
        i += 1;
        proof {
            let t = lv.take(i as int);
            assert(t.drop_last() =~= lv.take(i - 1));
            assert(t.last() == lv[i - 1]);
            assert(lv[i - 1] == lines@[i - 1]@);
            assert(out@ =~= header_spec(
                lhs_display_path@,
                rhs_display_path@,
                1,
                1,
                lang_name@,
            ).push('\n').add(single_col_body(t, cw, use_color, dark, is_lhs)));
        }
    }
    proof {
        assert(lv.take(lv.len() as int) =~= lv);
    }
    out
}

/// The spans of `spans` that lie on line `l`, in their given order.
pub open spec fn spans_for_line(
    spans: Seq<(SingleLineSpan, owo_colors::Style)>,
    l: nat,
) -> Seq<(SingleLineSpan, owo_colors::Style)>
    decreases spans.len(),
{
    if spans.len() == 0 {
        Seq::empty()
    } else {
        let p = spans_for_line(spans.drop_last(), l);
        if spans.last().0.line.0 == l {
            p.push(spans.last())
        } else {
            p
        }
    }
}

/// Groups a flat, position-ordered span list into per-line collections,
/// one per line of the side's table.
pub fn bucket_highlights(
    n_lines: usize,
    spans: &[(SingleLineSpan, owo_colors::Style)],
) -> (r: Vec<Vec<(SingleLineSpan, owo_colors::Style)>>)
    ensures
        r@.len() == n_lines,
        forall|l: int| 0 <= l < n_lines ==> (#[trigger] r@[l])@ == spans_for_line(spans@, l as nat),
{
    let mut out: Vec<Vec<(SingleLineSpan, owo_colors::Style)>> = Vec::new();
    let mut l: usize = 0;
    while l < n_lines
        invariant
            0 <= l <= n_lines,
            out@.len() == l,
            forall|k: int|
                0 <= k < l ==> (#[trigger] out@[k])@ == spans_for_line(spans@, k as nat),
        decreases n_lines - l,
    {
        let mut bucket: Vec<(SingleLineSpan, owo_colors::Style)> = Vec::new();
        let mut j: usize = 0;
        while j < spans.len()
            invariant
                0 <= j <= spans@.len(),
                bucket@ =~= spans_for_line(spans@.take(j as int), l as nat),
            decreases spans@.len() - j,
        {
            let sp = spans[j];
            if sp.0.line.0 == l {
                bucket.push(sp);
            }
            j += 1;
            proof {
                let t = spans@.take(j as int);
                assert(t.drop_last() =~= spans@.take(j - 1));
                assert(t.last() == spans@[j - 1]);
                assert(bucket@ =~= spans_for_line(t, l as nat));
            }
        }
        proof {
            assert(spans@.take(spans@.len() as int) =~= spans@);
        }
        out.push(bucket);
        l += 1;
    }
    out
}

/// The larger of two widths.
pub open spec fn max_nat(a: nat, b: nat) -> nat {
    if a >= b {
        a
    } else {
        b
    }
}

/// The visible width of one side's number cell: the column width, or
/// more when the rendered reference number outgrows it.
pub open spec fn cell_vis(num: Option<LineNumber>, prev: Option<LineNumber>, cw: nat) -> nat {
    let d: nat = match num {
        Some(n) => dec_digits((n.0 + 1) as nat),
        None => dec_digits(
            ((match prev {
                Some(p) => p.0 as nat,
                None => 1nat,
            }) + 1) as nat,
        ),
    };
    max_nat((cw - 1) as nat, d) + 1
}

/// `s`, painted with the fixed background color when `on` holds.
pub open spec fn maybe_bg(s: Seq<char>, on: bool, code: u8) -> Seq<char> {
    if on {
        bg_fixed_of(s, code)
    } else {
        s
    }
}

/// The text of one fast-path row before its line feed: the number cells,
/// the content, and — when the line is novel — spaces up to the terminal
/// width under a background fill.
pub open spec fn fast_row_spec(
    prefix: Seq<char>,
    prefix_vis: nat,
    content: Seq<char>,
    content_vis: nat,
    novel: bool,
    width: nat,
    code: u8,
) -> Seq<char> {
    let base = prefix.add(content);
    if novel {
        bg_fixed_of(base.add(seq_repeat(' ', fast_pad(prefix_vis, content_vis, width))), code)
    } else {
        base
    }
}

/// How many spaces a highlighted fast-path row is padded with: up to the
/// terminal width, none when the visible text already overflows it.
pub open spec fn fast_pad(prefix_vis: nat, content_vis: nat, width: nat) -> nat {
    if prefix_vis + content_vis <= width {
        (width - prefix_vis - content_vis) as nat
    } else {
        0
    }
}

/// Law: a highlighted fast-path row whose cells and content fit the
/// terminal is padded to exactly the terminal width — its visible text
/// (cells, content, padding) fills every column.
pub proof fn lemma_fast_row_fills(
    prefix: Seq<char>,
    content: Seq<char>,
    width: nat,
)
    requires
        prefix.len() + content.len() <= width,
    ensures
        prefix.add(content).add(
            seq_repeat(' ', fast_pad(prefix.len(), content.len(), width)),
        ).len() == width,
{
}

/// The continuation cell before the second and later fragments of one
/// wrapped line: the placeholder form referencing this row's own number,
/// colored by side when the line holds a novel token.
pub open spec fn cont_cell_spec(
    num: Option<LineNumber>,
    prev: Option<LineNumber>,
    cw: nat,
    maxl: nat,
    in_novel_set: bool,
    use_color: bool,
    dark: bool,
    is_lhs: bool,
) -> Seq<char> {
    let refn: nat = match num {
        Some(n) => n.0 as nat,
        None => match prev {
            Some(p) => p.0 as nat,
            None => 10nat,
        },
    };
    let base = missing_cell_spec(refn, cw, refn >= maxl, use_color);
    if num is Some && in_novel_set {
        if dark {
            if is_lhs {
                bright_red_of(base)
            } else {
                bright_green_of(base)
            }
        } else {
            if is_lhs {
                red_of(base)
            } else {
                green_of(base)
            }
        }
    } else {
        base
    }
}

/// One printed row of the general path: each side's cell and fragment,
/// each side filled with its background color when its line is novel,
/// the spacer between them.
#[verifier::opaque]
pub open spec fn gen_row_spec(
    k: nat,
    lfr: Seq<Seq<char>>,
    rfr: Seq<Seq<char>>,
    lcw: nat,
    cell_l: Seq<char>,
    cell_r: Seq<char>,
    cont_l: Seq<char>,
    cont_r: Seq<char>,
    l_on: bool,
    r_on: bool,
) -> Seq<char> {
    let lpart = if k < lfr.len() {
        lfr[k as int]
    } else {
        seq_repeat(' ', lcw)
    };
    let rpart = if k < rfr.len() {
        rfr[k as int]
    } else {
        Seq::<char>::empty()
    };
    let lcell = if k == 0 {
        cell_l
    } else {
        cont_l
    };
    let rcell = if k == 0 {
        cell_r
    } else {
        cont_r
    };
    maybe_bg(lcell.add(lpart), l_on, 224).add(" "@).add(
        maybe_bg(rcell.add(rpart), r_on, 194),
    ).push('\n')
}

/// The first `count` rows of the general path, in order.
#[verifier::opaque]
pub open spec fn gen_rows_spec(
    count: nat,
    lfr: Seq<Seq<char>>,
    rfr: Seq<Seq<char>>,
    lcw: nat,
    cell_l: Seq<char>,
    cell_r: Seq<char>,
    cont_l: Seq<char>,
    cont_r: Seq<char>,
    l_on: bool,
    r_on: bool,
) -> Seq<char>
    decreases count,
{
    if count == 0 {
        Seq::<char>::empty()
    } else {
        gen_rows_spec(
            (count - 1) as nat,
            lfr,
            rfr,
            lcw,
            cell_l,
            cell_r,
            cont_l,
            cont_r,
            l_on,
            r_on,
        ).add(
            gen_row_spec((count - 1) as nat, lfr, rfr, lcw, cell_l, cell_r, cont_l, cont_r, l_on,
                r_on),
        )
    }
}

/// The widths and flags one hunk's rows are rendered under.
pub ghost struct RowCtx {
    pub lw: nat,
    pub rw: nat,
    pub lmax: nat,
    pub rmax: nat,
    pub lcw: nat,
    pub rcw: nat,
    pub same: bool,
    pub no_l: bool,
    pub no_r: bool,
}

/// Every pair of the hunk shows the same number on both sides.
pub open spec fn all_same(pairs: Seq<(Option<LineNumber>, Option<LineNumber>)>) -> bool {
    forall|j: int| 0 <= j < pairs.len() ==> (#[trigger] pairs[j]).0 == pairs[j].1
}

/// The row context of one hunk: widths from the dimension planner, the
/// three hunk-scoped flags.
pub open spec fn row_ctx_of(h: Hunk, width: nat) -> RowCtx {
    let lw = nums_width(max_lhs_line(h.lines@));
    let rw = nums_width(max_rhs_line(h.lines@));
    RowCtx {
        lw: lw,
        rw: rw,
        lmax: max_lhs_line(h.lines@),
        rmax: max_rhs_line(h.lines@),
        lcw: ((width - 1) / 2 - lw) as nat,
        rcw: (width - (width - 1) / 2 - 1 - rw) as nat,
        same: all_same(h.lines@),
        no_l: h.novel_lhs@ =~= Set::<usize>::empty(),
        no_r: h.novel_rhs@ =~= Set::<usize>::empty(),
    }
}

/// The text one aligned pair prints: the fast path when one side of the
/// hunk is unchanged (and the mode does not ask for both), wrapped and
/// zipped fragments otherwise.
pub open spec fn row_block_spec(
    pair: (Option<LineNumber>, Option<LineNumber>),
    prev_l: Option<LineNumber>,
    prev_r: Option<LineNumber>,
    rc: RowCtx,
    ll: Seq<Seq<char>>,
    rl: Seq<Seq<char>>,
    lcl: Seq<Seq<char>>,
    rcl: Seq<Seq<char>>,
    novel_l: Set<usize>,
    novel_r: Set<usize>,
    use_color: bool,
    dark: bool,
    show_both: bool,
    width: nat,
) -> Seq<char> {
    let lhs_novel = highlight_as_novel_spec(pair.0, ll, pair.1, novel_l);
    let rhs_novel = highlight_as_novel_spec(pair.1, rl, pair.0, novel_r);
    let cell_l = side_cell_spec(pair.0, prev_l, rc.lw, rc.lmax, lhs_novel, use_color, dark, true);
    let cell_r = side_cell_spec(pair.1, prev_r, rc.rw, rc.rmax, rhs_novel, use_color, dark, false);
    let vis_l = cell_vis(pair.0, prev_l, rc.lw);
    let vis_r = cell_vis(pair.1, prev_r, rc.rw);
    if rc.no_l && !show_both {
        match pair.1 {
            Some(rn) => fast_row_spec(
                if rc.same {
                    cell_r
                } else {
                    cell_l.add(cell_r)
                },
                if rc.same {
                    vis_r
                } else {
                    (vis_l + vis_r) as nat
                },
                rcl[rn.0 as int],
                rl[rn.0 as int].len(),
                novel_r.contains(rn.0),
                width,
                194,
            ).push('\n'),
            None => cell_l.add(cell_r).push('\n'),
        }
    } else if rc.no_r && !show_both {
        match pair.0 {
            Some(ln) => fast_row_spec(
                if rc.same {
                    cell_l
                } else {
                    cell_l.add(cell_r)
                },
                if rc.same {
                    vis_l
                } else {
                    (vis_l + vis_r) as nat
                },
                lcl[ln.0 as int],
                ll[ln.0 as int].len(),
                novel_l.contains(ln.0),
                width,
                224,
            ).push('\n'),
            None => cell_l.add(cell_r).push('\n'),
        }
    } else {
        gen_block_spec(pair, prev_l, prev_r, rc, ll, rl, novel_l, novel_r, use_color, dark, cell_l,
            cell_r)
    }
}

/// The rows of one pair on the general path: both sides wrapped to their
/// content widths and zipped, fragment by fragment.
pub open spec fn gen_block_spec(
    pair: (Option<LineNumber>, Option<LineNumber>),
    prev_l: Option<LineNumber>,
    prev_r: Option<LineNumber>,
    rc: RowCtx,
    ll: Seq<Seq<char>>,
    rl: Seq<Seq<char>>,
    novel_l: Set<usize>,
    novel_r: Set<usize>,
    use_color: bool,
    dark: bool,
    cell_l: Seq<char>,
    cell_r: Seq<char>,
) -> Seq<char> {
    let lfr = match pair.0 {
        Some(n) => frags_plain(ll[n.0 as int], rc.lcw, true),
        None => seq![seq_repeat(' ', rc.lcw)],
    };
    let rfr = match pair.1 {
        Some(n) => frags_plain(rl[n.0 as int], rc.rcw, false),
        None => seq![Seq::<char>::empty()],
    };
    let l_on = match pair.0 {
        Some(n) => novel_l.contains(n.0),
        None => false,
    };
    let r_on = match pair.1 {
        Some(n) => novel_r.contains(n.0),
        None => false,
    };
    let cont_l = cont_cell_spec(pair.0, prev_l, rc.lw, rc.lmax, l_on, use_color, dark, true);
    let cont_r = cont_cell_spec(pair.1, prev_r, rc.rw, rc.rmax, r_on, use_color, dark, false);
    gen_rows_spec(
        max_nat(lfr.len(), rfr.len()),
        lfr,
        rfr,
        rc.lcw,
        cell_l,
        cell_r,
        cont_l,
        cont_r,
        l_on,
        r_on,
    )
}

/// Law: when a hunk has no left-side changes and the mode is the
/// default, a row with a right-side line prints only that line's content
/// — behind one shared number cell when the hunk's numbers coincide,
/// both cells otherwise — under the green-family background fill exactly
/// when the line is novel, and with no fill otherwise.
pub proof fn lemma_unchanged_left_fast_path(
    pair: (Option<LineNumber>, Option<LineNumber>),
    prev_l: Option<LineNumber>,
    prev_r: Option<LineNumber>,
    rc: RowCtx,
    ll: Seq<Seq<char>>,
    rl: Seq<Seq<char>>,
    lcl: Seq<Seq<char>>,
    rcl: Seq<Seq<char>>,
    novel_l: Set<usize>,
    novel_r: Set<usize>,
    use_color: bool,
    dark: bool,
    width: nat,
    rn: LineNumber,
)
    requires
        rc.no_l,
        pair.1 == Some(rn),
    ensures
        ({
            let lhs_novel = highlight_as_novel_spec(pair.0, ll, pair.1, novel_l);
            let rhs_novel = highlight_as_novel_spec(pair.1, rl, pair.0, novel_r);
            let cell_l = side_cell_spec(pair.0, prev_l, rc.lw, rc.lmax, lhs_novel, use_color,
                dark, true);
            let cell_r = side_cell_spec(pair.1, prev_r, rc.rw, rc.rmax, rhs_novel, use_color,
                dark, false);
            let prefix = if rc.same {
                cell_r
            } else {
                cell_l.add(cell_r)
            };
            let pvis: nat = if rc.same {
                cell_vis(pair.1, prev_r, rc.rw)
            } else {
                (cell_vis(pair.0, prev_l, rc.lw) + cell_vis(pair.1, prev_r, rc.rw)) as nat
            };
            let row = row_block_spec(pair, prev_l, prev_r, rc, ll, rl, lcl, rcl, novel_l,
                novel_r, use_color, dark, false, width);
            &&& row == fast_row_spec(
                prefix,
                pvis,
                rcl[rn.0 as int],
                rl[rn.0 as int].len(),
                novel_r.contains(rn.0),
                width,
                194,
            ).push('\n')
            &&& !novel_r.contains(rn.0) ==> row == prefix.add(rcl[rn.0 as int]).push('\n')
        }),
{
}

/// Law: symmetrically, when only the right side of a hunk is unchanged,
/// a row with a left-side line prints only that line's content, under
/// the red-family background fill exactly when the line is novel.
pub proof fn lemma_unchanged_right_fast_path(
    pair: (Option<LineNumber>, Option<LineNumber>),
    prev_l: Option<LineNumber>,
    prev_r: Option<LineNumber>,
    rc: RowCtx,
    ll: Seq<Seq<char>>,
    rl: Seq<Seq<char>>,
    lcl: Seq<Seq<char>>,
    rcl: Seq<Seq<char>>,
    novel_l: Set<usize>,
    novel_r: Set<usize>,
    use_color: bool,
    dark: bool,
    width: nat,
    ln: LineNumber,
)
    requires
        !rc.no_l,
        rc.no_r,
        pair.0 == Some(ln),
    ensures
        ({
            let lhs_novel = highlight_as_novel_spec(pair.0, ll, pair.1, novel_l);
            let rhs_novel = highlight_as_novel_spec(pair.1, rl, pair.0, novel_r);
            let cell_l = side_cell_spec(pair.0, prev_l, rc.lw, rc.lmax, lhs_novel, use_color,
                dark, true);
            let cell_r = side_cell_spec(pair.1, prev_r, rc.rw, rc.rmax, rhs_novel, use_color,
                dark, false);
            let prefix = if rc.same {
                cell_l
            } else {
                cell_l.add(cell_r)
            };
            let pvis: nat = if rc.same {
                cell_vis(pair.0, prev_l, rc.lw)
            } else {
                (cell_vis(pair.0, prev_l, rc.lw) + cell_vis(pair.1, prev_r, rc.rw)) as nat
            };
            let row = row_block_spec(pair, prev_l, prev_r, rc, ll, rl, lcl, rcl, novel_l,
                novel_r, use_color, dark, false, width);
            &&& row == fast_row_spec(
                prefix,
                pvis,
                lcl[ln.0 as int],
                ll[ln.0 as int].len(),
                novel_l.contains(ln.0),
                width,
                224,
            ).push('\n')
            &&& !novel_l.contains(ln.0) ==> row == prefix.add(lcl[ln.0 as int]).push('\n')
        }),
{
}

/// The side's reference number after a row: its line number when it had
/// one, the previous reference otherwise.
pub open spec fn next_prev(p: Option<LineNumber>, q: Option<LineNumber>) -> Option<
    LineNumber,
> {
    if q is Some {
        q
    } else {
        p
    }
}

/// The first `j` rows of one hunk and the reference numbers they leave
/// behind.
pub open spec fn hunk_rows_spec(
    pairs: Seq<(Option<LineNumber>, Option<LineNumber>)>,
    j: nat,
    prev_l: Option<LineNumber>,
    prev_r: Option<LineNumber>,
    rc: RowCtx,
    ll: Seq<Seq<char>>,
    rl: Seq<Seq<char>>,
    lcl: Seq<Seq<char>>,
    rcl: Seq<Seq<char>>,
    novel_l: Set<usize>,
    novel_r: Set<usize>,
    use_color: bool,
    dark: bool,
    show_both: bool,
    width: nat,
) -> (Seq<char>, Option<LineNumber>, Option<LineNumber>)
    decreases j,
{
    if j == 0 {
        (Seq::<char>::empty(), prev_l, prev_r)
    } else {
        let (acc, pl, pr) = hunk_rows_spec(
            pairs,
            (j - 1) as nat,
            prev_l,
            prev_r,
            rc,
            ll,
            rl,
            lcl,
            rcl,
            novel_l,
            novel_r,
            use_color,
            dark,
            show_both,
            width,
        );
        let pair = pairs[j - 1];
        (
            acc.add(
                row_block_spec(pair, pl, pr, rc, ll, rl, lcl, rcl, novel_l, novel_r, use_color,
                    dark, show_both, width),
            ),
            next_prev(pl, pair.0),
            next_prev(pr, pair.1),
        )
    }
}

/// The output of the first `i` hunks and the reference numbers they
/// leave behind: per hunk a header, its rows, one blank line.
pub open spec fn hunks_spec(
    hunks: Seq<Hunk>,
    i: nat,
    prev_l: Option<LineNumber>,
    prev_r: Option<LineNumber>,
    lhs_path: Seq<char>,
    rhs_path: Seq<char>,
    lang: Seq<char>,
    ll: Seq<Seq<char>>,
    rl: Seq<Seq<char>>,
    lcl: Seq<Seq<char>>,
    rcl: Seq<Seq<char>>,
    novel_l: Set<usize>,
    novel_r: Set<usize>,
    use_color: bool,
    dark: bool,
    show_both: bool,
    width: nat,
) -> (Seq<char>, Option<LineNumber>, Option<LineNumber>)
    decreases i,
{
    if i == 0 {
        (Seq::<char>::empty(), prev_l, prev_r)
    } else {
        let (acc, pl, pr) = hunks_spec(
            hunks,
            (i - 1) as nat,
            prev_l,
            prev_r,
            lhs_path,
            rhs_path,
            lang,
            ll,
            rl,
            lcl,
            rcl,
            novel_l,
            novel_r,
            use_color,
            dark,
            show_both,
            width,
        );
        let h = hunks[i - 1];
        let (body, pl2, pr2) = hunk_rows_spec(
            h.lines@,
            h.lines@.len(),
            pl,
            pr,
            row_ctx_of(h, width),
            ll,
            rl,
            lcl,
            rcl,
            novel_l,
            novel_r,
            use_color,
            dark,
            show_both,
            width,
        );
        (
            acc.add(header_spec(lhs_path, rhs_path, i, hunks.len(), lang).push('\n')).add(
                body,
            ).push('\n'),
            pl2,
            pr2,
        )
    }
}

/// A run of `n` spaces.
fn spaces(n: usize) -> (r: String)
    ensures
        r@ == seq_repeat(' ', n as nat),
{
    let mut v: Vec<char> = Vec::new();
    crate::numfmt::push_repeat(&mut v, ' ', n);
    proof {
        assert(v@ =~= seq_repeat(' ', n as nat));
    }
    crate::lines::string_from_chars(&v)
}

/// The number of characters in `s`.
fn char_count(s: &str) -> (r: usize)
    ensures
        r == s@.len(),
{
    let v = chars_of(s);
    v.len()
}

/// Computes the visible width of one side's number cell.
fn cell_vis_exec(num: Option<LineNumber>, prev: Option<LineNumber>, cw: usize) -> (r: usize)
    requires
        cw >= 1,
        num matches Some(n) ==> n.0 < usize::MAX,
        prev matches Some(p) ==> p.0 < usize::MAX,
    ensures
        r == cell_vis(num, prev, cw as nat),
{
    let refn: LineNumber = match num {
        Some(n) => n,
        None => match prev {
            Some(p) => p,
            None => LineNumber(1),
        },
    };
    let digits = usize_to_chars(refn.one_indexed());
    proof {
        crate::numfmt::lemma_dec_chars_len((refn.0 + 1) as nat);
        crate::dims::lemma_dec_digits_small((refn.0 + 1) as nat);
    }
    let d = digits.len();
    if cw - 1 >= d {
        cw
    } else {
        d + 1
    }
}

/// Whether the two optional numbers are the same.
fn pair_eq(a: Option<LineNumber>, b: Option<LineNumber>) -> (r: bool)
    ensures
        r == (a == b),
{
    match (a, b) {
        (None, None) => true,
        (Some(x), Some(y)) => x.0 == y.0,
        _ => false,
    }
}

/// Whether every pair shows the same number on both sides.
fn all_same_exec(pairs: &[(Option<LineNumber>, Option<LineNumber>)]) -> (r: bool)
    ensures
        r == all_same(pairs@),
{
    let mut j: usize = 0;
    while j < pairs.len()
        invariant
            0 <= j <= pairs@.len(),
            forall|k: int| 0 <= k < j ==> (#[trigger] pairs@[k]).0 == pairs@[k].1,
        decreases pairs@.len() - j,
    {
        let pair = pairs[j];
        if !pair_eq(pair.0, pair.1) {
            return false;
        }
        j += 1;
    }
    true
}

/// One hunk's pairs are renderable: every line number fits the machine,
/// indexes its side's plain and colored line tables, and leaves the
/// terminal room for both number columns, the spacer and at least one
/// content column per side.
pub open spec fn hunk_ok(
    pairs: Seq<(Option<LineNumber>, Option<LineNumber>)>,
    width: nat,
    n_ll: nat,
    n_rl: nat,
    n_lcl: nat,
    n_rcl: nat,
) -> bool {
    &&& pairs_in_range(pairs)
    &&& width >= 1
    &&& (width - 1) / 2 >= nums_width(max_lhs_line(pairs)) + 1
    &&& width - 1 - (width - 1) / 2 >= nums_width(max_rhs_line(pairs)) + 1
    &&& forall|j: int|
        0 <= j < pairs.len() ==> (match (#[trigger] pairs[j]).0 {
            Some(l) => l.0 < n_ll && l.0 < n_lcl,
            None => true,
        } && match pairs[j].1 {
            Some(l) => l.0 < n_rl && l.0 < n_rcl,
            None => true,
        })
}

/// The side's line tables used for content: the colored tables when
/// color is on, the plain ones otherwise.
pub open spec fn chosen_lines(colored: Seq<char>, plain: Seq<char>, use_color: bool) -> Seq<
    Seq<char>,
> {
    if use_color {
        split_lines_spec(colored)
    } else {
        split_lines_spec(plain)
    }
}

/// Renders the row(s) of one aligned pair and appends them to `out`.
#[allow(unused_variables)]
#[verifier::rlimit(100)]
fn render_row_block(
    out: &mut String,
    pair: (Option<LineNumber>, Option<LineNumber>),
    prev_lhs: Option<LineNumber>,
    prev_rhs: Option<LineNumber>,
    dims: &SourceDimensions,
    Ghost(rc): Ghost<RowCtx>,
    lhs_lines: &Vec<String>,
    rhs_lines: &Vec<String>,
    lhs_colored_lines: &Vec<String>,
    rhs_colored_lines: &Vec<String>,
    novel_l: &crate::types::LineNumSet,
    novel_r: &crate::types::LineNumSet,
    lhs_buckets: &Vec<Vec<(SingleLineSpan, owo_colors::Style)>>,
    rhs_buckets: &Vec<Vec<(SingleLineSpan, owo_colors::Style)>>,
    display_options: &DisplayOptions,
    same: bool,
    no_l: bool,
    no_r: bool,
    show_both: bool,
    plain: bool,
)
    requires
        dims.lhs_line_nums_width as nat == rc.lw,
        dims.rhs_line_nums_width as nat == rc.rw,
        dims.lhs_max_line.0 as nat == rc.lmax,
        dims.rhs_max_line.0 as nat == rc.rmax,
        dims.lhs_content_width as nat == rc.lcw,
        dims.rhs_content_width as nat == rc.rcw,
        dims.lhs_line_nums_width >= 1,
        dims.rhs_line_nums_width >= 1,
        dims.lhs_content_width >= 1,
        dims.rhs_content_width >= 1,
        same == rc.same,
        no_l == rc.no_l,
        no_r == rc.no_r,
        pair.0 matches Some(n) ==> n.0 < usize::MAX && n.0 < lhs_lines@.len() && n.0
            < lhs_colored_lines@.len(),
        pair.1 matches Some(n) ==> n.0 < usize::MAX && n.0 < rhs_lines@.len() && n.0
            < rhs_colored_lines@.len(),
        prev_lhs matches Some(p) ==> p.0 < usize::MAX,
        prev_rhs matches Some(p) ==> p.0 < usize::MAX,
        lhs_buckets@.len() == lhs_lines@.len(),
        rhs_buckets@.len() == rhs_lines@.len(),
        plain && display_options.use_color ==> (forall|l: int|
            0 <= l < lhs_buckets@.len() ==> (#[trigger] lhs_buckets@[l])@.len() == 0)
            && (forall|l: int|
            0 <= l < rhs_buckets@.len() ==> (#[trigger] rhs_buckets@[l])@.len() == 0),
    ensures
        final(out)@.len() > old(out)@.len(),
        final(out)@.take(old(out)@.len() as int) == old(out)@,
        final(out)@.last() == '\n',
        plain ==> final(out)@ == old(out)@.add(
            row_block_spec(
                pair,
                prev_lhs,
                prev_rhs,
                rc,
                strs_of(lhs_lines@),
                strs_of(rhs_lines@),
                strs_of(lhs_colored_lines@),
                strs_of(rhs_colored_lines@),
                novel_l@,
                novel_r@,
                display_options.use_color,
                display_options.background_color.spec_is_dark(),
                show_both,
                display_options.display_width as nat,
            ),
        ),
{
    let use_color = display_options.use_color;
    let dark = display_options.background_color.is_dark();
    let width = display_options.display_width;
    let lhs_line_novel = highlight_as_novel(pair.0, lhs_lines.as_slice(), pair.1, novel_l);
    let rhs_line_novel = highlight_as_novel(pair.1, rhs_lines.as_slice(), pair.0, novel_r);
    let (display_lhs_line_num, display_rhs_line_num) = display_line_nums(
        pair.0,
        pair.1,
        dims,
        use_color,
        display_options.background_color,
        lhs_line_novel,
        rhs_line_novel,
        prev_lhs,
        prev_rhs,
    );

    if no_l && !show_both {
        render_fast_right_row(
            out,
            pair,
            prev_lhs,
            prev_rhs,
            dims,
            Ghost(rc),
            lhs_lines,
            rhs_lines,
            lhs_colored_lines,
            rhs_colored_lines,
            novel_l,
            novel_r,
            display_options,
            &display_lhs_line_num,
            &display_rhs_line_num,
            same,
            show_both,
            plain,
        );
        return;
    }
    if no_r && !show_both {
        render_fast_left_row(
            out,
            pair,
            prev_lhs,
            prev_rhs,
            dims,
            Ghost(rc),
            lhs_lines,
            rhs_lines,
            lhs_colored_lines,
            rhs_colored_lines,
            novel_l,
            novel_r,
            display_options,
            &display_lhs_line_num,
            &display_rhs_line_num,
            same,
            show_both,
            plain,
        );
        return;
    }
    // General path: wrap both sides and zip the fragments.
    render_general_rows(
        out,
        pair,
        prev_lhs,
        prev_rhs,
        dims,
        Ghost(rc),
        lhs_lines,
        rhs_lines,
        novel_l,
        novel_r,
        lhs_buckets,
        rhs_buckets,
        display_options,
        &display_lhs_line_num,
        &display_rhs_line_num,
        plain,
    );
}



/// Wraps one side's line of a row into its fragments: a single blank (or
/// empty, on the right) fragment when the side has no line.
#[verifier::rlimit(100)]
fn side_fragments(
    num: Option<LineNumber>,
    lines: &Vec<String>,
    buckets: &Vec<Vec<(SingleLineSpan, owo_colors::Style)>>,
    content_width: usize,
    use_color: bool,
    side: Side,
    plain: bool,
) -> (r: Vec<String>)
    requires
        content_width >= 1,
        num matches Some(n) ==> n.0 < lines@.len(),
        buckets@.len() == lines@.len(),
        plain && use_color ==> forall|l: int|
            0 <= l < buckets@.len() ==> (#[trigger] buckets@[l])@.len() == 0,
    ensures
        r@.len() >= 1,
        plain ==> strs_of(r@) == (match num {
            Some(n) => frags_plain(
                strs_of(lines@)[n.0 as int],
                content_width as nat,
                side is Left,
            ),
            None => if side is Left {
                seq![seq_repeat(' ', content_width as nat)]
            } else {
                seq![Seq::<char>::empty()]
            },
        }),
{
    match num {
        Some(n) => {
            let frags = split_and_apply(
                lines[n.0].as_str(),
                content_width,
                use_color,
                buckets[n.0].as_slice(),
                side,
            );
            proof {
                assert(strs_of(lines@)[n.0 as int] == lines@[n.0 as int]@);
                if plain && use_color {
                    assert(buckets@[n.0 as int]@.len() == 0);
                }
                assert(crate::wrap::chunks_spec(
                    lines@[n.0 as int]@,
                    content_width as nat,
                ).len() >= 1);
            }
            frags
        },
        None => {
            let mut v: Vec<String> = Vec::new();
            match side {
                Side::Left => {
                    v.push(spaces(content_width));
                },
                Side::Right => {
                    v.push(String::new());
                },
            }
            proof {
                if side is Left {
                    assert(strs_of(v@) =~= seq![seq_repeat(' ', content_width as nat)]);
                } else {
                    assert(strs_of(v@) =~= seq![Seq::<char>::empty()]);
                }
            }
            v
        },
    }
}

/// Emits one zipped row of the general path: this row's cells and
/// fragments, each side filled when its line is novel, the spacer
/// between, a line feed after.
#[verifier::rlimit(100)]
fn render_one_gen_row(
    out: &mut String,
    k: usize,
    lhs_frags: &Vec<String>,
    rhs_frags: &Vec<String>,
    display_lhs_line_num: &String,
    display_rhs_line_num: &String,
    cont_l: &String,
    cont_r: &String,
    blank_l: &String,
    l_on: bool,
    r_on: bool,
    Ghost(lcw): Ghost<nat>,
)
    requires
        blank_l@ == seq_repeat(' ', lcw),
    ensures
        final(out)@ == old(out)@.add(
            gen_row_spec(
                k as nat,
                strs_of(lhs_frags@),
                strs_of(rhs_frags@),
                lcw,
                display_lhs_line_num@,
                display_rhs_line_num@,
                cont_l@,
                cont_r@,
                l_on,
                r_on,
            ),
        ),
{
    let ghost lfr = strs_of(lhs_frags@);
    let ghost rfr = strs_of(rhs_frags@);
    let mut lrow = String::new();
    if k == 0 {
        push_str(&mut lrow, display_lhs_line_num.as_str());
    } else {
        push_str(&mut lrow, cont_l.as_str());
    }
    if k < lhs_frags.len() {
        push_str(&mut lrow, lhs_frags[k].as_str());
    } else {
        push_str(&mut lrow, blank_l.as_str());
    }
    let ghost lrowv = lrow@;
    let lpainted = if l_on {
        paint_bg_fixed(lrow.as_str(), 224)
    } else {
        lrow
    };
    let mut rrow = String::new();
    if k == 0 {
        push_str(&mut rrow, display_rhs_line_num.as_str());
    } else {
        push_str(&mut rrow, cont_r.as_str());
    }
    if k < rhs_frags.len() {
        push_str(&mut rrow, rhs_frags[k].as_str());
    }
    let ghost rrowv = rrow@;
    let rpainted = if r_on {
        paint_bg_fixed(rrow.as_str(), 194)
    } else {
        rrow
    };
    push_str(out, lpainted.as_str());
    push_str(out, " ");
    push_str(out, rpainted.as_str());
    push_char(out, '\n');
    proof {
        reveal(gen_row_spec);
        if (k as int) < lhs_frags@.len() {
            assert(lfr[k as int] == lhs_frags@[k as int]@);
        }
        if (k as int) < rhs_frags@.len() {
            assert(rfr[k as int] == rhs_frags@[k as int]@);
        }
        let lpart = if (k as nat) < lfr.len() {
            lfr[k as int]
        } else {
            seq_repeat(' ', lcw)
        };
        let rpart = if (k as nat) < rfr.len() {
            rfr[k as int]
        } else {
            Seq::<char>::empty()
        };
        let lcell = if k == 0 {
            display_lhs_line_num@
        } else {
            cont_l@
        };
        let rcell = if k == 0 {
            display_rhs_line_num@
        } else {
            cont_r@
        };
        assert(lrowv =~= lcell.add(lpart));
        assert(rrowv =~= rcell.add(rpart));
        assert(lpainted@ == maybe_bg(lcell.add(lpart), l_on, 224));
        assert(rpainted@ == maybe_bg(rcell.add(rpart), r_on, 194));
        assert(out@ =~= old(out)@.add(
            gen_row_spec(
                k as nat,
                lfr,
                rfr,
                lcw,
                display_lhs_line_num@,
                display_rhs_line_num@,
                cont_l@,
                cont_r@,
                l_on,
                r_on,
            ),
        ));
    }
}

/// Renders the general-path rows of one pair and appends them to `out`.
#[allow(unused_variables)]
#[verifier::rlimit(100)]
fn render_general_rows(
    out: &mut String,
    pair: (Option<LineNumber>, Option<LineNumber>),
    prev_lhs: Option<LineNumber>,
    prev_rhs: Option<LineNumber>,
    dims: &SourceDimensions,
    Ghost(rc): Ghost<RowCtx>,
    lhs_lines: &Vec<String>,
    rhs_lines: &Vec<String>,
    novel_l: &crate::types::LineNumSet,
    novel_r: &crate::types::LineNumSet,
    lhs_buckets: &Vec<Vec<(SingleLineSpan, owo_colors::Style)>>,
    rhs_buckets: &Vec<Vec<(SingleLineSpan, owo_colors::Style)>>,
    display_options: &DisplayOptions,
    display_lhs_line_num: &String,
    display_rhs_line_num: &String,
    plain: bool,
)
    requires
        dims.lhs_line_nums_width as nat == rc.lw,
        dims.rhs_line_nums_width as nat == rc.rw,
        dims.lhs_max_line.0 as nat == rc.lmax,
        dims.rhs_max_line.0 as nat == rc.rmax,
        dims.lhs_content_width as nat == rc.lcw,
        dims.rhs_content_width as nat == rc.rcw,
        dims.lhs_line_nums_width >= 1,
        dims.rhs_line_nums_width >= 1,
        dims.lhs_content_width >= 1,
        dims.rhs_content_width >= 1,
        pair.0 matches Some(n) ==> n.0 < usize::MAX && n.0 < lhs_lines@.len(),
        pair.1 matches Some(n) ==> n.0 < usize::MAX && n.0 < rhs_lines@.len(),
        prev_lhs matches Some(p) ==> p.0 < usize::MAX,
        prev_rhs matches Some(p) ==> p.0 < usize::MAX,
        lhs_buckets@.len() == lhs_lines@.len(),
        rhs_buckets@.len() == rhs_lines@.len(),
        plain && display_options.use_color ==> (forall|l: int|
            0 <= l < lhs_buckets@.len() ==> (#[trigger] lhs_buckets@[l])@.len() == 0)
            && (forall|l: int|
            0 <= l < rhs_buckets@.len() ==> (#[trigger] rhs_buckets@[l])@.len() == 0),
    ensures
        final(out)@.len() > old(out)@.len(),
        final(out)@.take(old(out)@.len() as int) == old(out)@,
        final(out)@.last() == '\n',
        plain ==> final(out)@ == old(out)@.add(
            gen_block_spec(
                pair,
                prev_lhs,
                prev_rhs,
                rc,
                strs_of(lhs_lines@),
                strs_of(rhs_lines@),
                novel_l@,
                novel_r@,
                display_options.use_color,
                display_options.background_color.spec_is_dark(),
                display_lhs_line_num@,
                display_rhs_line_num@,
            ),
        ),
{
    let use_color = display_options.use_color;
    let dark = display_options.background_color.is_dark();
    let lhs_frags: Vec<String> = side_fragments(
        pair.0,
        lhs_lines,
        lhs_buckets,
        dims.lhs_content_width,
        use_color,
        Side::Left,
        plain,
    );
    let rhs_frags: Vec<String> = side_fragments(
        pair.1,
        rhs_lines,
        rhs_buckets,
        dims.rhs_content_width,
        use_color,
        Side::Right,
        plain,
    );
    let l_on = match pair.0 {
        Some(n) => novel_l.contains(n),
        None => false,
    };
    let r_on = match pair.1 {
        Some(n) => novel_r.contains(n),
        None => false,
    };
    let cont_ref_l: LineNumber = match pair.0 {
        Some(n) => n,
        None => match prev_lhs {
            Some(p) => p,
            None => LineNumber(10),
        },
    };
    let cont_ref_r: LineNumber = match pair.1 {
        Some(n) => n,
        None => match prev_rhs {
            Some(p) => p,
            None => LineNumber(10),
        },
    };
    let mut cont_l = format_missing_line_num(cont_ref_l, dims, true, use_color);
    if pair.0.is_some() && l_on {
        cont_l = if dark {
            bright_red_text(cont_l.as_str())
        } else {
            red_text(cont_l.as_str())
        };
    }
    let mut cont_r = format_missing_line_num(cont_ref_r, dims, false, use_color);
    if pair.1.is_some() && r_on {
        cont_r = if dark {
            bright_green_text(cont_r.as_str())
        } else {
            green_text(cont_r.as_str())
        };
    }
    let ghost lfr = strs_of(lhs_frags@);
    let ghost rfr = strs_of(rhs_frags@);
    let ghost cell_l_spec = display_lhs_line_num@;
    let ghost cell_r_spec = display_rhs_line_num@;
    let blank_l = spaces(dims.lhs_content_width);
    let count = if lhs_frags.len() >= rhs_frags.len() {
        lhs_frags.len()
    } else {
        rhs_frags.len()
    };
    let mut k: usize = 0;
    proof {
        reveal(gen_rows_spec);
        assert(out@ =~= out@.add(gen_rows_spec(
            0,
            lfr,
            rfr,
            rc.lcw,
            cell_l_spec,
            cell_r_spec,
            cont_l@,
            cont_r@,
            l_on,
            r_on,
        )));
    }
    while k < count
        invariant
            0 <= k <= count,
            count == max_nat(lhs_frags@.len(), rhs_frags@.len()),
            lfr == strs_of(lhs_frags@),
            rfr == strs_of(rhs_frags@),
            cell_l_spec == display_lhs_line_num@,
            cell_r_spec == display_rhs_line_num@,
            blank_l@ == seq_repeat(' ', rc.lcw),
            dims.lhs_content_width as nat == rc.lcw,
            out@ =~= old(out)@.add(
                gen_rows_spec(
                    k as nat,
                    lfr,
                    rfr,
                    rc.lcw,
                    cell_l_spec,
                    cell_r_spec,
                    cont_l@,
                    cont_r@,
                    l_on,
                    r_on,
                ),
            ),
        decreases count - k,
    {
        render_one_gen_row(
            out,
            k,
            &lhs_frags,
            &rhs_frags,
            &display_lhs_line_num,
            &display_rhs_line_num,
            &cont_l,
            &cont_r,
            &blank_l,
            l_on,
            r_on,
            Ghost(rc.lcw),
        );
        k += 1;
        proof {
            reveal(gen_rows_spec);
            assert(out@ =~= old(out)@.add(
                gen_rows_spec(
                    k as nat,
                    lfr,
                    rfr,
                    rc.lcw,
                    cell_l_spec,
                    cell_r_spec,
                    cont_l@,
                    cont_r@,
                    l_on,
                    r_on,
                ),
            ));
        }
    }
    proof {
        reveal(gen_rows_spec);
        reveal(gen_row_spec);
        if count >= 1 {
            let last_row = gen_row_spec(
                (count - 1) as nat,
                lfr,
                rfr,
                rc.lcw,
                cell_l_spec,
                cell_r_spec,
                cont_l@,
                cont_r@,
                l_on,
                r_on,
            );
            assert(last_row.len() >= 1 && last_row.last() == '\n');
            assert(out@.last() == '\n');
            assert(out@.take(old(out)@.len() as int) =~= old(out)@);
        }
    }
    proof {
        if plain {
            assert(out@ =~= old(out)@.add(
                gen_block_spec(
                    pair,
                    prev_lhs,
                    prev_rhs,
                    rc,
                    strs_of(lhs_lines@),
                    strs_of(rhs_lines@),
                    novel_l@,
                    novel_r@,
                    use_color,
                    display_options.background_color.spec_is_dark(),
                    display_lhs_line_num@,
                    display_rhs_line_num@,
                ),
            ));
        }
    }
}

/// Renders one fast-path row (the right side carries the content)
/// and appends it to `out`.
#[allow(unused_variables)]
#[verifier::rlimit(100)]
fn render_fast_right_row(
    out: &mut String,
    pair: (Option<LineNumber>, Option<LineNumber>),
    prev_lhs: Option<LineNumber>,
    prev_rhs: Option<LineNumber>,
    dims: &SourceDimensions,
    Ghost(rc): Ghost<RowCtx>,
    lhs_lines: &Vec<String>,
    rhs_lines: &Vec<String>,
    lhs_colored_lines: &Vec<String>,
    rhs_colored_lines: &Vec<String>,
    novel_l: &crate::types::LineNumSet,
    novel_r: &crate::types::LineNumSet,
    display_options: &DisplayOptions,
    display_lhs_line_num: &String,
    display_rhs_line_num: &String,
    same: bool,
    show_both: bool,
    plain: bool,
)
    requires
        dims.lhs_line_nums_width as nat == rc.lw,
        dims.rhs_line_nums_width as nat == rc.rw,
        dims.lhs_max_line.0 as nat == rc.lmax,
        dims.rhs_max_line.0 as nat == rc.rmax,
        dims.lhs_content_width as nat == rc.lcw,
        dims.rhs_content_width as nat == rc.rcw,
        dims.lhs_line_nums_width >= 1,
        dims.rhs_line_nums_width >= 1,
        same == rc.same,
        pair.0 matches Some(n) ==> n.0 < usize::MAX && n.0 < lhs_lines@.len() && n.0
            < lhs_colored_lines@.len(),
        pair.1 matches Some(n) ==> n.0 < usize::MAX && n.0 < rhs_lines@.len() && n.0
            < rhs_colored_lines@.len(),
        prev_lhs matches Some(p) ==> p.0 < usize::MAX,
        prev_rhs matches Some(p) ==> p.0 < usize::MAX,
        display_lhs_line_num@ == side_cell_spec(
            pair.0,
            prev_lhs,
            rc.lw,
            rc.lmax,
            highlight_as_novel_spec(pair.0, strs_of(lhs_lines@), pair.1, novel_l@),
            display_options.use_color,
            display_options.background_color.spec_is_dark(),
            true,
        ),
        display_rhs_line_num@ == side_cell_spec(
            pair.1,
            prev_rhs,
            rc.rw,
            rc.rmax,
            highlight_as_novel_spec(pair.1, strs_of(rhs_lines@), pair.0, novel_r@),
            display_options.use_color,
            display_options.background_color.spec_is_dark(),
            false,
        ),
        rc.no_l && !show_both,
    ensures
        final(out)@.len() > old(out)@.len(),
        final(out)@.take(old(out)@.len() as int) == old(out)@,
        final(out)@.last() == '\n',
        plain ==> final(out)@ == old(out)@.add(
            row_block_spec(
                pair,
                prev_lhs,
                prev_rhs,
                rc,
                strs_of(lhs_lines@),
                strs_of(rhs_lines@),
                strs_of(lhs_colored_lines@),
                strs_of(rhs_colored_lines@),
                novel_l@,
                novel_r@,
                display_options.use_color,
                display_options.background_color.spec_is_dark(),
                show_both,
                display_options.display_width as nat,
            ),
        ),
{
    let use_color = display_options.use_color;
    let dark = display_options.background_color.is_dark();
    let width = display_options.display_width;
        match pair.1 {
            Some(rn) => {
                let mut block = String::new();
                if !same {
                    push_str(&mut block, display_lhs_line_num.as_str());
                }
                push_str(&mut block, display_rhs_line_num.as_str());
                push_str(&mut block, rhs_colored_lines[rn.0].as_str());
                if novel_r.contains(rn) {
                    let vis_l = cell_vis_exec(pair.0, prev_lhs, dims.lhs_line_nums_width);
                    let vis_r = cell_vis_exec(pair.1, prev_rhs, dims.rhs_line_nums_width);
                    let cvis = char_count(rhs_lines[rn.0].as_str());
                    let va: usize = if same {
                        0
                    } else {
                        vis_l
                    };
                    let fits1 = va <= width;
                    let r1: usize = if fits1 {
                        width - va
                    } else {
                        0
                    };
                    let fits2 = fits1 && vis_r <= r1;
                    let r2: usize = if fits2 {
                        r1 - vis_r
                    } else {
                        0
                    };
                    let fits3 = fits2 && cvis <= r2;
                    let pad: usize = if fits3 {
                        r2 - cvis
                    } else {
                        0
                    };
                    proof {
                        assert(strs_of(rhs_lines@)[rn.0 as int] == rhs_lines@[rn.0 as int]@);
                        let pvis: nat = if rc.same {
                            cell_vis(pair.1, prev_rhs, rc.rw)
                        } else {
                            cell_vis(pair.0, prev_lhs, rc.lw) + cell_vis(pair.1, prev_rhs, rc.rw)
                        };
                        assert(pad == fast_pad(pvis, cvis as nat, width as nat));
                    }
                    let fill = spaces(pad);
                    push_str(&mut block, fill.as_str());
                    proof {
                        assert(strs_of(rhs_colored_lines@)[rn.0 as int] == rhs_colored_lines@[rn.0 as int]@);
                        let prefix = if rc.same {
                            display_rhs_line_num@
                        } else {
                            display_lhs_line_num@.add(display_rhs_line_num@)
                        };
                        assert(block@ =~= prefix.add(strs_of(rhs_colored_lines@)[rn.0 as int]).add(
                            seq_repeat(' ', pad as nat),
                        ));
                    }
                    let painted = paint_bg_fixed(block.as_str(), 194);
                    block = painted;
                    push_str(out, block.as_str());
                } else {
                    proof {
                        assert(strs_of(rhs_colored_lines@)[rn.0 as int] == rhs_colored_lines@[rn.0 as int]@);
                        let prefix = if rc.same {
                            display_rhs_line_num@
                        } else {
                            display_lhs_line_num@.add(display_rhs_line_num@)
                        };
                        assert(block@ =~= prefix.add(strs_of(rhs_colored_lines@)[rn.0 as int]));
                    }
                    push_str(out, block.as_str());
                }
                push_char(out, '\n');
            },
            None => {
                let mut block = String::new();
                push_str(&mut block, display_lhs_line_num.as_str());
                push_str(&mut block, display_rhs_line_num.as_str());
                push_char(&mut block, '\n');
                proof {
                    assert(block@ =~= display_lhs_line_num@.add(display_rhs_line_num@).push('\n'));
                }
                push_str(out, block.as_str());
            },
        }
        proof {
            if plain {
                match pair.1 {
                    Some(rn) => {
                        assert(strs_of(rhs_colored_lines@)[rn.0 as int] == rhs_colored_lines@[rn.0 as int]@);
                        assert(strs_of(rhs_lines@)[rn.0 as int] == rhs_lines@[rn.0 as int]@);
                    },
                    None => {},
                }
                assert(out@ =~= old(out)@.add(
                    row_block_spec(
                        pair,
                        prev_lhs,
                        prev_rhs,
                        rc,
                        strs_of(lhs_lines@),
                        strs_of(rhs_lines@),
                        strs_of(lhs_colored_lines@),
                        strs_of(rhs_colored_lines@),
                        novel_l@,
                        novel_r@,
                        use_color,
                        display_options.background_color.spec_is_dark(),
                        show_both,
                        display_options.display_width as nat,
                    ),
                ));
            }
        }
}

/// Renders one fast-path row (the right side carries the content)
/// and appends it to `out`.
#[allow(unused_variables)]
#[verifier::rlimit(100)]
fn render_fast_left_row(
    out: &mut String,
    pair: (Option<LineNumber>, Option<LineNumber>),
    prev_lhs: Option<LineNumber>,
    prev_rhs: Option<LineNumber>,
    dims: &SourceDimensions,
    Ghost(rc): Ghost<RowCtx>,
    lhs_lines: &Vec<String>,
    rhs_lines: &Vec<String>,
    lhs_colored_lines: &Vec<String>,
    rhs_colored_lines: &Vec<String>,
    novel_l: &crate::types::LineNumSet,
    novel_r: &crate::types::LineNumSet,
    display_options: &DisplayOptions,
    display_lhs_line_num: &String,
    display_rhs_line_num: &String,
    same: bool,
    show_both: bool,
    plain: bool,
)
    requires
        dims.lhs_line_nums_width as nat == rc.lw,
        dims.rhs_line_nums_width as nat == rc.rw,
        dims.lhs_max_line.0 as nat == rc.lmax,
        dims.rhs_max_line.0 as nat == rc.rmax,
        dims.lhs_content_width as nat == rc.lcw,
        dims.rhs_content_width as nat == rc.rcw,
        dims.lhs_line_nums_width >= 1,
        dims.rhs_line_nums_width >= 1,
        same == rc.same,
        pair.0 matches Some(n) ==> n.0 < usize::MAX && n.0 < lhs_lines@.len() && n.0
            < lhs_colored_lines@.len(),
        pair.1 matches Some(n) ==> n.0 < usize::MAX && n.0 < rhs_lines@.len() && n.0
            < rhs_colored_lines@.len(),
        prev_lhs matches Some(p) ==> p.0 < usize::MAX,
        prev_rhs matches Some(p) ==> p.0 < usize::MAX,
        display_lhs_line_num@ == side_cell_spec(
            pair.0,
            prev_lhs,
            rc.lw,
            rc.lmax,
            highlight_as_novel_spec(pair.0, strs_of(lhs_lines@), pair.1, novel_l@),
            display_options.use_color,
            display_options.background_color.spec_is_dark(),
            true,
        ),
        display_rhs_line_num@ == side_cell_spec(
            pair.1,
            prev_rhs,
            rc.rw,
            rc.rmax,
            highlight_as_novel_spec(pair.1, strs_of(rhs_lines@), pair.0, novel_r@),
            display_options.use_color,
            display_options.background_color.spec_is_dark(),
            false,
        ),
        !(rc.no_l && !show_both),
        rc.no_r && !show_both,
    ensures
        final(out)@.len() > old(out)@.len(),
        final(out)@.take(old(out)@.len() as int) == old(out)@,
        final(out)@.last() == '\n',
        plain ==> final(out)@ == old(out)@.add(
            row_block_spec(
                pair,
                prev_lhs,
                prev_rhs,
                rc,
                strs_of(lhs_lines@),
                strs_of(rhs_lines@),
                strs_of(lhs_colored_lines@),
                strs_of(rhs_colored_lines@),
                novel_l@,
                novel_r@,
                display_options.use_color,
                display_options.background_color.spec_is_dark(),
                show_both,
                display_options.display_width as nat,
            ),
        ),
{
    let use_color = display_options.use_color;
    let dark = display_options.background_color.is_dark();
    let width = display_options.display_width;
        match pair.0 {
            Some(ln) => {
                let mut block = String::new();
                push_str(&mut block, display_lhs_line_num.as_str());
                if !same {
                    push_str(&mut block, display_rhs_line_num.as_str());
                }
                push_str(&mut block, lhs_colored_lines[ln.0].as_str());
                if novel_l.contains(ln) {
                    let vis_l = cell_vis_exec(pair.0, prev_lhs, dims.lhs_line_nums_width);
                    let vis_r = cell_vis_exec(pair.1, prev_rhs, dims.rhs_line_nums_width);
                    let cvis = char_count(lhs_lines[ln.0].as_str());
                    let va: usize = if same {
                        0
                    } else {
                        vis_r
                    };
                    let fits1 = va <= width;
                    let r1: usize = if fits1 {
                        width - va
                    } else {
                        0
                    };
                    let fits2 = fits1 && vis_l <= r1;
                    let r2: usize = if fits2 {
                        r1 - vis_l
                    } else {
                        0
                    };
                    let fits3 = fits2 && cvis <= r2;
                    let pad: usize = if fits3 {
                        r2 - cvis
                    } else {
                        0
                    };
                    proof {
                        assert(strs_of(lhs_lines@)[ln.0 as int] == lhs_lines@[ln.0 as int]@);
                        let pvis: nat = if rc.same {
                            cell_vis(pair.0, prev_lhs, rc.lw)
                        } else {
                            cell_vis(pair.0, prev_lhs, rc.lw) + cell_vis(pair.1, prev_rhs, rc.rw)
                        };
                        assert(pad == fast_pad(pvis, cvis as nat, width as nat));
                    }
                    let fill = spaces(pad);
                    push_str(&mut block, fill.as_str());
                    proof {
                        assert(strs_of(lhs_colored_lines@)[ln.0 as int] == lhs_colored_lines@[ln.0 as int]@);
                        let prefix = if rc.same {
                            display_lhs_line_num@
                        } else {
                            display_lhs_line_num@.add(display_rhs_line_num@)
                        };
                        assert(block@ =~= prefix.add(strs_of(lhs_colored_lines@)[ln.0 as int]).add(
                            seq_repeat(' ', pad as nat),
                        ));
                    }
                    let painted = paint_bg_fixed(block.as_str(), 224);
                    block = painted;
                    push_str(out, block.as_str());
                } else {
                    proof {
                        assert(strs_of(lhs_colored_lines@)[ln.0 as int] == lhs_colored_lines@[ln.0 as int]@);
                        let prefix = if rc.same {
                            display_lhs_line_num@
                        } else {
                            display_lhs_line_num@.add(display_rhs_line_num@)
                        };
                        assert(block@ =~= prefix.add(strs_of(lhs_colored_lines@)[ln.0 as int]));
                    }
                    push_str(out, block.as_str());
                }
                push_char(out, '\n');
            },
            None => {
                let mut block = String::new();
                push_str(&mut block, display_lhs_line_num.as_str());
                push_str(&mut block, display_rhs_line_num.as_str());
                push_char(&mut block, '\n');
                proof {
                    assert(block@ =~= display_lhs_line_num@.add(display_rhs_line_num@).push('\n'));
                }
                push_str(out, block.as_str());
            },
        }
        proof {
            if plain {
                match pair.0 {
                    Some(ln) => {
                        assert(strs_of(lhs_colored_lines@)[ln.0 as int] == lhs_colored_lines@[ln.0 as int]@);
                        assert(strs_of(lhs_lines@)[ln.0 as int] == lhs_lines@[ln.0 as int]@);
                    },
                    None => {},
                }
                assert(out@ =~= old(out)@.add(
                    row_block_spec(
                        pair,
                        prev_lhs,
                        prev_rhs,
                        rc,
                        strs_of(lhs_lines@),
                        strs_of(rhs_lines@),
                        strs_of(lhs_colored_lines@),
                        strs_of(rhs_colored_lines@),
                        novel_l@,
                        novel_r@,
                        use_color,
                        display_options.background_color.spec_is_dark(),
                        show_both,
                        display_options.display_width as nat,
                    ),
                ));
            }
        }
}

/// Renders the whole two-column comparison: when either source is empty,
/// a single numbered column for the other side; otherwise, per hunk, a
/// header, its rows — the fast path when one side is unchanged, wrapped
/// and zipped fragments otherwise — and a blank line. The colored source
/// texts and the flat span lists come from the external colorer; without
/// color the plain sources stand in for them.
#[verifier::rlimit(100)]
pub fn render(
    hunks: &[Hunk],
    display_options: &DisplayOptions,
    lhs_display_path: &str,
    rhs_display_path: &str,
    lang_name: &str,
    lhs_src: &str,
    rhs_src: &str,
    lhs_colored_src: &str,
    rhs_colored_src: &str,
    lhs_mps: &[MatchedPos],
    rhs_mps: &[MatchedPos],
    lhs_highlights: &[(SingleLineSpan, owo_colors::Style)],
    rhs_highlights: &[(SingleLineSpan, owo_colors::Style)],
) -> (r: String)
    requires
        hunks@.len() < usize::MAX,
        lhs_src@.len() < usize::MAX,
        rhs_src@.len() < usize::MAX,
        display_options.use_color ==> lhs_colored_src@.len() < usize::MAX
            && rhs_colored_src@.len() < usize::MAX,
        lhs_src@.len() > 0 && rhs_src@.len() > 0 ==> forall|i: int|
            0 <= i < hunks@.len() ==> hunk_ok(
                (#[trigger] hunks@[i]).lines@,
                display_options.display_width as nat,
                split_lines_spec(lhs_src@).len(),
                split_lines_spec(rhs_src@).len(),
                chosen_lines(lhs_colored_src@, lhs_src@, display_options.use_color).len(),
                chosen_lines(rhs_colored_src@, rhs_src@, display_options.use_color).len(),
            ),
    ensures
        lhs_src@.len() > 0 && rhs_src@.len() > 0 && hunks@.len() == 0 ==> r@
            == Seq::<char>::empty(),
        lhs_src@.len() > 0 && rhs_src@.len() > 0 && hunks@.len() > 0 ==> {
            let first = header_spec(
                lhs_display_path@,
                rhs_display_path@,
                1,
                hunks@.len(),
                lang_name@,
            ).push('\n');
            &&& r@.len() > first.len()
            &&& r@.take(first.len() as int) == first
            &&& r@.last() == '\n'
            &&& r@[r@.len() - 2] == '\n'
        },
        lhs_src@.len() == 0 ==> r@ == single_column_spec(
            lhs_display_path@,
            rhs_display_path@,
            lang_name@,
            if display_options.use_color {
                rhs_colored_src@
            } else {
                rhs_src@
            },
            false,
            display_options.use_color,
            display_options.background_color.spec_is_dark(),
        ).push('\n'),
        lhs_src@.len() > 0 && rhs_src@.len() == 0 ==> r@ == single_column_spec(
            lhs_display_path@,
            rhs_display_path@,
            lang_name@,
            if display_options.use_color {
                lhs_colored_src@
            } else {
                lhs_src@
            },
            true,
            display_options.use_color,
            display_options.background_color.spec_is_dark(),
        ).push('\n'),
        lhs_src@.len() > 0 && rhs_src@.len() > 0 && (!display_options.use_color || (
        lhs_highlights@.len() == 0 && rhs_highlights@.len() == 0)) ==> r@ == hunks_spec(
            hunks@,
            hunks@.len(),
            None,
            None,
            lhs_display_path@,
            rhs_display_path@,
            lang_name@,
            split_lines_spec(lhs_src@),
            split_lines_spec(rhs_src@),
            chosen_lines(lhs_colored_src@, lhs_src@, display_options.use_color),
            chosen_lines(rhs_colored_src@, rhs_src@, display_options.use_color),
            novel_lines_spec(lhs_mps@),
            novel_lines_spec(rhs_mps@),
            display_options.use_color,
            display_options.background_color.spec_is_dark(),
            display_options.display_mode is SideBySideShowBoth,
            display_options.display_width as nat,
        ).0,
{
    let use_color = display_options.use_color;
    let lhs_col: &str = if use_color {
        lhs_colored_src
    } else {
        lhs_src
    };
    let rhs_col: &str = if use_color {
        rhs_colored_src
    } else {
        rhs_src
    };
    if lhs_src.is_empty() {
        let mut out = display_single_column(
            lhs_display_path,
            rhs_display_path,
            lang_name,
            rhs_col,
            false,
            display_options,
        );
        push_char(&mut out, '\n');
        return out;
    }
    if rhs_src.is_empty() {
        let mut out = display_single_column(
            lhs_display_path,
            rhs_display_path,
            lang_name,
            lhs_col,
            true,
            display_options,
        );
        push_char(&mut out, '\n');
        return out;
    }

    let lhs_lines = split_on_newlines(lhs_src);
    let rhs_lines = split_on_newlines(rhs_src);
    let lhs_colored_lines = split_on_newlines(lhs_col);
    let rhs_colored_lines = split_on_newlines(rhs_col);
    let novel_sets = lines_with_novel(lhs_mps, rhs_mps);
    let lhs_buckets = bucket_highlights(lhs_lines.len(), lhs_highlights);
    let rhs_buckets = bucket_highlights(rhs_lines.len(), rhs_highlights);
    let show_both = match display_options.display_mode {
        DisplayMode::SideBySideShowBoth => true,
        DisplayMode::SideBySide => false,
    };
    let plain = !use_color || (lhs_highlights.len() == 0 && rhs_highlights.len() == 0);
    let width = display_options.display_width;

    let ghost ll = split_lines_spec(lhs_src@);
    let ghost rl = split_lines_spec(rhs_src@);
    let ghost lcl = chosen_lines(lhs_colored_src@, lhs_src@, use_color);
    let ghost rcl = chosen_lines(rhs_colored_src@, rhs_src@, use_color);
    let ghost nl = novel_lines_spec(lhs_mps@);
    let ghost nr = novel_lines_spec(rhs_mps@);
    let ghost dark = display_options.background_color.spec_is_dark();

    proof {
        if plain && use_color {
            assert forall|l: int|
                0 <= l < lhs_buckets@.len() implies (#[trigger] lhs_buckets@[l])@.len()
                == 0 by {
                assert(lhs_buckets@[l]@ == spans_for_line(lhs_highlights@, l as nat));
            }
            assert forall|l: int|
                0 <= l < rhs_buckets@.len() implies (#[trigger] rhs_buckets@[l])@.len()
                == 0 by {
                assert(rhs_buckets@[l]@ == spans_for_line(rhs_highlights@, l as nat));
            }
        }
    }

    let ghost first = header_spec(
        lhs_display_path@,
        rhs_display_path@,
        1,
        hunks@.len(),
        lang_name@,
    ).push('\n');
    proof {
        reveal(header_spec);
        reveal_strlit(" --- ");
        assert(first.len() >= 1);
    }
    let mut prev_lhs: Option<LineNumber> = None;
    let mut prev_rhs: Option<LineNumber> = None;
    let mut out = String::new();
    let mut i: usize = 0;
    while i < hunks.len()
        invariant
            0 <= i <= hunks@.len(),
            hunks@.len() < usize::MAX,
            first == header_spec(
                lhs_display_path@,
                rhs_display_path@,
                1,
                hunks@.len(),
                lang_name@,
            ).push('\n'),
            first.len() >= 1,
            i == 0 ==> out@ =~= Seq::<char>::empty(),
            i > 0 ==> out@.len() > first.len() && out@.take(first.len() as int) == first
                && out@.last() == '\n' && out@[out@.len() - 2] == '\n',
            strs_of(lhs_lines@) == ll,
            strs_of(rhs_lines@) == rl,
            strs_of(lhs_colored_lines@) == lcl,
            strs_of(rhs_colored_lines@) == rcl,
            novel_sets.0@ == nl,
            novel_sets.1@ == nr,
            lhs_buckets@.len() == lhs_lines@.len(),
            rhs_buckets@.len() == rhs_lines@.len(),
            plain && use_color ==> (forall|l: int|
                0 <= l < lhs_buckets@.len() ==> (#[trigger] lhs_buckets@[l])@.len() == 0)
                && (forall|l: int|
                0 <= l < rhs_buckets@.len() ==> (#[trigger] rhs_buckets@[l])@.len() == 0),
            use_color == display_options.use_color,
            dark == display_options.background_color.spec_is_dark(),
            width == display_options.display_width,
            show_both == (display_options.display_mode is SideBySideShowBoth),
            plain == (!use_color || (lhs_highlights@.len() == 0 && rhs_highlights@.len()
                == 0)),
            forall|t: int|
                0 <= t < hunks@.len() ==> hunk_ok(
                    (#[trigger] hunks@[t]).lines@,
                    width as nat,
                    ll.len(),
                    rl.len(),
                    lcl.len(),
                    rcl.len(),
                ),
            prev_lhs matches Some(p) ==> p.0 < usize::MAX,
            prev_rhs matches Some(p) ==> p.0 < usize::MAX,
            plain ==> {
                let hs = hunks_spec(
                    hunks@,
                    i as nat,
                    None,
                    None,
                    lhs_display_path@,
                    rhs_display_path@,
                    lang_name@,
                    ll,
                    rl,
                    lcl,
                    rcl,
                    nl,
                    nr,
                    use_color,
                    dark,
                    show_both,
                    width as nat,
                );
                out@ =~= hs.0 && prev_lhs == hs.1 && prev_rhs == hs.2
            },
        decreases hunks@.len() - i,
    {
        let ghost out0 = out@;
        let ghost pl0 = prev_lhs;
        let ghost pr0 = prev_rhs;
        let h = &hunks[i];
        let ghost rc = row_ctx_of(hunks@[i as int], width as nat);
        let head = header(lhs_display_path, rhs_display_path, i + 1, hunks.len(), lang_name);
        push_str(&mut out, head.as_str());
        push_char(&mut out, '\n');
        let no_l = h.novel_lhs.is_empty();
        let no_r = h.novel_rhs.is_empty();
        let same = all_same_exec(h.lines.as_slice());
        proof {
            assert(hunk_ok(hunks@[i as int].lines@, width as nat, ll.len(), rl.len(), lcl.len(),
                rcl.len()));
        }
        let dims = SourceDimensions::new(
            width,
            h.lines.as_slice(),
            lhs_lines.as_slice(),
            rhs_lines.as_slice(),
        );
        proof {
            if i == 0 {
                assert(out@ =~= first);
            } else {
                assert(out@.take(first.len() as int) =~= first);
            }
        }
        let mut j: usize = 0;
        while j < h.lines.len()
            invariant
                0 <= j <= h.lines@.len(),
                first.len() >= 1,
                out@.len() >= first.len(),
                out@.take(first.len() as int) == first,
                out@.len() >= 1,
                out@.last() == '\n',
                h == &hunks@[i as int],
                0 <= i < hunks@.len(),
                hunks@.len() < usize::MAX,
                rc == row_ctx_of(hunks@[i as int], width as nat),
                hunk_ok(hunks@[i as int].lines@, width as nat, ll.len(), rl.len(), lcl.len(),
                    rcl.len()),
                strs_of(lhs_lines@) == ll,
                strs_of(rhs_lines@) == rl,
                strs_of(lhs_colored_lines@) == lcl,
                strs_of(rhs_colored_lines@) == rcl,
                novel_sets.0@ == nl,
                novel_sets.1@ == nr,
                lhs_buckets@.len() == lhs_lines@.len(),
                rhs_buckets@.len() == rhs_lines@.len(),
                plain && use_color ==> (forall|l: int|
                    0 <= l < lhs_buckets@.len() ==> (#[trigger] lhs_buckets@[l])@.len() == 0)
                    && (forall|l: int|
                    0 <= l < rhs_buckets@.len() ==> (#[trigger] rhs_buckets@[l])@.len() == 0),
                use_color == display_options.use_color,
                dark == display_options.background_color.spec_is_dark(),
                width == display_options.display_width,
                show_both == (display_options.display_mode is SideBySideShowBoth),
                plain == (!use_color || (lhs_highlights@.len() == 0
                    && rhs_highlights@.len() == 0)),
                same == rc.same,
                no_l == rc.no_l,
                no_r == rc.no_r,
                dims.lhs_line_nums_width as nat == rc.lw,
                dims.rhs_line_nums_width as nat == rc.rw,
                dims.lhs_max_line.0 as nat == rc.lmax,
                dims.rhs_max_line.0 as nat == rc.rmax,
                dims.lhs_content_width as nat == rc.lcw,
                dims.rhs_content_width as nat == rc.rcw,
                dims.lhs_line_nums_width >= 1,
                dims.rhs_line_nums_width >= 1,
                dims.lhs_content_width >= 1,
                dims.rhs_content_width >= 1,
                prev_lhs matches Some(p) ==> p.0 < usize::MAX,
                prev_rhs matches Some(p) ==> p.0 < usize::MAX,
                plain ==> {
                    let hr = hunk_rows_spec(
                        hunks@[i as int].lines@,
                        j as nat,
                        pl0,
                        pr0,
                        rc,
                        ll,
                        rl,
                        lcl,
                        rcl,
                        nl,
                        nr,
                        use_color,
                        dark,
                        show_both,
                        width as nat,
                    );
                    out@ =~= out0.add(
                        header_spec(
                            lhs_display_path@,
                            rhs_display_path@,
                            (i + 1) as nat,
                            hunks@.len(),
                            lang_name@,
                        ).push('\n'),
                    ).add(hr.0) && prev_lhs == hr.1 && prev_rhs == hr.2
                },
            decreases h.lines@.len() - j,
        {
            let pair = h.lines[j];
            proof {
                assert(hunks@[i as int].lines@[j as int] == pair);
            }
            render_row_block(
                &mut out,
                pair,
                prev_lhs,
                prev_rhs,
                &dims,
                Ghost(rc),
                &lhs_lines,
                &rhs_lines,
                &lhs_colored_lines,
                &rhs_colored_lines,
                &novel_sets.0,
                &novel_sets.1,
                &lhs_buckets,
                &rhs_buckets,
                display_options,
                same,
                no_l,
                no_r,
                show_both,
                plain,
            );
            proof {
                assert(out@.take(first.len() as int) =~= first);
            }
            if pair.0.is_some() {
                prev_lhs = pair.0;
            }
            if pair.1.is_some() {
                prev_rhs = pair.1;
            }
            j += 1;
        }
        let ghost before_blank = out@;
        push_char(&mut out, '\n');
        i += 1;
        proof {
            assert(out@.take(first.len() as int) =~= first);
            assert(out@[out@.len() - 2] == before_blank.last());
        }
        proof {
            if plain {
                let hs_prev = hunks_spec(
                    hunks@,
                    (i - 1) as nat,
                    None,
                    None,
                    lhs_display_path@,
                    rhs_display_path@,
                    lang_name@,
                    ll,
                    rl,
                    lcl,
                    rcl,
                    nl,
                    nr,
                    use_color,
                    dark,
                    show_both,
                    width as nat,
                );
                let hs = hunks_spec(
                    hunks@,
                    i as nat,
                    None,
                    None,
                    lhs_display_path@,
                    rhs_display_path@,
                    lang_name@,
                    ll,
                    rl,
                    lcl,
                    rcl,
                    nl,
                    nr,
                    use_color,
                    dark,
                    show_both,
                    width as nat,
                );
                assert(out@ =~= hs.0 && prev_lhs == hs.1 && prev_rhs == hs.2);
            }
        }
    }
    out
}

} // verus!
