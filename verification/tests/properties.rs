use owo_colors::OwoColorize;
use side_by_side::dims::SourceDimensions;
use side_by_side::lines::split_on_newlines;
use side_by_side::numfmt::{
    display_line_nums, format_line_num, format_line_num_padded, format_missing_line_num,
};
use side_by_side::novel::{highlight_as_novel, lines_with_novel};
use side_by_side::render::render;
use side_by_side::types::{
    AtomKind, BackgroundColor, DisplayMode, DisplayOptions, Hunk, LineNumSet, MatchKind,
    MatchedPos, Side, SingleLineSpan, TokenKind,
};
use side_by_side::wrap::split_and_apply;

fn strip_ansi(s: &str) -> String {
    let mut out = String::new();
    let mut in_escape = false;
    for c in s.chars() {
        if in_escape {
            if c == 'm' {
                in_escape = false;
            }
        } else if c == '\u{1b}' {
            in_escape = true;
        } else {
            out.push(c);
        }
    }
    out
}

fn options(use_color: bool, background_color: BackgroundColor) -> DisplayOptions {
    DisplayOptions {
        background_color,
        use_color,
        display_mode: DisplayMode::SideBySide,
        print_unchanged: true,
        tab_width: 8,
        display_width: 80,
        in_vcs: false,
        syntax_highlight: true,
    }
}

#[test]
fn split_count_is_line_endings_plus_one() {
    assert_eq!(split_on_newlines("a\nb\nc").len(), 3);
    assert_eq!(split_on_newlines("\n").len(), 2);
    assert_eq!(split_on_newlines("no endings here").len(), 1);
    assert_eq!(split_on_newlines(""), vec!["".to_string()]);
}

#[test]
fn split_normalizes_crlf_like_lf() {
    assert_eq!(
        split_on_newlines("foo\r\nbar"),
        split_on_newlines("foo\nbar")
    );
}

#[test]
fn dimensions_fill_terminal_width() {
    for width in [40usize, 79, 80, 81] {
        let line_nums = [(Some(7.into()), Some(123.into()))];
        let d = SourceDimensions::new(
            width,
            &line_nums,
            &split_on_newlines("x\n".repeat(8).as_str()),
            &split_on_newlines("y\n".repeat(124).as_str()),
        );
        assert_eq!(
            d.lhs_content_width + d.lhs_line_nums_width + 1 + d.rhs_content_width
                + d.rhs_line_nums_width,
            width
        );
    }
}

#[test]
fn number_widths_are_digit_count_plus_separator() {
    // Displayed maxima 99 (left) and 5 (right).
    let line_nums = [(Some(98.into()), Some(4.into()))];
    let d = SourceDimensions::new(
        80,
        &line_nums,
        &split_on_newlines("x\n".repeat(99).as_str()),
        &split_on_newlines("y\n".repeat(5).as_str()),
    );
    assert_eq!(d.lhs_line_nums_width, 3);
    assert_eq!(d.rhs_line_nums_width, 2);
}

#[test]
fn padded_number_is_right_aligned_with_trailing_space() {
    assert_eq!(format_line_num(41.into()), "42 ".to_string());
    assert_eq!(format_line_num_padded(0.into(), 4), "  1 ".to_string());
    assert_eq!(format_line_num_padded(41.into(), 3), "42 ".to_string());
}

#[test]
fn placeholder_glyphs_follow_reference_position() {
    let line_nums = [(Some(98.into()), Some(4.into()))];
    let d = SourceDimensions::new(
        80,
        &line_nums,
        &split_on_newlines("x\n".repeat(99).as_str()),
        &split_on_newlines("y\n".repeat(5).as_str()),
    );
    // Reference strictly below the left maximum: dots.
    assert_eq!(format_missing_line_num(0.into(), &d, true, false), " . ");
    // Reference at the maximum: blanks.
    assert_eq!(format_missing_line_num(98.into(), &d, true, false), "   ");
    // Color enabled: the same cells, dimmed.
    assert_eq!(
        format_missing_line_num(0.into(), &d, true, true),
        " . ".dimmed().to_string()
    );
    assert_eq!(
        format_missing_line_num(98.into(), &d, true, true),
        "   ".dimmed().to_string()
    );
}

#[test]
fn novel_detector_cases() {
    let lines = split_on_newlines("foo\n\nbar");
    let mut set = LineNumSet::new();
    set.insert(2.into());
    // Absent line number: false.
    assert!(!highlight_as_novel(None, &lines, Some(0.into()), &set));
    // Present in the novel set: true.
    assert!(highlight_as_novel(
        Some(2.into()),
        &lines,
        Some(0.into()),
        &set
    ));
    // Blank line with no counterpart: true even outside the set.
    assert!(highlight_as_novel(Some(1.into()), &lines, None, &set));
    // Non-empty, non-novel line with a counterpart: false.
    assert!(!highlight_as_novel(
        Some(0.into()),
        &lines,
        Some(0.into()),
        &set
    ));
}

#[test]
fn lines_with_novel_collects_novel_lines_only() {
    let mps = [
        MatchedPos {
            kind: MatchKind::Unchanged,
            pos: SingleLineSpan {
                line: 0.into(),
                start_col: 0,
                end_col: 3,
            },
        },
        MatchedPos {
            kind: MatchKind::Novel {
                highlight: TokenKind::Atom(AtomKind::Normal),
            },
            pos: SingleLineSpan {
                line: 2.into(),
                start_col: 1,
                end_col: 2,
            },
        },
    ];
    let (lhs, rhs) = lines_with_novel(&mps, &[]);
    assert!(!lhs.contains(0.into()));
    assert!(lhs.contains(2.into()));
    assert!(!rhs.contains(2.into()));
}

#[test]
fn number_cells_carry_side_colors() {
    let line_nums = [(Some(0.into()), Some(0.into()))];
    let d = SourceDimensions::new(
        80,
        &line_nums,
        &split_on_newlines("foo\n"),
        &split_on_newlines("bar\n"),
    );
    let (l, r) = display_line_nums(
        Some(0.into()),
        Some(0.into()),
        &d,
        true,
        BackgroundColor::Light,
        true,
        true,
        None,
        None,
    );
    assert_eq!(l, "1 ".red().to_string());
    assert_eq!(r, "1 ".green().to_string());
    let (lb, rb) = display_line_nums(
        Some(0.into()),
        Some(0.into()),
        &d,
        true,
        BackgroundColor::Dark,
        true,
        true,
        None,
        None,
    );
    assert_eq!(lb, "1 ".bright_red().to_string());
    assert_eq!(rb, "1 ".bright_green().to_string());
}

#[test]
fn wrapping_applies_spans_and_pads_left_side() {
    let st = owo_colors::Style::new().bold();
    let spans = [(
        SingleLineSpan {
            line: 0.into(),
            start_col: 0,
            end_col: 2,
        },
        st,
    )];
    let frags = split_and_apply("foo", 10, true, &spans, Side::Right);
    assert_eq!(frags, vec![format!("{}{}", "fo".style(st), "o")]);

    // Without color the fragments are the plain chunks, the left side
    // padded to the content width.
    let plain = split_and_apply("abcde", 2, false, &spans, Side::Left);
    assert_eq!(
        plain,
        vec!["ab".to_string(), "cd".to_string(), "e ".to_string()]
    );
    let right = split_and_apply("abcde", 2, false, &spans, Side::Right);
    assert_eq!(
        right,
        vec!["ab".to_string(), "cd".to_string(), "e".to_string()]
    );
}

#[test]
fn whole_file_addition_renders_single_column() {
    let out = render(
        &[],
        &options(false, BackgroundColor::Dark),
        "foo.py",
        "foo.py",
        "Python",
        "",
        "print(123)\n",
        "",
        "print(123)\n",
        &[],
        &[],
        &[],
        &[],
    );
    assert_eq!(out, "foo.py --- 1/1 --- Python\n1 print(123)\n\n");
}

#[test]
fn fully_novel_pair_renders_highlighted_row() {
    let lhs_mps = [MatchedPos {
        kind: MatchKind::Novel {
            highlight: TokenKind::Atom(AtomKind::Normal),
        },
        pos: SingleLineSpan {
            line: 0.into(),
            start_col: 0,
            end_col: 3,
        },
    }];
    let rhs_mps = [MatchedPos {
        kind: MatchKind::Novel {
            highlight: TokenKind::Atom(AtomKind::Normal),
        },
        pos: SingleLineSpan {
            line: 0.into(),
            start_col: 0,
            end_col: 3,
        },
    }];
    let mut novel_lhs = LineNumSet::new();
    novel_lhs.insert(0.into());
    let mut novel_rhs = LineNumSet::new();
    novel_rhs.insert(0.into());
    let hunks = [Hunk {
        novel_lhs,
        novel_rhs,
        lines: vec![(Some(0.into()), Some(0.into()))],
    }];
    let out = render(
        &hunks,
        &options(true, BackgroundColor::Dark),
        "foo-old.el",
        "foo-new.el",
        "Emacs Lisp",
        "foo",
        "bar",
        "foo",
        "bar",
        &lhs_mps,
        &rhs_mps,
        &[],
        &[],
    );
    let rows: Vec<&str> = out.split('\n').collect();
    assert_eq!(rows[0], "foo-old.el foo-new.el --- 1/1 --- Emacs Lisp");
    // One content row pairing foo (left) with bar (right), both painted.
    assert_eq!(rows.len(), 4);
    assert!(rows[1].contains("foo"));
    assert!(rows[1].contains("bar"));
    assert!(rows[1].contains("\u{1b}[48;5;224m"));
    assert!(rows[1].contains("\u{1b}[48;5;194m"));
    // Blank separator line, then the final line feed.
    assert_eq!(rows[2], "");
    assert_eq!(rows[3], "");
}

#[test]
fn unchanged_left_fast_path_fills_terminal_width() {
    let rhs_mps = [MatchedPos {
        kind: MatchKind::Novel {
            highlight: TokenKind::Atom(AtomKind::Normal),
        },
        pos: SingleLineSpan {
            line: 1.into(),
            start_col: 0,
            end_col: 3,
        },
    }];
    let novel_lhs = LineNumSet::new();
    let mut novel_rhs = LineNumSet::new();
    novel_rhs.insert(1.into());
    let hunks = [Hunk {
        novel_lhs,
        novel_rhs,
        lines: vec![
            (Some(0.into()), Some(0.into())),
            (Some(1.into()), Some(1.into())),
        ],
    }];
    let out = render(
        &hunks,
        &options(false, BackgroundColor::Dark),
        "a.txt",
        "a.txt",
        "Text",
        "foo\nbar",
        "foo\nqux",
        "foo\nbar",
        "foo\nqux",
        &[],
        &rhs_mps,
        &[],
        &[],
    );
    let rows: Vec<&str> = out.split('\n').collect();
    // Context row: a single shared number cell, no duplication, no fill.
    assert_eq!(rows[1], "1 foo");
    // Novel row: padded to the full terminal width under the background.
    let visible = strip_ansi(rows[2]);
    assert_eq!(visible.chars().count(), 80);
    assert!(visible.starts_with("2 qux"));
    let padded = format!("2 qux{}", " ".repeat(75));
    let expected = yansi::Paint::wrapping(padded).bg(yansi::Color::Fixed(194)).to_string();
    assert_eq!(rows[2], expected);
}
