use owo_colors::OwoColorize;
use side_by_side::dims::SourceDimensions;
use side_by_side::lines::split_on_newlines;
use side_by_side::numfmt::format_missing_line_num;
use side_by_side::render::{display_single_column, render};
use side_by_side::types::{
    AtomKind, BackgroundColor, DisplayMode, DisplayOptions, Hunk, LineNumSet, MatchKind,
    MatchedPos, SingleLineSpan, TokenKind,
};

#[test]
fn test_width_calculations() {
    let line_nums = [(Some(1.into()), Some(10.into()))];
    let source_dims = SourceDimensions::new(
        80,
        &line_nums,
        &split_on_newlines("foo\nbar\n"),
        &split_on_newlines("x\nx\nx\nx\nx\nx\nx\nx\nx\nx\nx\n"),
    );

    assert_eq!(source_dims.lhs_line_nums_width, 2);
    assert_eq!(source_dims.rhs_line_nums_width, 3);
}

#[test]
fn test_format_missing_line_num() {
    let source_dims = SourceDimensions::new(
        80,
        &[
            (Some(0.into()), Some(0.into())),
            (Some(1.into()), Some(1.into())),
        ],
        &split_on_newlines("foo\nbar\n"),
        &split_on_newlines("fox\nbax\n"),
    );

    assert_eq!(
        format_missing_line_num(0.into(), &source_dims, true, true),
        ". ".dimmed().to_string()
    );
    assert_eq!(
        format_missing_line_num(0.into(), &source_dims, true, false),
        ". ".to_string()
    );
}

#[test]
fn test_format_missing_line_num_at_end() {
    let source_dims = SourceDimensions::new(
        80,
        &[
            (Some(0.into()), Some(0.into())),
            (Some(1.into()), Some(1.into())),
        ],
        &split_on_newlines("foo\nbar\n"),
        &split_on_newlines("fox\nbax\n"),
    );

    assert_eq!(
        format_missing_line_num(1.into(), &source_dims, true, true),
        "  ".dimmed().to_string()
    );
    assert_eq!(
        format_missing_line_num(1.into(), &source_dims, true, false),
        "  ".to_string()
    );
}

#[test]
fn test_display_single_column() {
    let display_options = DisplayOptions {
        background_color: BackgroundColor::Dark,
        use_color: false,
        display_mode: DisplayMode::SideBySide,
        print_unchanged: true,
        tab_width: 8,
        display_width: 80,
        in_vcs: false,
        syntax_highlight: true,
    };

    // Basic smoke test.
    let res = display_single_column(
        "foo.py",
        "foo.py",
        "Python",
        "print(123)\n",
        false,
        &display_options,
    );
    assert!(res.len() > 10);
}

#[test]
fn test_split_line_empty() {
    assert_eq!(split_on_newlines(""), vec!["".to_string()]);
}

#[test]
fn test_split_line_single() {
    assert_eq!(split_on_newlines("foo"), vec!["foo".to_string()]);
}

#[test]
fn test_split_line_with_newline() {
    assert_eq!(
        split_on_newlines("foo\nbar"),
        vec!["foo".to_string(), "bar".to_string()]
    );
}

#[test]
fn test_split_line_with_crlf() {
    assert_eq!(
        split_on_newlines("foo\r\nbar"),
        vec!["foo".to_string(), "bar".to_string()]
    );
}

#[test]
fn test_split_line_with_trailing_newline() {
    assert_eq!(
        split_on_newlines("foo\nbar\n"),
        vec!["foo".to_string(), "bar".to_string(), "".to_string()]
    );
}

#[test]
fn test_display_hunks() {
    // Simulate diffing:
    //
    // Old:
    // foo
    //
    // New:
    // bar
    let lhs_mps = [MatchedPos {
        kind: MatchKind::Novel {
            highlight: TokenKind::Atom(AtomKind::Normal),
        },
        pos: SingleLineSpan {
            line: 0.into(),
            start_col: 0,
            end_col: 3,
        },
    }];

    let rhs_mps = [MatchedPos {
        kind: MatchKind::Novel {
            highlight: TokenKind::Atom(AtomKind::Normal),
        },
        pos: SingleLineSpan {
            line: 0.into(),
            start_col: 0,
            end_col: 3,
        },
    }];

    let mut novel_lhs = LineNumSet::new();
    novel_lhs.insert(0.into());
    let mut novel_rhs = LineNumSet::new();
    novel_rhs.insert(0.into());

    let hunks = [Hunk {
        novel_lhs,
        novel_rhs,
        lines: vec![(Some(0.into()), Some(0.into()))],
    }];

    let display_options = DisplayOptions {
        background_color: BackgroundColor::Dark,
        use_color: true,
        display_mode: DisplayMode::SideBySide,
        print_unchanged: true,
        tab_width: 8,
        display_width: 80,
        syntax_highlight: true,
        in_vcs: true,
    };

    let no_spans: [(SingleLineSpan, owo_colors::Style); 0] = [];
    // Simple smoke test.
    let out = render(
        &hunks,
        &display_options,
        "foo-old.el",
        "foo-new.el",
        "Emacs Lisp",
        "foo",
        "bar",
        "foo",
        "bar",
        &lhs_mps,
        &rhs_mps,
        &no_spans,
        &no_spans,
    );
    assert!(out.len() > 0);
}
