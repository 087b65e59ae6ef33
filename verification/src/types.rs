//! The data model shared by the layout and rendering components.

use vstd::prelude::*;

verus! {

/// Zero-based index of a line within one side's line table.
/// Displayed one-indexed.
#[derive(Clone, Copy, Debug, PartialEq, Eq, Structural)]
pub struct LineNumber(pub usize);

impl LineNumber {
    /// The number as shown to the reader.
    pub fn one_indexed(self) -> (r: usize)
        requires
            self.0 < usize::MAX,
        ensures
            r == self.0 + 1,
    {
        self.0 + 1
    }
}

impl From<usize> for LineNumber {
    fn from(n: usize) -> (r: LineNumber) {
        LineNumber(n)
    }
}

impl vstd::std_specs::convert::FromSpecImpl<usize> for LineNumber {
    open spec fn obeys_from_spec() -> bool {
        true
    }

    open spec fn from_spec(n: usize) -> LineNumber {
        LineNumber(n)
    }
}

/// Whether the terminal has a dark or a light background; picks the
/// brighter or darker variant of the highlight colors.
#[derive(Clone, Copy, Debug, PartialEq, Eq, Structural)]
pub enum BackgroundColor {
    Dark,
    Light,
}

impl BackgroundColor {
    pub open spec fn spec_is_dark(self) -> bool {
        self is Dark
    }

    pub fn is_dark(self) -> (r: bool)
        ensures
            r == self.spec_is_dark(),
    {
        match self {
            BackgroundColor::Dark => true,
            BackgroundColor::Light => false,
        }
    }
}

/// How rows whose hunk has changes on only one side are shown.
#[derive(Clone, Copy, Debug, PartialEq, Eq, Structural)]
pub enum DisplayMode {
    SideBySide,
    SideBySideShowBoth,
}

/// Display configuration supplied by the caller.
#[derive(Clone, Copy, Debug)]
pub struct DisplayOptions {
    pub background_color: BackgroundColor,
    pub use_color: bool,
    pub display_mode: DisplayMode,
    pub print_unchanged: bool,
    pub tab_width: usize,
    pub display_width: usize,
    pub in_vcs: bool,
    pub syntax_highlight: bool,
}

/// Which side of the comparison a value belongs to.
#[derive(Clone, Copy, Debug, PartialEq, Eq, Structural)]
pub enum Side {
    Left,
    Right,
}

/// A contiguous span of columns within a single line.
#[derive(Clone, Copy, Debug, PartialEq, Eq, Structural)]
pub struct SingleLineSpan {
    pub line: LineNumber,
    pub start_col: usize,
    pub end_col: usize,
}

/// Syntax category of a novel atom, as classified by the external matcher.
#[derive(Clone, Copy, Debug, PartialEq, Eq, Structural)]
pub enum AtomKind {
    Normal,
    Comment,
    Keyword,
    Type,
}

/// Kind of token underneath a matched position.
#[derive(Clone, Copy, Debug, PartialEq, Eq, Structural)]
pub enum TokenKind {
    Delimiter,
    Atom(AtomKind),
}

/// Whether a token was matched to an equivalent on the other side, or is
/// novel to its own side.
#[derive(Clone, Copy, Debug, PartialEq, Eq, Structural)]
pub enum MatchKind {
    Unchanged,
    Novel { highlight: TokenKind },
}

impl MatchKind {
    pub open spec fn spec_is_novel(self) -> bool {
        self is Novel
    }

    pub fn is_novel(self) -> (r: bool)
        ensures
            r == self.spec_is_novel(),
    {
        match self {
            MatchKind::Unchanged => false,
            MatchKind::Novel { .. } => true,
        }
    }
}

/// One token occurrence reported by the external matcher.
#[derive(Clone, Copy, Debug, PartialEq, Eq, Structural)]
pub struct MatchedPos {
    pub kind: MatchKind,
    pub pos: SingleLineSpan,
}

/// A set of line numbers, held as the underlying zero-based indices.
#[derive(Clone, Debug)]
pub struct LineNumSet {
    items: Vec<usize>,
}

impl View for LineNumSet {
    type V = Set<usize>;

    closed spec fn view(&self) -> Set<usize> {
        Set::new(|n: usize| self.items@.contains(n))
    }
}

impl LineNumSet {
    pub fn new() -> (r: LineNumSet)
        ensures
            r@ == Set::<usize>::empty(),
    {
        let r = LineNumSet { items: Vec::new() };
        proof {
            assert(r@ =~= Set::<usize>::empty());
        }
        r
    }

    pub fn contains(&self, n: LineNumber) -> (r: bool)
        ensures
            r == self@.contains(n.0),
    {
        let mut i: usize = 0;
        while i < self.items.len()
            invariant
                0 <= i <= self.items@.len(),
                forall|j: int| 0 <= j < i ==> self.items@[j] != n.0,
            decreases self.items@.len() - i,
        {
            if self.items[i] == n.0 {
                return true;
            }
            i += 1;
        }
        false
    }

    pub fn insert(&mut self, n: LineNumber)
        ensures
            final(self)@ == old(self)@.insert(n.0),
    {
        if !self.contains(n) {
            self.items.push(n.0);
            proof {
                let oldv = old(self).items@;
                let newv = self.items@;
                assert forall|x: usize| newv.contains(x) implies (oldv.contains(x) || x
                    == n.0) by {
                    let i = choose|i: int| 0 <= i < newv.len() && newv[i] == x;
                    if i < oldv.len() {
                        assert(oldv[i] == x);
                    }
                }
                assert forall|x: usize| oldv.contains(x) implies newv.contains(x) by {
                    let i = choose|i: int| 0 <= i < oldv.len() && oldv[i] == x;
                    assert(newv[i] == x);
                }
                assert(newv[newv.len() - 1] == n.0);
                assert(newv.contains(n.0));
                assert(self@ =~= old(self)@.insert(n.0));
            }
        } else {
            proof {
                assert(self@ =~= old(self)@.insert(n.0));
            }
        }
    }

    pub fn is_empty(&self) -> (r: bool)
        ensures
            r == (self@ =~= Set::<usize>::empty()),
    {
        if self.items.len() == 0 {
            proof {
                assert(self@ =~= Set::<usize>::empty());
            }
            true
        } else {
            proof {
                assert(self@.contains(self.items@[0]));
            }
            false
        }
    }
}

/// One hunk: an ordered, contiguous run of aligned line pairs, plus the
/// line numbers on each side that hold at least one novel token.
#[derive(Clone, Debug)]
pub struct Hunk {
    pub novel_lhs: LineNumSet,
    pub novel_rhs: LineNumSet,
    pub lines: Vec<(Option<LineNumber>, Option<LineNumber>)>,
}

} // verus!
