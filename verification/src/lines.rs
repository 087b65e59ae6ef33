//! Splitting source text into logical lines.
//!
//! `split_on_newlines` cuts a source string at every line feed and strips a
//! carriage return that precedes one, so both bare and carriage-return
//! line endings are normalized. It always yields at least one (possibly
//! empty) line, so line numbers index the table consistently even for an
//! empty source. `str_lines` mirrors the standard library's `lines`
//! semantics, which drop a final empty segment.

use vstd::prelude::*;

verus! {

/// Relies on str::chars: yields the characters of the slice in order.
#[verifier::external_body]
pub(crate) fn chars_of(s: &str) -> (r: Vec<char>)
    ensures
        r@ == s@,
{
    s.chars().collect()
}

/// Relies on String implementing FromIterator<char>: the collected string
/// holds exactly the characters of the iterator, in order.
#[verifier::external_body]
pub(crate) fn string_from_chars(v: &Vec<char>) -> (r: String)
    ensures
        r@ == v@,
{
    v.iter().collect()
}

/// Relies on String::push_str: appends the slice's characters.
#[verifier::external_body]
pub(crate) fn push_str(s: &mut String, t: &str)
    ensures
        final(s)@ == old(s)@.add(t@),
{
    s.push_str(t)
}

/// Relies on String::push: appends the one character.
#[verifier::external_body]
pub(crate) fn push_char(s: &mut String, c: char)
    ensures
        final(s)@ == old(s)@.push(c),
{
    s.push(c)
}

/// The views of a sequence of character vectors.
pub open spec fn views_of(v: Seq<Vec<char>>) -> Seq<Seq<char>> {
    v.map_values(|x: Vec<char>| x@)
}

/// The views of a sequence of strings.
pub open spec fn strs_of(v: Seq<String>) -> Seq<Seq<char>> {
    v.map_values(|x: String| x@)
}

/// The segments of `s` between line feeds, line feeds removed, nothing
/// else touched. Never empty: a source without a line feed is one segment.
pub open spec fn split_raw(s: Seq<char>) -> Seq<Seq<char>>
    decreases s.len(),
{
    if s.len() == 0 {
        seq![Seq::<char>::empty()]
    } else if s.last() == '\n' {
        split_raw(s.drop_last()).push(Seq::<char>::empty())
    } else {
        let r = split_raw(s.drop_last());
        r.update(r.len() - 1, r.last().push(s.last()))
    }
}

/// Removes one trailing carriage return, if present.
pub open spec fn strip_cr(l: Seq<char>) -> Seq<char> {
    if l.len() > 0 && l.last() == '\r' {
        l.drop_last()
    } else {
        l
    }
}

/// What `split_on_newlines` returns: every segment with a trailing
/// carriage return removed.
pub open spec fn split_lines_spec(s: Seq<char>) -> Seq<Seq<char>> {
    split_raw(s).map_values(|l: Seq<char>| strip_cr(l))
}

/// The number of line feeds in `s`.
pub open spec fn count_newlines(s: Seq<char>) -> nat
    decreases s.len(),
{
    if s.len() == 0 {
        0
    } else {
        count_newlines(s.drop_last()) + if s.last() == '\n' {
            1nat
        } else {
            0nat
        }
    }
}

/// Law: splitting yields exactly one more line than the source has line
/// feeds, and the empty source yields exactly one empty line.
pub proof fn lemma_split_line_count(s: Seq<char>)
    ensures
        split_lines_spec(s).len() == count_newlines(s) + 1,
        s.len() == 0 ==> split_lines_spec(s) =~= seq![Seq::<char>::empty()],
    decreases s.len(),
{
    if s.len() == 0 {
        assert(split_raw(s) =~= seq![Seq::<char>::empty()]);
        assert(split_lines_spec(s) =~= seq![strip_cr(Seq::<char>::empty())]);
    } else {
        lemma_split_line_count(s.drop_last());
    }
}

/// A source cannot hold more line feeds than characters; one that does
/// not end in a line feed holds strictly fewer.
pub proof fn lemma_count_newlines_le(s: Seq<char>)
    ensures
        count_newlines(s) <= s.len(),
        s.len() > 0 && s.last() != '\n' ==> count_newlines(s) + 1 <= s.len(),
    decreases s.len(),
{
    if s.len() > 0 {
        lemma_count_newlines_le(s.drop_last());
    }
}

/// The standard `lines` view never has more entries than the source has
/// characters.
pub proof fn lemma_str_lines_count(s: Seq<char>)
    ensures
        str_lines_spec(s).len() <= s.len(),
{
    if s.len() > 0 {
        lemma_split_line_count(s);
        lemma_count_newlines_le(s);
    }
}

/// Splits `chars` at every line feed, keeping the segments untouched.
fn split_raw_chars(chars: &Vec<char>) -> (r: Vec<Vec<char>>)
    ensures
        views_of(r@) =~= split_raw(chars@),
        r@.len() >= 1,
{
    let mut raw: Vec<Vec<char>> = Vec::new();
    let mut cur: Vec<char> = Vec::new();
    let mut i: usize = 0;
    proof {
        assert(chars@.take(0) =~= Seq::<char>::empty());
        assert(split_raw(chars@.take(0)) =~= views_of(raw@).push(cur@));
    }
    while i < chars.len()
        invariant
            0 <= i <= chars@.len(),
            split_raw(chars@.take(i as int)) =~= views_of(raw@).push(cur@),
        decreases chars@.len() - i,
    {
        let ghost prev_raw = raw@;
        let ghost prev_cur = cur@;
        let c = chars[i];
        if c == '\n' {
            raw.push(cur);
            cur = Vec::new();
        } else {
            cur.push(c);
        }
        i += 1;
        proof {
            let t = chars@.take(i as int);
            assert(t.drop_last() =~= chars@.take(i - 1));
            assert(t.last() == c);
            if c == '\n' {
                assert(views_of(raw@) =~= views_of(prev_raw).push(prev_cur));
                assert(split_raw(t) =~= views_of(raw@).push(cur@));
            } else {
                let old_full = views_of(prev_raw).push(prev_cur);
                assert(split_raw(t) =~= old_full.update(
                    old_full.len() - 1,
                    old_full.last().push(c),
                ));
                assert(split_raw(t) =~= views_of(raw@).push(cur@));
            }
        }
    }
    proof {
        assert(chars@.take(chars@.len() as int) =~= chars@);
    }
    raw.push(cur);
    raw
}

/// Copies `l` with one trailing carriage return removed, if present.
fn strip_cr_chars(l: &Vec<char>) -> (r: Vec<char>)
    ensures
        r@ == strip_cr(l@),
{
    let n = l.len();
    let keep: usize = if n > 0 && l[n - 1] == '\r' {
        n - 1
    } else {
        n
    };
    let mut r: Vec<char> = Vec::new();
    let mut j: usize = 0;
    while j < keep
        invariant
            0 <= j <= keep <= l@.len(),
            r@ =~= l@.take(j as int),
        decreases keep - j,
    {
        r.push(l[j]);
        j += 1;
    }
    proof {
        assert(r@ =~= l@.take(keep as int));
        assert(l@.take(keep as int) =~= strip_cr(l@));
    }
    r
}

/// Copies a character vector.
pub(crate) fn copy_chars(l: &Vec<char>) -> (r: Vec<char>)
    ensures
        r@ == l@,
{
    let mut r: Vec<char> = Vec::new();
    let mut j: usize = 0;
    while j < l.len()
        invariant
            0 <= j <= l@.len(),
            r@ =~= l@.take(j as int),
        decreases l@.len() - j,
    {
        r.push(l[j]);
        j += 1;
    }
    proof {
        assert(r@ =~= l@);
    }
    r
}

/// Split `s` on line feeds, removing a carriage return before each cut
/// and at the very end. Always returns a non-empty vector: the empty
/// source is one empty line, and a source with a trailing line ending
/// ends with an empty line.
pub fn split_on_newlines(s: &str) -> (r: Vec<String>)
    ensures
        strs_of(r@) == split_lines_spec(s@),
        r@.len() >= 1,
{
    let chars = chars_of(s);
    let raw = split_raw_chars(&chars);
    let mut out: Vec<String> = Vec::new();
    let mut i: usize = 0;
    while i < raw.len()
        invariant
            0 <= i <= raw@.len(),
            views_of(raw@) =~= split_raw(s@),
            raw@.len() >= 1,
            strs_of(out@) =~= split_lines_spec(s@).take(i as int),
        decreases raw@.len() - i,
    {
        let ghost prev_out = out@;
        let seg = strip_cr_chars(&raw[i]);
        out.push(string_from_chars(&seg));
        proof {
            assert(raw@.len() == split_raw(s@).len());
            assert(views_of(raw@)[i as int] == raw@[i as int]@);
            assert(seg@ == strip_cr(split_raw(s@)[i as int]));
            assert(strs_of(out@) =~= strs_of(prev_out).push(seg@));
            assert(strs_of(out@) =~= split_lines_spec(s@).take(i + 1));
        }
        i += 1;
    }
    proof {
        assert(split_lines_spec(s@).take(raw@.len() as int) =~= split_lines_spec(s@));
    }
    out
}

/// What `str_lines` returns: the segments as the standard library's
/// `lines` cuts them — a trailing line ending opens no extra segment, and
/// a carriage return is removed only where a line feed follows it.
pub open spec fn str_lines_spec(s: Seq<char>) -> Seq<Seq<char>> {
    if s.len() == 0 {
        Seq::<Seq<char>>::empty()
    } else if s.last() == '\n' {
        split_raw(s).drop_last().map_values(|l: Seq<char>| strip_cr(l))
    } else {
        let r = split_raw(s);
        r.take(r.len() - 1).map_values(|l: Seq<char>| strip_cr(l)).push(r.last())
    }
}

/// Splits `s` into lines as the standard library's `lines` does.
pub fn str_lines(s: &str) -> (r: Vec<String>)
    ensures
        strs_of(r@) == str_lines_spec(s@),
{
    let chars = chars_of(s);
    if chars.len() == 0 {
        let out: Vec<String> = Vec::new();
        proof {
            assert(strs_of(out@) =~= str_lines_spec(s@));
        }
        return out;
    }
    let ends_nl = chars[chars.len() - 1] == '\n';
    let raw = split_raw_chars(&chars);
    let ghost rawspec = split_raw(s@);
    let n_keep = raw.len() - 1;
    let mut out: Vec<String> = Vec::new();
    let mut i: usize = 0;
    while i < n_keep
        invariant
            0 <= i <= n_keep,
            n_keep == raw@.len() - 1,
            views_of(raw@) =~= rawspec,
            rawspec == split_raw(s@),
            raw@.len() >= 1,
            strs_of(out@) =~= rawspec.take(n_keep as int).map_values(
                |l: Seq<char>| strip_cr(l),
            ).take(i as int),
        decreases n_keep - i,
    {
        let ghost prev_out = out@;
        let seg = strip_cr_chars(&raw[i]);
        out.push(string_from_chars(&seg));
        proof {
            assert(views_of(raw@)[i as int] == raw@[i as int]@);
            assert(seg@ == strip_cr(rawspec[i as int]));
            assert(strs_of(out@) =~= strs_of(prev_out).push(seg@));
            assert(strs_of(out@) =~= rawspec.take(n_keep as int).map_values(
                |l: Seq<char>| strip_cr(l),
            ).take(i + 1));
        }
        i += 1;
    }
    if !ends_nl {
        let last = raw.len() - 1;
        let seg = copy_chars(&raw[last]);
        out.push(string_from_chars(&seg));
        proof {
            assert(views_of(raw@)[last as int] == raw@[last as int]@);
            assert(seg@ == rawspec.last());
        }
    }
    proof {
        let full = rawspec.take(n_keep as int).map_values(|l: Seq<char>| strip_cr(l));
        assert(full.take(n_keep as int) =~= full);
        if ends_nl {
            assert(rawspec.drop_last() =~= rawspec.take(n_keep as int));
            assert(strs_of(out@) =~= str_lines_spec(s@));
        } else {
            assert(strs_of(out@) =~= full.push(rawspec.last()));
            assert(strs_of(out@) =~= str_lines_spec(s@));
        }
    }
    out
}

} // verus!
