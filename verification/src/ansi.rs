//! The ANSI escape renderings the output carries.
//!
//! The color wrappers call owo_colors and state its renderings exactly:
//! each is a fixed escape prefix, the text, and a fixed suffix,
//! unconditionally. The background fill is rendered by the library
//! itself, verified against `bg_fixed_of`: yansi's equivalent consults a
//! process-global switch, so its result is not a function of its
//! arguments; this library always emits the fill it was asked for and
//! leaves turning color off to the display options.

use crate::lines::{chars_of, string_from_chars};
use crate::numfmt::{dec_chars, usize_to_chars};
use owo_colors::OwoColorize;
use vstd::prelude::*;

verus! {

/// The ANSI reset sequence.
pub open spec fn ansi_reset() -> Seq<char> {
    seq!['\u{1b}', '[', '0', 'm']
}

/// The suffix closing a foreground color.
pub open spec fn fg_suffix() -> Seq<char> {
    seq!['\u{1b}', '[', '3', '9', 'm']
}

/// What owo_colors renders for the given text dimmed.
#[verifier::opaque]
pub open spec fn dim_of(s: Seq<char>) -> Seq<char> {
    seq!['\u{1b}', '[', '2', 'm'].add(s).add(ansi_reset())
}

/// What owo_colors renders for the given text in red.
#[verifier::opaque]
pub open spec fn red_of(s: Seq<char>) -> Seq<char> {
    seq!['\u{1b}', '[', '3', '1', 'm'].add(s).add(fg_suffix())
}

/// What owo_colors renders for the given text in green.
#[verifier::opaque]
pub open spec fn green_of(s: Seq<char>) -> Seq<char> {
    seq!['\u{1b}', '[', '3', '2', 'm'].add(s).add(fg_suffix())
}

/// What owo_colors renders for the given text in bright red.
#[verifier::opaque]
pub open spec fn bright_red_of(s: Seq<char>) -> Seq<char> {
    seq!['\u{1b}', '[', '9', '1', 'm'].add(s).add(fg_suffix())
}

/// What owo_colors renders for the given text in bright green.
#[verifier::opaque]
pub open spec fn bright_green_of(s: Seq<char>) -> Seq<char> {
    seq!['\u{1b}', '[', '9', '2', 'm'].add(s).add(fg_suffix())
}

/// Relies on owo_colors' OwoColorize::dimmed: a fixed dim prefix, the
/// text, the reset, unconditionally.
#[verifier::external_body]
pub(crate) fn dim_text(s: &str) -> (r: String)
    ensures
        r@ == dim_of(s@),
{
    s.dimmed().to_string()
}

/// Relies on owo_colors' OwoColorize::red: a fixed red prefix, the
/// text, the foreground-closing suffix, unconditionally.
#[verifier::external_body]
pub(crate) fn red_text(s: &str) -> (r: String)
    ensures
        r@ == red_of(s@),
{
    s.red().to_string()
}

/// Relies on owo_colors' OwoColorize::green: a fixed green prefix, the
/// text, the foreground-closing suffix, unconditionally.
#[verifier::external_body]
pub(crate) fn green_text(s: &str) -> (r: String)
    ensures
        r@ == green_of(s@),
{
    s.green().to_string()
}

/// Relies on owo_colors' OwoColorize::bright_red: a fixed bright red
/// prefix, the text, the foreground-closing suffix, unconditionally.
#[verifier::external_body]
pub(crate) fn bright_red_text(s: &str) -> (r: String)
    ensures
        r@ == bright_red_of(s@),
{
    s.bright_red().to_string()
}

/// Relies on owo_colors' OwoColorize::bright_green: a fixed bright
/// green prefix, the text, the foreground-closing suffix,
/// unconditionally.
#[verifier::external_body]
pub(crate) fn bright_green_text(s: &str) -> (r: String)
    ensures
        r@ == bright_green_of(s@),
{
    s.bright_green().to_string()
}

/// The prefix opening a fixed 256-color background.
pub open spec fn bg_prefix(code: u8) -> Seq<char> {
    seq!['\u{1b}', '[', '4', '8', ';', '5', ';'].add(dec_chars(code as nat)).push('m')
}

/// `s` with every reset re-opened: each occurrence of the reset
/// sequence, found left to right without overlap, is followed by `p`
/// again, so an inner reset does not end the enclosing background.
pub open spec fn reopen_resets(s: Seq<char>, p: Seq<char>) -> Seq<char>
    decreases s.len(),
{
    if s.len() >= 4 && s.take(4) == ansi_reset() {
        ansi_reset().add(p).add(reopen_resets(s.skip(4), p))
    } else if s.len() == 0 {
        Seq::<char>::empty()
    } else {
        seq![s[0]].add(reopen_resets(s.skip(1), p))
    }
}

/// The background fill: the fixed-color prefix, the text with every
/// inner reset re-opened, the reset.
#[verifier::opaque]
pub open spec fn bg_fixed_of(s: Seq<char>, code: u8) -> Seq<char> {
    bg_prefix(code).add(reopen_resets(s, bg_prefix(code))).add(ansi_reset())
}

/// Appends `src` to `dst`.
fn append_chars(dst: &mut Vec<char>, src: &Vec<char>)
    ensures
        final(dst)@ == old(dst)@.add(src@),
{
    let mut t: usize = 0;
    while t < src.len()
        invariant
            0 <= t <= src@.len(),
            dst@ =~= old(dst)@.add(src@.take(t as int)),
        decreases src@.len() - t,
    {
        dst.push(src[t]);
        t += 1;
    }
    proof {
        assert(dst@ =~= old(dst)@.add(src@));
    }
}

/// Paints `s` on the fixed 256-color background: prefix, the text with
/// every inner reset re-opened, reset.
pub(crate) fn paint_bg_fixed(s: &str, code: u8) -> (r: String)
    ensures
        r@ == bg_fixed_of(s@, code),
{
    let cs = chars_of(s);
    let mut prefix: Vec<char> = Vec::new();
    prefix.push('\u{1b}');
    prefix.push('[');
    prefix.push('4');
    prefix.push('8');
    prefix.push(';');
    prefix.push('5');
    prefix.push(';');
    let digits = usize_to_chars(code as usize);
    append_chars(&mut prefix, &digits);
    prefix.push('m');
    proof {
        assert(prefix@ =~= bg_prefix(code));
    }

    let mut out: Vec<char> = Vec::new();
    append_chars(&mut out, &prefix);
    let mut body: Vec<char> = Vec::new();
    let mut i: usize = 0;
    proof {
        assert(cs@.skip(0) =~= cs@);
    }
    while i < cs.len()
        invariant
            0 <= i <= cs@.len(),
            cs@ == s@,
            prefix@ == bg_prefix(code),
            reopen_resets(cs@, bg_prefix(code)) =~= body@.add(
                reopen_resets(cs@.skip(i as int), bg_prefix(code)),
            ),
        decreases cs@.len() - i,
    {
        let ghost rem = cs@.skip(i as int);
        let is_reset = cs.len() - i >= 4 && cs[i] == '\u{1b}' && cs[i + 1] == '[' && cs[i + 2]
            == '0' && cs[i + 3] == 'm';
        if is_reset {
            proof {
                assert(rem.take(4) =~= ansi_reset());
                assert(rem.skip(4) =~= cs@.skip(i + 4));
            }
            body.push('\u{1b}');
            body.push('[');
            body.push('0');
            body.push('m');
            append_chars(&mut body, &prefix);
            i += 4;
        } else {
            proof {
                if rem.len() >= 4 {
                    assert(rem[0] == cs@[i as int]);
                    assert(rem[1] == cs@[i + 1]);
                    assert(rem[2] == cs@[i + 2]);
                    assert(rem[3] == cs@[i + 3]);
                    assert(rem.take(4) != ansi_reset());
                }
                assert(rem.skip(1) =~= cs@.skip(i + 1));
            }
            body.push(cs[i]);
            i += 1;
        }
        proof {
            assert(reopen_resets(cs@, bg_prefix(code)) =~= body@.add(
                reopen_resets(cs@.skip(i as int), bg_prefix(code)),
            ));
        }
    }
    proof {
        assert(cs@.skip(cs@.len() as int) =~= Seq::<char>::empty());
        assert(body@ =~= reopen_resets(cs@, bg_prefix(code)));
    }
    append_chars(&mut out, &body);
    out.push('\u{1b}');
    out.push('[');
    out.push('0');
    out.push('m');
    proof {
        reveal(bg_fixed_of);
        assert(out@ =~= bg_fixed_of(s@, code));
    }
    string_from_chars(&out)
}

#[verifier::external_type_specification]
#[verifier::external_body]
pub struct ExStyle(owo_colors::Style);

/// Relies on owo_colors' OwoColorize::style: the rendering carries the
/// styled text, so it is at least as long as the text.
#[verifier::external_body]
pub(crate) fn apply_style(s: &str, st: owo_colors::Style) -> (r: String)
    ensures
        r@.len() >= s@.len(),
{
    s.style(st).to_string()
}

} // verus!
