//! Wrapping one line into width-bounded fragments, re-applying its style
//! spans to each fragment.
//!
//! A span is a half-open column range of the unwrapped line. When a span
//! straddles a wrap point it is clipped to each fragment's column window
//! and re-anchored to the fragment, instead of being dropped. Left-side
//! fragments are padded to the content width so the right column stays
//! aligned.

use crate::ansi::apply_style;
use crate::lines::{chars_of, copy_chars, string_from_chars, strs_of, push_str, views_of};
use crate::numfmt::{push_repeat, seq_repeat};
use crate::types::{Side, SingleLineSpan};
use vstd::prelude::*;

verus! {

/// The chunks of `l`, cut every `w` characters; a single (possibly
/// empty) chunk when `l` is no longer than `w`.
pub open spec fn chunks_spec(l: Seq<char>, w: nat) -> Seq<Seq<char>>
    decreases l.len(),
{
    if w == 0 || l.len() <= w {
        seq![l]
    } else {
        seq![l.take(w as int)].add(chunks_spec(l.skip(w as int), w))
    }
}

/// `s` padded on the right with spaces to width `w`.
pub open spec fn pad_to(s: Seq<char>, w: nat) -> Seq<char> {
    if s.len() >= w {
        s
    } else {
        s.add(seq_repeat(' ', (w - s.len()) as nat))
    }
}

/// The uncolored fragments of one wrapped line: its chunks, each padded
/// to the width when `pad` asks for it.
#[verifier::opaque]
pub open spec fn frags_plain(l: Seq<char>, w: nat, pad: bool) -> Seq<Seq<char>> {
    chunks_spec(l, w).map_values(
        |c: Seq<char>|
            if pad {
                pad_to(c, w)
            } else {
                c
            },
    )
}

/// The characters of `chunk` between `a` and `b`, as a string.
fn substr_string(chunk: &Vec<char>, a: usize, b: usize) -> (r: String)
    requires
        a <= b <= chunk@.len(),
    ensures
        r@ == chunk@.subrange(a as int, b as int),
{
    let mut v: Vec<char> = Vec::new();
    let mut j: usize = a;
    while j < b
        invariant
            a <= j <= b <= chunk@.len(),
            v@ =~= chunk@.subrange(a as int, j as int),
        decreases b - j,
    {
        v.push(chunk[j]);
        j += 1;
    }
    string_from_chars(&v)
}

/// Renders one fragment with its overlapping spans styled. `base` is the
/// fragment's first column in the unwrapped line; each span is clipped
/// to the fragment's window and re-anchored to it.
fn styled_fragment(
    chunk: &Vec<char>,
    base: usize,
    highlights: &[(SingleLineSpan, owo_colors::Style)],
) -> String {
    let clen = chunk.len();
    let mut out = String::new();
    let mut col: usize = 0;
    let mut k: usize = 0;
    while k < highlights.len()
        invariant
            0 <= col <= clen,
            clen == chunk@.len(),
        decreases highlights@.len() - k,
    {
        let h = highlights[k];
        let s_start = h.0.start_col;
        let s_end = h.0.end_col;
        let a0: usize = if s_start > base {
            s_start - base
        } else {
            0
        };
        let a1: usize = if a0 > clen {
            clen
        } else {
            a0
        };
        let a: usize = if a1 < col {
            col
        } else {
            a1
        };
        let b0: usize = if s_end > base {
            s_end - base
        } else {
            0
        };
        let b: usize = if b0 > clen {
            clen
        } else {
            b0
        };
        if a < b {
            if col < a {
                let gap = substr_string(chunk, col, a);
                push_str(&mut out, gap.as_str());
            }
            let piece = substr_string(chunk, a, b);
            let styled = apply_style(piece.as_str(), h.1);
            push_str(&mut out, styled.as_str());
            col = b;
        }
        k += 1;
    }
    if col < clen {
        let rest = substr_string(chunk, col, clen);
        push_str(&mut out, rest.as_str());
    }
    out
}

/// Pads `chunk` on the right with spaces to width `w`.
fn pad_fragment(chunk: Vec<char>, w: usize) -> (r: Vec<char>)
    ensures
        r@ == pad_to(chunk@, w as nat),
{
    let ghost c0 = chunk@;
    let mut v = chunk;
    if v.len() < w {
        let missing = w - v.len();
        push_repeat(&mut v, ' ', missing);
    }
    proof {
        assert(v@ =~= pad_to(c0, w as nat));
    }
    v
}

/// Wraps `line` into fragments of at most `max_len` characters, applying
/// the overlapping part of each style span to each fragment when color
/// is on. Left-side fragments are padded to `max_len`. Without color, or
/// without spans, the fragments are exactly the padded chunks.
pub fn split_and_apply(
    line: &str,
    max_len: usize,
    use_color: bool,
    highlights: &[(SingleLineSpan, owo_colors::Style)],
    side: Side,
) -> (r: Vec<String>)
    requires
        max_len >= 1,
    ensures
        r@.len() == chunks_spec(line@, max_len as nat).len(),
        (!use_color || highlights@.len() == 0) ==> strs_of(r@) == frags_plain(
            line@,
            max_len as nat,
            side is Left,
        ),
{
    let chars = chars_of(line);
    let pad = match side {
        Side::Left => true,
        Side::Right => false,
    };
    let plain = !use_color || highlights.len() == 0;
    let ghost w = max_len as nat;
    let mut out: Vec<String> = Vec::new();
    let ghost mut gchunks: Seq<Seq<char>> = Seq::empty();

    if chars.len() <= max_len {
        let work = if pad {
            pad_fragment(copy_chars(&chars), max_len)
        } else {
            copy_chars(&chars)
        };
        let frag = if plain {
            string_from_chars(&work)
        } else {
            styled_fragment(&work, 0, highlights)
        };
        out.push(frag);
        proof {
            reveal(frags_plain);
            assert(chunks_spec(line@, w) =~= seq![line@]);
            if plain {
                assert(strs_of(out@) =~= frags_plain(line@, w, pad));
            }
        }
        return out;
    }

    let mut start: usize = 0;
    proof {
        assert(chars@.skip(0) =~= chars@);
    }
    while start < chars.len()
        invariant
            max_len >= 1,
            w == max_len as nat,
            chars@ == line@,
            0 <= start <= chars@.len(),
            out@.len() == gchunks.len(),
            start < chars@.len() ==> chunks_spec(line@, w) =~= gchunks.add(
                chunks_spec(chars@.skip(start as int), w),
            ),
            start == chars@.len() ==> chunks_spec(line@, w) =~= gchunks,
            plain ==> forall|k: int|
                0 <= k < out@.len() ==> out@[k]@ == (if pad {
                    pad_to(gchunks[k], w)
                } else {
                    gchunks[k]
                }),
        decreases chars@.len() - start,
    {
        let remaining = chars.len() - start;
        let clen = if remaining > max_len {
            max_len
        } else {
            remaining
        };
        let mut chunk: Vec<char> = Vec::new();
        let mut j: usize = 0;
        while j < clen
            invariant
                0 <= j <= clen,
                start + clen <= chars@.len(),
                chars@.len() <= usize::MAX,
                chunk@ =~= chars@.subrange(start as int, start + j),
            decreases clen - j,
        {
            chunk.push(chars[start + j]);
            j += 1;
        }
        let ghost chunkv = chunk@;
        let work = if pad {
            pad_fragment(chunk, max_len)
        } else {
            chunk
        };
        let frag = if plain {
            string_from_chars(&work)
        } else {
            styled_fragment(&work, start, highlights)
        };
        out.push(frag);
        proof {
            let rem = chars@.skip(start as int);
            if remaining > max_len {
                assert(rem.take(w as int) =~= chars@.subrange(start as int, start + clen));
                assert(rem.skip(w as int) =~= chars@.skip(start + clen));
            } else {
                assert(rem =~= chars@.subrange(start as int, start + clen));
            }
            gchunks = gchunks.push(chunkv);
        }
        start = start + clen;
    }
    proof {
        reveal(frags_plain);
        if plain {
            let fp = frags_plain(line@, w, pad);
            assert forall|k: int| 0 <= k < out@.len() implies strs_of(out@)[k] == fp[k] by {
                assert(strs_of(out@)[k] == out@[k]@);
            }
            assert(strs_of(out@) =~= fp);
        }
    }
    out
}

} // verus!
