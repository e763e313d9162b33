//! The inline style-tag mini-language used by paragraph text.
//!
//! A tag has the shape `{key=value;key=value text}`: the keys switch
//! the style of the text between the first space and the closing
//! brace.  Recognised pairs are `mod=bold`, `mod=italic` and
//! `fg=<colour name>`; unknown pairs change nothing.  Characters
//! outside tags keep the plain style, and a brace that does not open
//! a well-formed tag is ordinary text.  The lexer turns a character
//! sequence into one styled character per input character, with the
//! tag syntax itself removed.

use vstd::prelude::*;

verus! {

/// A colour a tag can name for the foreground.
#[derive(Clone, Copy, PartialEq, Eq, Structural, Debug)]
pub enum Color {
    Default,
    Black,
    Red,
    Green,
    Yellow,
    Blue,
    Magenta,
    Cyan,
    White,
}

/// The style in effect for one character.
#[derive(Clone, Copy, PartialEq, Eq, Structural, Debug)]
pub struct Style {
    pub fg: Color,
    pub bold: bool,
    pub italic: bool,
}

/// One character of parsed text together with its style.
#[derive(Clone, Copy, PartialEq, Eq, Structural, Debug)]
pub struct StyledChar {
    pub ch: char,
    pub style: Style,
}

/// The style of text outside any tag.
pub open spec fn plain_style() -> Style {
    Style { fg: Color::Default, bold: false, italic: false }
}

/// Index of the first occurrence of `c`, or -1 when it is absent.
pub open spec fn find_at(s: Seq<char>, c: char) -> int
    decreases s.len(),
{
    if s.len() == 0 {
        -1
    } else if s[0] == c {
        0
    } else {
        let r = find_at(s.drop_first(), c);
        if r == -1 {
            -1
        } else {
            r + 1
        }
    }
}

/// The `mod` key.
pub open spec fn mod_key() -> Seq<char> {
    seq!['m', 'o', 'd']
}

/// The `fg` key.
pub open spec fn fg_key() -> Seq<char> {
    seq!['f', 'g']
}

/// The `bold` value.
pub open spec fn bold_val() -> Seq<char> {
    seq!['b', 'o', 'l', 'd']
}

/// The `italic` value.
pub open spec fn italic_val() -> Seq<char> {
    seq!['i', 't', 'a', 'l', 'i', 'c']
}

/// The colour a value names, if any.
pub open spec fn color_of(val: Seq<char>) -> Option<Color> {
    if val == seq!['b', 'l', 'a', 'c', 'k'] {
        Some(Color::Black)
    } else if val == seq!['r', 'e', 'd'] {
        Some(Color::Red)
    } else if val == seq!['g', 'r', 'e', 'e', 'n'] {
        Some(Color::Green)
    } else if val == seq!['y', 'e', 'l', 'l', 'o', 'w'] {
        Some(Color::Yellow)
    } else if val == seq!['b', 'l', 'u', 'e'] {
        Some(Color::Blue)
    } else if val == seq!['m', 'a', 'g', 'e', 'n', 't', 'a'] {
        Some(Color::Magenta)
    } else if val == seq!['c', 'y', 'a', 'n'] {
        Some(Color::Cyan)
    } else if val == seq!['w', 'h', 'i', 't', 'e'] {
        Some(Color::White)
    } else {
        None
    }
}

/// Apply one `key=value` pair to a style; anything unrecognised, or a
/// pair without `=` after its first character, changes nothing.
pub open spec fn apply_kv(st: Style, kv: Seq<char>) -> Style {
    let eq = find_at(kv, '=');
    if 0 < eq < kv.len() {
        let key = kv.take(eq);
        let val = kv.skip(eq + 1);
        if key == mod_key() {
            if val == bold_val() {
                Style { bold: true, ..st }
            } else if val == italic_val() {
                Style { italic: true, ..st }
            } else {
                st
            }
        } else if key == fg_key() {
            match color_of(val) {
                Some(c) => Style { fg: c, ..st },
                None => st,
            }
        } else {
            st
        }
    } else {
        st
    }
}

/// Apply a `;`-separated list of `key=value` pairs, left to right.
pub open spec fn style_of_from(st: Style, kl: Seq<char>) -> Style
    decreases kl.len(),
{
    let sc = find_at(kl, ';');
    if 0 <= sc < kl.len() {
        style_of_from(apply_kv(st, kl.take(sc)), kl.skip(sc + 1))
    } else {
        apply_kv(st, kl)
    }
}

/// Whether the text starts with a well-formed tag: a key list up to
/// the first space, then span text up to the first closing brace.
pub open spec fn tag_ends(t: Seq<char>) -> bool {
    let sp = find_at(t, ' ');
    let br = find_at(t, '}');
    0 < sp && sp < br && br < t.len()
}

/// An accumulator extended with every character of a span, each under
/// one style.
pub open spec fn spanacc(acc: Seq<StyledChar>, text: Seq<char>, st: Style) -> Seq<StyledChar>
    decreases text.len(),
{
    if text.len() == 0 {
        acc
    } else {
        spanacc(acc, text.drop_last(), st).push(StyledChar { ch: text.last(), style: st })
    }
}

/// The lexer, walking the text left to right and appending one styled
/// character per character of content: a well-formed tag switches the
/// style for its span and its syntax is dropped; everything else
/// keeps the plain style.
pub open spec fn lex_spec(t: Seq<char>, acc: Seq<StyledChar>) -> Seq<StyledChar>
    decreases t.len(),
{
    if t.len() == 0 {
        acc
    } else if t[0] == '{' && tag_ends(t) {
        let sp = find_at(t, ' ');
        let br = find_at(t, '}');
        let st = style_of_from(plain_style(), t.subrange(1, sp));
        lex_spec(t.skip(br + 1), spanacc(acc, t.subrange(sp + 1, br), st))
    } else {
        lex_spec(t.drop_first(), acc.push(StyledChar { ch: t[0], style: plain_style() }))
    }
}

/// The parsed form of a text: its styled characters, tag syntax
/// removed.
pub open spec fn styled_spec(t: Seq<char>) -> Seq<StyledChar> {
    lex_spec(t, Seq::<StyledChar>::empty())
}

/// Whether the characters between `lo` and `hi` are exactly `w`.
fn seg_eq(v: &Vec<char>, lo: usize, hi: usize, w: &Vec<char>) -> (r: bool)
    requires
        lo <= hi <= v@.len(),
    ensures
        r == (v@.subrange(lo as int, hi as int) == w@),
{
    if hi - lo != w.len() {
        proof {
            assert(v@.subrange(lo as int, hi as int).len() != w@.len());
        }
        return false;
    }
    let mut j: usize = 0;
    while j < w.len()
        invariant
            0 <= j <= w@.len(),
            lo <= hi <= v@.len(),
            hi - lo == w@.len(),
            forall|m: int| 0 <= m < j ==> v@.subrange(lo as int, hi as int)[m] == w@[m],
        decreases w@.len() - j,
    {
        if v[lo + j] != w[j] {
            proof {
                assert(v@.subrange(lo as int, hi as int)[j as int] != w@[j as int]);
            }
            return false;
        }
        j += 1;
    }
    proof {
        assert(v@.subrange(lo as int, hi as int) =~= w@);
    }
    true
}

/// First occurrence of `c` between `lo` and `hi`, as an absolute
/// index.
fn find_range(v: &Vec<char>, lo: usize, hi: usize, c: char) -> (r: Option<usize>)
    requires
        lo <= hi <= v@.len(),
    ensures
        match r {
            Some(j) => lo <= j < hi && find_at(v@.subrange(lo as int, hi as int), c) == j - lo,
            None => find_at(v@.subrange(lo as int, hi as int), c) == -1,
        },
    decreases hi - lo,
{
    if lo == hi {
        proof {
            assert(v@.subrange(lo as int, hi as int) =~= Seq::<char>::empty());
        }
        None
    } else if v[lo] == c {
        proof {
            assert(v@.subrange(lo as int, hi as int)[0] == c);
        }
        Some(lo)
    } else {
        let r = find_range(v, lo + 1, hi, c);
        proof {
            assert(v@.subrange(lo as int, hi as int).drop_first() =~= v@.subrange(
                lo as int + 1,
                hi as int,
            ));
            assert(v@.subrange(lo as int, hi as int)[0] == v@[lo as int]);
        }
        r
    }
}

/// Apply the `key=value` pair between `lo` and `hi` to a style.
fn apply_kv_range(v: &Vec<char>, lo: usize, hi: usize, st: Style) -> (r: Style)
    requires
        lo <= hi <= v@.len(),
    ensures
        r == apply_kv(st, v@.subrange(lo as int, hi as int)),
{
    let eqo = find_range(v, lo, hi, '=');
    match eqo {
        None => st,
        Some(e) => {
            if e == lo {
                return st;
            }
            proof {
                assert(v@.subrange(lo as int, hi as int).take(e - lo) =~= v@.subrange(
                    lo as int,
                    e as int,
                ));
                assert(v@.subrange(lo as int, hi as int).skip(e - lo + 1) =~= v@.subrange(
                    e as int + 1,
                    hi as int,
                ));
            }
            let w_mod: Vec<char> = vec!['m', 'o', 'd'];
            let w_fg: Vec<char> = vec!['f', 'g'];
            proof {
                assert(w_mod@ =~= mod_key());
                assert(w_fg@ =~= fg_key());
            }
            if seg_eq(v, lo, e, &w_mod) {
                let w_bold: Vec<char> = vec!['b', 'o', 'l', 'd'];
                let w_italic: Vec<char> = vec!['i', 't', 'a', 'l', 'i', 'c'];
                proof {
                    assert(w_bold@ =~= bold_val());
                    assert(w_italic@ =~= italic_val());
                }
                if seg_eq(v, e + 1, hi, &w_bold) {
                    Style { bold: true, ..st }
                } else if seg_eq(v, e + 1, hi, &w_italic) {
                    Style { italic: true, ..st }
                } else {
                    st
                }
            } else if seg_eq(v, lo, e, &w_fg) {
                let w_black: Vec<char> = vec!['b', 'l', 'a', 'c', 'k'];
                let w_red: Vec<char> = vec!['r', 'e', 'd'];
                let w_green: Vec<char> = vec!['g', 'r', 'e', 'e', 'n'];
                let w_yellow: Vec<char> = vec!['y', 'e', 'l', 'l', 'o', 'w'];
                let w_blue: Vec<char> = vec!['b', 'l', 'u', 'e'];
                let w_magenta: Vec<char> = vec!['m', 'a', 'g', 'e', 'n', 't', 'a'];
                let w_cyan: Vec<char> = vec!['c', 'y', 'a', 'n'];
                let w_white: Vec<char> = vec!['w', 'h', 'i', 't', 'e'];
                if seg_eq(v, e + 1, hi, &w_black) {
                    Style { fg: Color::Black, ..st }
                } else if seg_eq(v, e + 1, hi, &w_red) {
                    Style { fg: Color::Red, ..st }
                } else if seg_eq(v, e + 1, hi, &w_green) {
                    Style { fg: Color::Green, ..st }
                } else if seg_eq(v, e + 1, hi, &w_yellow) {
                    Style { fg: Color::Yellow, ..st }
                } else if seg_eq(v, e + 1, hi, &w_blue) {
                    Style { fg: Color::Blue, ..st }
                } else if seg_eq(v, e + 1, hi, &w_magenta) {
                    Style { fg: Color::Magenta, ..st }
                } else if seg_eq(v, e + 1, hi, &w_cyan) {
                    Style { fg: Color::Cyan, ..st }
                } else if seg_eq(v, e + 1, hi, &w_white) {
                    Style { fg: Color::White, ..st }
                } else {
                    st
                }
            } else {
                st
            }
        },
    }
}

/// Apply the `;`-separated key list between `lo` and `hi` to a style.
fn style_from_range(v: &Vec<char>, lo: usize, hi: usize, st: Style) -> (r: Style)
    requires
        lo <= hi <= v@.len(),
    ensures
        r == style_of_from(st, v@.subrange(lo as int, hi as int)),
    decreases hi - lo,
{
    let sco = find_range(v, lo, hi, ';');
    match sco {
        None => apply_kv_range(v, lo, hi, st),
        Some(s) => {
            proof {
                assert(v@.subrange(lo as int, hi as int).take(s - lo) =~= v@.subrange(
                    lo as int,
                    s as int,
                ));
                assert(v@.subrange(lo as int, hi as int).skip(s - lo + 1) =~= v@.subrange(
                    s as int + 1,
                    hi as int,
                ));
            }
            let st2 = apply_kv_range(v, lo, s, st);
            style_from_range(v, s + 1, hi, st2)
        },
    }
}

/// Lex the text from position `i` on, appending the styled
/// characters to `out`.
#[verifier::loop_isolation(false)]
#[verifier::rlimit(60)]
fn parse_at(v: &Vec<char>, i: usize, out: &mut Vec<StyledChar>)
    requires
        i <= v@.len(),
    ensures
        final(out)@ == lex_spec(v@.skip(i as int), old(out)@),
    decreases v@.len() - i,
{
    let ghost t: Seq<char> = v@.skip(i as int);
    if i == v.len() {
        proof {
            assert(t =~= Seq::<char>::empty());
        }
        return;
    }
    let c = v[i];
    proof {
        assert(v@.subrange(i as int, v@.len() as int) =~= t);
        assert(t[0] == c);
    }
    let mut tag: Option<(usize, usize)> = None;
    if c == '{' {
        let spo = find_range(v, i, v.len(), ' ');
        let bro = find_range(v, i, v.len(), '}');
        match (spo, bro) {
            (Some(sp), Some(br)) => {
                if sp < br {
                    tag = Some((sp, br));
                }
                proof {
                    assert(find_at(t, ' ') == sp - i);
                    assert(find_at(t, '}') == br - i);
                }
            },
            _ => {},
        }
    }
    match tag {
        Some((sp, br)) => {
            proof {
                assert(find_at(t, ' ') != 0);
                assert(tag_ends(t));
                assert(t.subrange(1, sp - i) =~= v@.subrange(i as int + 1, sp as int));
            }
            let style = style_from_range(
                v,
                i + 1,
                sp,
                Style { fg: Color::Default, bold: false, italic: false },
            );
            let ghost pre = out@;
            let ghost spec_style = style_of_from(plain_style(), t.subrange(1, sp - i));
            let mut j: usize = sp + 1;
            proof {
                assert(v@.subrange(sp as int + 1, sp as int + 1) =~= Seq::<char>::empty());
            }
            while j < br
                invariant
                    sp + 1 <= j <= br,
                    out@ == spanacc(pre, v@.subrange(sp as int + 1, j as int), style),
                decreases br - j,
            {
                out.push(StyledChar { ch: v[j], style });
                proof {
                    let a = v@.subrange(sp as int + 1, j as int + 1);
                    assert(a.drop_last() =~= v@.subrange(sp as int + 1, j as int));
                    assert(a.last() == v@[j as int]);
                }
                j += 1;
            }
            proof {
                assert(v@.subrange(sp as int + 1, br as int) =~= t.subrange(sp - i + 1, br - i));
                assert(style == spec_style);
                assert(out@ == spanacc(pre, t.subrange(sp - i + 1, br - i), spec_style));
                assert(v@.skip(br as int + 1) =~= t.skip(br - i + 1));
            }
            parse_at(v, br + 1, out);
            proof {
                assert(lex_spec(t, pre) == lex_spec(
                    t.skip(br - i + 1),
                    spanacc(pre, t.subrange(sp - i + 1, br - i), spec_style),
                ));
            }
        },
        None => {
            proof {
                if c == '{' {
                    assert(!tag_ends(t));
                }
                assert(t.drop_first() =~= v@.skip(i as int + 1));
            }
            out.push(
                StyledChar { ch: c, style: Style { fg: Color::Default, bold: false, italic: false } },
            );
            parse_at(v, i + 1, out);
            proof {
                assert(lex_spec(t, old(out)@) == lex_spec(
                    t.drop_first(),
                    old(out)@.push(StyledChar { ch: c, style: plain_style() }),
                ));
            }
        },
    }
}

/// Lex a whole text: one styled character per input character, with
/// the tag syntax removed and each tag's style applied to its span.
pub fn parse_markup(text: &Vec<char>) -> (r: Vec<StyledChar>)
    ensures
        r@ == styled_spec(text@),
{
    let mut out: Vec<StyledChar> = Vec::new();
    proof {
        assert(text@.skip(0) =~= text@);
    }
    parse_at(text, 0, &mut out);
    out
}

} // verus!
