//! The Markdown engine: one pure parser that turns a Markdown text into
//! a finite sequence of typed block and inline events, shared by the
//! platform encoders.
//!
//! The grammar is a deliberately small dialect: ATX headings, fenced
//! code blocks, block quotes, flat ordered/unordered lists, horizontal
//! rules, paragraphs; inline emphasis (`*`/`_`), strong (`**`/`__`),
//! strikethrough (`~~`), inline code, links and images.  An unmatched
//! delimiter stays literal text.  Full CommonMark compliance is a
//! non-goal.
//!
//! Events carry positions into the source text rather than copies; an
//! encoder reads the ranges back out of the text it was given.

use vstd::prelude::*;

use crate::text::{is_digit, scan_digits, ws_char};

verus! {

broadcast use vstd::std_specs::vec::group_vec_axioms, vstd::seq::group_seq_axioms;

/// One parsed Markdown event.  Ranges index the source text.
#[derive(Clone, Copy, PartialEq, Eq, Structural, Debug)]
pub enum MdEvent {
    ParaStart,
    ParaEnd,
    HeadingStart,
    HeadingEnd,
    QuoteStart,
    QuoteEnd,
    CodeStart,
    CodeEnd,
    ListStart { ordered: bool },
    ListEnd,
    ItemStart,
    ItemEnd,
    EmphStart,
    EmphEnd,
    StrongStart,
    StrongEnd,
    StrikeStart,
    StrikeEnd,
    LinkStart { url_from: usize, url_to: usize },
    LinkEnd,
    ImageStart { url_from: usize, url_to: usize },
    ImageEnd,
    Text { from: usize, to: usize },
    InlineCode { from: usize, to: usize },
    SoftBreak,
    HardBreak,
    Rule,
}

/// A text event over `[a, b)`.
pub open spec fn text_ev(a: int, b: int) -> MdEvent {
    MdEvent::Text { from: a as usize, to: b as usize }
}

/// Inline characters that may open an inline construct.
pub open spec fn special_char(c: char) -> bool {
    c == '*' || c == '_' || c == '~' || c == '`' || c == '[' || c == '!'
}

/// Executable twin of `special_char`.
fn special_char_exec(c: char) -> (r: bool)
    ensures
        r == special_char(c),
{
    c == '*' || c == '_' || c == '~' || c == '`' || c == '[' || c == '!'
}

/// The first position in `[a, b)` holding a special character, else `b`.
pub open spec fn first_special(s: Seq<char>, a: int, b: int) -> int
    decreases b - a,
{
    if 0 <= a < b && b <= s.len() {
        if special_char(s[a]) {
            a
        } else {
            first_special(s, a + 1, b)
        }
    } else {
        b
    }
}

/// The first position in `[a, b)` holding `c`, else `b`.
pub open spec fn find_char(s: Seq<char>, a: int, b: int, c: char) -> int
    decreases b - a,
{
    if 0 <= a < b && b <= s.len() {
        if s[a] == c {
            a
        } else {
            find_char(s, a + 1, b, c)
        }
    } else {
        b
    }
}

/// The first position `i` in `[a, b-1)` with `c` at both `i` and `i+1`,
/// else `b`.
pub open spec fn find_double(s: Seq<char>, a: int, b: int, c: char) -> int
    decreases b - a,
{
    if 0 <= a && a + 1 < b && b <= s.len() {
        if s[a] == c && s[a + 1] == c {
            a
        } else {
            find_double(s, a + 1, b, c)
        }
    } else {
        b
    }
}

/// Executable twin of `first_special`.
fn first_special_exec(s: &Vec<char>, a: usize, b: usize) -> (r: usize)
    requires
        a <= b <= s@.len(),
    ensures
        r as int == first_special(s@, a as int, b as int),
        a <= r <= b,
        r < b ==> special_char(s@[r as int]),
{
    let mut cur = a;
    while cur < b && !special_char_exec(s[cur])
        invariant
            a <= cur <= b <= s@.len(),
            first_special(s@, a as int, b as int) == first_special(s@, cur as int, b as int),
        decreases b - cur,
    {
        cur = cur + 1;
    }
    cur
}

/// Executable twin of `find_char`.
fn find_char_exec(s: &Vec<char>, a: usize, b: usize, c: char) -> (r: usize)
    requires
        a <= b <= s@.len(),
    ensures
        r as int == find_char(s@, a as int, b as int, c),
        a <= r <= b,
{
    let mut cur = a;
    while cur < b && s[cur] != c
        invariant
            a <= cur <= b <= s@.len(),
            find_char(s@, a as int, b as int, c) == find_char(s@, cur as int, b as int, c),
        decreases b - cur,
    {
        cur = cur + 1;
    }
    cur
}

/// Executable twin of `find_double`.
fn find_double_exec(s: &Vec<char>, a: usize, b: usize, c: char) -> (r: usize)
    requires
        a <= b <= s@.len(),
    ensures
        r as int == find_double(s@, a as int, b as int, c),
        a <= r <= b,
{
    let mut cur = a;
    while b - cur > 1 && !(s[cur] == c && s[cur + 1] == c)
        invariant
            a <= cur <= b <= s@.len(),
            find_double(s@, a as int, b as int, c) == find_double(s@, cur as int, b as int, c),
        decreases b - cur,
    {
        cur = cur + 1;
    }
    if b - cur > 1 {
        cur
    } else {
        b
    }
}

} // verus!


verus! {

/// An inline-code event over `[a, b)`.
pub open spec fn code_ev(a: int, b: int) -> MdEvent {
    MdEvent::InlineCode { from: a as usize, to: b as usize }
}

/// A link-start event whose URL is `[a, b)`.
pub open spec fn link_ev(a: int, b: int) -> MdEvent {
    MdEvent::LinkStart { url_from: a as usize, url_to: b as usize }
}

/// An image-start event whose URL is `[a, b)`.
pub open spec fn image_ev(a: int, b: int) -> MdEvent {
    MdEvent::ImageStart { url_from: a as usize, url_to: b as usize }
}

/// The inline events of `s[a .. b)`: text runs up to the first special
/// character, then whatever construct `inline_at` reads there.
pub open spec fn inline_ev(s: Seq<char>, a: int, b: int) -> Seq<MdEvent>
    decreases b - a, 2int,
{
    if a < 0 || a >= b || b > s.len() {
        Seq::empty()
    } else {
        let i0 = first_special(s, a, b);
        let i = if i0 < a {
            a
        } else {
            i0
        };
        if i >= b {
            seq![text_ev(a, b)]
        } else {
            let pre: Seq<MdEvent> = if i > a {
                seq![text_ev(a, i)]
            } else {
                Seq::empty()
            };
            pre + inline_at(s, i, b)
        }
    }
}

/// The inline events of `s[i .. b)` where `s[i]` is a special
/// character: one construct (or a literal character), then the rest.
/// An unmatched delimiter stays literal.
pub open spec fn inline_at(s: Seq<char>, i: int, b: int) -> Seq<MdEvent>
    decreases b - i, 1int,
{
    if i < 0 || i >= b || b > s.len() {
        Seq::empty()
    } else {
        let c = s[i];
        if c == '`' {
            let j0 = find_char(s, i + 1, b, '`');
            let j = if j0 < i + 1 || j0 > b {
                b
            } else {
                j0
            };
            if j < b {
                seq![code_ev(i + 1, j)] + inline_ev(s, j + 1, b)
            } else {
                seq![text_ev(i, i + 1)] + inline_ev(s, i + 1, b)
            }
        } else if c == '[' {
            let j0 = find_char(s, i + 1, b, ']');
            let j = if j0 < i + 1 || j0 > b {
                b
            } else {
                j0
            };
            if j < b && j + 1 < b && s[j + 1] == '(' {
                let k0 = find_char(s, j + 2, b, ')');
                let k = if k0 < j + 2 || k0 > b {
                    b
                } else {
                    k0
                };
                if k < b {
                    seq![link_ev(j + 2, k)] + inline_ev(s, i + 1, j) + seq![MdEvent::LinkEnd]
                        + inline_ev(s, k + 1, b)
                } else {
                    seq![text_ev(i, i + 1)] + inline_ev(s, i + 1, b)
                }
            } else {
                seq![text_ev(i, i + 1)] + inline_ev(s, i + 1, b)
            }
        } else if c == '!' {
            if i + 1 < b && s[i + 1] == '[' {
                let j0 = find_char(s, i + 2, b, ']');
                let j = if j0 < i + 2 || j0 > b {
                    b
                } else {
                    j0
                };
                if j < b && j + 1 < b && s[j + 1] == '(' {
                    let k0 = find_char(s, j + 2, b, ')');
                    let k = if k0 < j + 2 || k0 > b {
                        b
                    } else {
                        k0
                    };
                    if k < b {
                        seq![image_ev(j + 2, k)] + inline_ev(s, i + 2, j) + seq![MdEvent::ImageEnd]
                            + inline_ev(s, k + 1, b)
                    } else {
                        seq![text_ev(i, i + 1)] + inline_ev(s, i + 1, b)
                    }
                } else {
                    seq![text_ev(i, i + 1)] + inline_ev(s, i + 1, b)
                }
            } else {
                seq![text_ev(i, i + 1)] + inline_ev(s, i + 1, b)
            }
        } else if c == '~' {
            if i + 1 < b && s[i + 1] == '~' {
                let j0 = find_double(s, i + 2, b, '~');
                let j = if j0 < i + 2 || j0 + 1 >= b {
                    b
                } else {
                    j0
                };
                if j < b {
                    seq![MdEvent::StrikeStart] + inline_ev(s, i + 2, j) + seq![MdEvent::StrikeEnd]
                        + inline_ev(s, j + 2, b)
                } else {
                    seq![text_ev(i, i + 2)] + inline_ev(s, i + 2, b)
                }
            } else {
                seq![text_ev(i, i + 1)] + inline_ev(s, i + 1, b)
            }
        } else {
            // '*' or '_'
            if i + 1 < b && s[i + 1] == c {
                let j0 = find_double(s, i + 2, b, c);
                let j = if j0 < i + 2 || j0 + 1 >= b {
                    b
                } else {
                    j0
                };
                if j < b {
                    seq![MdEvent::StrongStart] + inline_ev(s, i + 2, j) + seq![MdEvent::StrongEnd]
                        + inline_ev(s, j + 2, b)
                } else {
                    seq![text_ev(i, i + 2)] + inline_ev(s, i + 2, b)
                }
            } else {
                let j0 = find_char(s, i + 1, b, c);
                let j = if j0 < i + 1 || j0 > b {
                    b
                } else {
                    j0
                };
                if j < b {
                    seq![MdEvent::EmphStart] + inline_ev(s, i + 1, j) + seq![MdEvent::EmphEnd]
                        + inline_ev(s, j + 1, b)
                } else {
                    seq![text_ev(i, i + 1)] + inline_ev(s, i + 1, b)
                }
            }
        }
    }
}

} // verus!

verus! {

/// Reads one inline-code construct at `i`; executable arm of
/// `inline_at`.
fn x_at_code(s: &Vec<char>, i: usize, b: usize, out: &mut Vec<MdEvent>)
    requires
        i < b <= s@.len(),
        s@[i as int] == '`',
    ensures
        final(out)@ == old(out)@ + inline_at(s@, i as int, b as int),
    decreases b - i, 1int,
{
    let j = find_char_exec(s, i + 1, b, '`');
    if j < b {
        out.push(MdEvent::InlineCode { from: i + 1, to: j });
        x_inline(s, j + 1, b, out);
        proof {
            assert(out@ =~= old(out)@ + (seq![code_ev(i + 1, j as int)] + inline_ev(
                s@,
                j + 1,
                b as int,
            )));
        }
    } else {
        out.push(MdEvent::Text { from: i, to: i + 1 });
        x_inline(s, i + 1, b, out);
        proof {
            assert(out@ =~= old(out)@ + (seq![text_ev(i as int, i + 1)] + inline_ev(
                s@,
                i + 1,
                b as int,
            )));
        }
    }
}

/// Reads one link construct at `i`; executable arm of `inline_at`.
fn x_at_link(s: &Vec<char>, i: usize, b: usize, out: &mut Vec<MdEvent>)
    requires
        i < b <= s@.len(),
        s@[i as int] == '[',
    ensures
        final(out)@ == old(out)@ + inline_at(s@, i as int, b as int),
    decreases b - i, 1int,
{
    let j = find_char_exec(s, i + 1, b, ']');
    if j < b && b - j > 1 && s[j + 1] == '(' {
        let k = find_char_exec(s, j + 2, b, ')');
        if k < b {
            out.push(MdEvent::LinkStart { url_from: j + 2, url_to: k });
            x_inline(s, i + 1, j, out);
            out.push(MdEvent::LinkEnd);
            x_inline(s, k + 1, b, out);
            proof {
                assert(out@ =~= old(out)@ + (seq![link_ev(j + 2, k as int)] + inline_ev(
                    s@,
                    i + 1,
                    j as int,
                ) + seq![MdEvent::LinkEnd] + inline_ev(s@, k + 1, b as int)));
            }
            return;
        }
    }
    out.push(MdEvent::Text { from: i, to: i + 1 });
    x_inline(s, i + 1, b, out);
    proof {
        assert(out@ =~= old(out)@ + (seq![text_ev(i as int, i + 1)] + inline_ev(
            s@,
            i + 1,
            b as int,
        )));
    }
}

/// Reads one image construct at `i`; executable arm of `inline_at`.
fn x_at_image(s: &Vec<char>, i: usize, b: usize, out: &mut Vec<MdEvent>)
    requires
        i < b <= s@.len(),
        s@[i as int] == '!',
    ensures
        final(out)@ == old(out)@ + inline_at(s@, i as int, b as int),
    decreases b - i, 1int,
{
    if b - i > 1 && s[i + 1] == '[' {
        let j = find_char_exec(s, i + 2, b, ']');
        if j < b && b - j > 1 && s[j + 1] == '(' {
            let k = find_char_exec(s, j + 2, b, ')');
            if k < b {
                out.push(MdEvent::ImageStart { url_from: j + 2, url_to: k });
                x_inline(s, i + 2, j, out);
                out.push(MdEvent::ImageEnd);
                x_inline(s, k + 1, b, out);
                proof {
                    assert(out@ =~= old(out)@ + (seq![image_ev(j + 2, k as int)] + inline_ev(
                        s@,
                        i + 2,
                        j as int,
                    ) + seq![MdEvent::ImageEnd] + inline_ev(s@, k + 1, b as int)));
                }
                return;
            }
        }
    }
    out.push(MdEvent::Text { from: i, to: i + 1 });
    x_inline(s, i + 1, b, out);
    proof {
        assert(out@ =~= old(out)@ + (seq![text_ev(i as int, i + 1)] + inline_ev(
            s@,
            i + 1,
            b as int,
        )));
    }
}

/// Reads one strikethrough construct at `i`; executable arm of
/// `inline_at`.
fn x_at_tilde(s: &Vec<char>, i: usize, b: usize, out: &mut Vec<MdEvent>)
    requires
        i < b <= s@.len(),
        s@[i as int] == '~',
    ensures
        final(out)@ == old(out)@ + inline_at(s@, i as int, b as int),
    decreases b - i, 1int,
{
    if b - i > 1 && s[i + 1] == '~' {
        let j0 = find_double_exec(s, i + 2, b, '~');
        let j = if b - j0 <= 1 {
            b
        } else {
            j0
        };
        if j < b {
            out.push(MdEvent::StrikeStart);
            x_inline(s, i + 2, j, out);
            out.push(MdEvent::StrikeEnd);
            x_inline(s, j + 2, b, out);
            proof {
                assert(out@ =~= old(out)@ + (seq![MdEvent::StrikeStart] + inline_ev(
                    s@,
                    i + 2,
                    j as int,
                ) + seq![MdEvent::StrikeEnd] + inline_ev(s@, j + 2, b as int)));
            }
        } else {
            out.push(MdEvent::Text { from: i, to: i + 2 });
            x_inline(s, i + 2, b, out);
            proof {
                assert(out@ =~= old(out)@ + (seq![text_ev(i as int, i + 2)] + inline_ev(
                    s@,
                    i + 2,
                    b as int,
                )));
            }
        }
    } else {
        out.push(MdEvent::Text { from: i, to: i + 1 });
        x_inline(s, i + 1, b, out);
        proof {
            assert(out@ =~= old(out)@ + (seq![text_ev(i as int, i + 1)] + inline_ev(
                s@,
                i + 1,
                b as int,
            )));
        }
    }
}

/// Reads one emphasis or strong construct at `i`; executable arm of
/// `inline_at`.
#[verifier::rlimit(60)]
fn x_at_emph(s: &Vec<char>, i: usize, b: usize, out: &mut Vec<MdEvent>)
    requires
        i < b <= s@.len(),
        s@[i as int] == '*' || s@[i as int] == '_',
    ensures
        final(out)@ == old(out)@ + inline_at(s@, i as int, b as int),
    decreases b - i, 1int,
{
    let c = s[i];
    if b - i > 1 && s[i + 1] == c {
        let j0 = find_double_exec(s, i + 2, b, c);
        let j = if b - j0 <= 1 {
            b
        } else {
            j0
        };
        if j < b {
            out.push(MdEvent::StrongStart);
            x_inline(s, i + 2, j, out);
            out.push(MdEvent::StrongEnd);
            x_inline(s, j + 2, b, out);
            proof {
                assert(out@ =~= old(out)@ + (seq![MdEvent::StrongStart] + inline_ev(
                    s@,
                    i + 2,
                    j as int,
                ) + seq![MdEvent::StrongEnd] + inline_ev(s@, j + 2, b as int)));
            }
        } else {
            out.push(MdEvent::Text { from: i, to: i + 2 });
            x_inline(s, i + 2, b, out);
            proof {
                assert(out@ =~= old(out)@ + (seq![text_ev(i as int, i + 2)] + inline_ev(
                    s@,
                    i + 2,
                    b as int,
                )));
            }
        }
    } else {
        let j = find_char_exec(s, i + 1, b, c);
        if j < b {
            out.push(MdEvent::EmphStart);
            x_inline(s, i + 1, j, out);
            out.push(MdEvent::EmphEnd);
            x_inline(s, j + 1, b, out);
            proof {
                assert(out@ =~= old(out)@ + (seq![MdEvent::EmphStart] + inline_ev(
                    s@,
                    i + 1,
                    j as int,
                ) + seq![MdEvent::EmphEnd] + inline_ev(s@, j + 1, b as int)));
            }
        } else {
            out.push(MdEvent::Text { from: i, to: i + 1 });
            x_inline(s, i + 1, b, out);
            proof {
                assert(out@ =~= old(out)@ + (seq![text_ev(i as int, i + 1)] + inline_ev(
                    s@,
                    i + 1,
                    b as int,
                )));
            }
        }
    }
}

/// Appends the inline events of `s[a .. b)` to `out`; executable twin
/// of `inline_ev`.
fn x_inline(s: &Vec<char>, a: usize, b: usize, out: &mut Vec<MdEvent>)
    requires
        a <= b <= s@.len(),
    ensures
        final(out)@ == old(out)@ + inline_ev(s@, a as int, b as int),
    decreases b - a, 2int,
{
    if a >= b {
        proof {
            assert(out@ =~= old(out)@ + inline_ev(s@, a as int, b as int));
        }
        return;
    }
    let i = first_special_exec(s, a, b);
    if i >= b {
        out.push(MdEvent::Text { from: a, to: b });
        proof {
            assert(out@ =~= old(out)@ + inline_ev(s@, a as int, b as int));
        }
        return;
    }
    let ghost pre: Seq<MdEvent> = if i > a {
        seq![text_ev(a as int, i as int)]
    } else {
        Seq::empty()
    };
    if i > a {
        out.push(MdEvent::Text { from: a, to: i });
    }
    let ghost base = out@;
    proof {
        assert(base =~= old(out)@ + pre);
    }
    let c = s[i];
    if c == '`' {
        x_at_code(s, i, b, out);
    } else if c == '[' {
        x_at_link(s, i, b, out);
    } else if c == '!' {
        x_at_image(s, i, b, out);
    } else if c == '~' {
        x_at_tilde(s, i, b, out);
    } else {
        x_at_emph(s, i, b, out);
    }
    proof {
        assert(out@ =~= old(out)@ + (pre + inline_at(s@, i as int, b as int)));
    }
}

} // verus!

verus! {

/// The position of the end of the line that starts at `p`: the next
/// newline, or the end of the text.
pub open spec fn line_end(s: Seq<char>, p: int) -> int
    decreases s.len() - p,
{
    if 0 <= p < s.len() && s[p] != '\n' {
        line_end(s, p + 1)
    } else {
        p
    }
}

/// The first position in `[p, e)` that does not hold whitespace, else
/// `e`.
pub open spec fn first_non_ws(s: Seq<char>, p: int, e: int) -> int
    decreases e - p,
{
    if 0 <= p < e && e <= s.len() && ws_char(s[p]) {
        first_non_ws(s, p + 1, e)
    } else {
        p
    }
}

/// The end of `[p, e)` with trailing whitespace dropped: the least
/// `te >= p` with only whitespace in `[te, e)`.
pub open spec fn trim_end_pos(s: Seq<char>, p: int, e: int) -> int
    decreases e - p,
{
    if p < e && 0 <= e - 1 < s.len() && ws_char(s[e - 1]) {
        trim_end_pos(s, p, e - 1)
    } else {
        e
    }
}

/// How many characters of `c`, `ls` on, make a thematic break: every
/// character in `[i, e)` is `c` or a space, at least three are `c`.
pub open spec fn hr_scan(s: Seq<char>, i: int, e: int, c: char, cnt: int) -> bool
    decreases e - i,
{
    if i >= e || e > s.len() || i < 0 {
        cnt >= 3
    } else if s[i] == c {
        hr_scan(s, i + 1, e, c, cnt + 1)
    } else if s[i] == ' ' {
        hr_scan(s, i + 1, e, c, cnt)
    } else {
        false
    }
}

/// The length of the `#` run at `i`.
pub open spec fn hash_run(s: Seq<char>, i: int, e: int) -> int
    decreases e - i,
{
    if 0 <= i < e && e <= s.len() && s[i] == '#' {
        1 + hash_run(s, i + 1, e)
    } else {
        0
    }
}

/// What a line is, and where its content starts.
#[derive(Clone, Copy, PartialEq, Eq, Structural, Debug)]
pub enum LineKind {
    Blank,
    Fence,
    Rule,
    Heading { cs: usize },
    Quote { cs: usize },
    ListItem { ordered: bool, cs: usize },
    Plain,
}

/// Classifies the line `[p, e)`.
pub open spec fn classify(s: Seq<char>, p: int, e: int) -> LineKind {
    let ls = first_non_ws(s, p, e);
    if ls >= e {
        LineKind::Blank
    } else {
        let c = s[ls];
        if ls + 3 <= e && c == '`' && s[ls + 1] == '`' && s[ls + 2] == '`' {
            LineKind::Fence
        } else if (c == '-' || c == '*' || c == '_') && hr_scan(s, ls, e, c, 0) {
            LineKind::Rule
        } else if c == '#' {
            let run = hash_run(s, ls, e);
            if 1 <= run <= 6 && (ls + run == e || s[ls + run] == ' ') {
                let cs = if ls + run + 1 <= e {
                    ls + run + 1
                } else {
                    e
                };
                LineKind::Heading { cs: cs as usize }
            } else {
                LineKind::Plain
            }
        } else if c == '>' {
            let cs = if ls + 1 < e && s[ls + 1] == ' ' {
                ls + 2
            } else {
                ls + 1
            };
            let cs2 = if cs <= e {
                cs
            } else {
                e
            };
            LineKind::Quote { cs: cs2 as usize }
        } else if (c == '-' || c == '*' || c == '+') && (ls + 1 == e || s[ls + 1] == ' ') {
            let cs = if ls + 2 <= e {
                ls + 2
            } else {
                e
            };
            LineKind::ListItem { ordered: false, cs: cs as usize }
        } else if is_digit(c) {
            let d1 = scan_digits(s, ls);
            if ls < d1 && d1 - ls <= 9 && d1 < e && (s[d1] == '.' || s[d1] == ')') && (d1 + 1 == e
                || s[d1 + 1] == ' ') {
                let cs = if d1 + 2 <= e {
                    d1 + 2
                } else {
                    e
                };
                LineKind::ListItem { ordered: true, cs: cs as usize }
            } else {
                LineKind::Plain
            }
        } else {
            LineKind::Plain
        }
    }
}

/// The end of the line at `p`, kept inside `[p, s.len()]`.
pub open spec fn line_end_c(s: Seq<char>, p: int) -> int {
    let e = line_end(s, p);
    if e < p {
        p
    } else if e > s.len() {
        s.len() as int
    } else {
        e
    }
}

/// The start of the line after the one that ends at `e`.
pub open spec fn next_line(s: Seq<char>, e: int) -> int {
    if e < s.len() {
        e + 1
    } else {
        s.len() as int
    }
}

/// The inline events of one line's content `[cs, e)`, trimmed.
pub open spec fn line_inline(s: Seq<char>, cs: int, e: int) -> Seq<MdEvent> {
    let a0 = first_non_ws(s, cs, e);
    let a = if a0 < cs {
        cs
    } else {
        a0
    };
    let t0 = trim_end_pos(s, a, e);
    let t = if t0 < a {
        a
    } else if t0 > e {
        e
    } else {
        t0
    };
    inline_ev(s, a, t)
}

/// Whether the line ending at `e` asks for a hard break.
pub open spec fn hard_break_at(s: Seq<char>, p: int, e: int) -> bool {
    p + 2 <= e && e <= s.len() && s[e - 1] == ' ' && s[e - 2] == ' '
}

/// The paragraph that starts at `p`: events of its lines joined by
/// breaks, and the start of what follows.
pub open spec fn para_scan(s: Seq<char>, p: int) -> (Seq<MdEvent>, int)
    decreases s.len() - p,
{
    let e = line_end_c(s, p);
    let line = line_inline(s, p, e);
    let nxt = next_line(s, e);
    if p < nxt <= s.len() && nxt < s.len() && classify(s, nxt, line_end_c(s, nxt))
        == LineKind::Plain {
        let sep: MdEvent = if hard_break_at(s, p, e) {
            MdEvent::HardBreak
        } else {
            MdEvent::SoftBreak
        };
        let rest = para_scan(s, nxt);
        (line + seq![sep] + rest.0, rest.1)
    } else {
        (line, nxt)
    }
}

/// The block quote that starts at `p`: events of its lines joined by
/// soft breaks, and the start of what follows.
pub open spec fn quote_scan(s: Seq<char>, p: int) -> (Seq<MdEvent>, int)
    decreases s.len() - p,
{
    let e = line_end_c(s, p);
    let line = match classify(s, p, e) {
        LineKind::Quote { cs } => line_inline(s, cs as int, e),
        _ => Seq::empty(),
    };
    let nxt = next_line(s, e);
    if p < nxt <= s.len() && nxt < s.len() && (classify(s, nxt, line_end_c(s, nxt)) matches
        LineKind::Quote { .. }) {
        let rest = quote_scan(s, nxt);
        (line + seq![MdEvent::SoftBreak] + rest.0, rest.1)
    } else {
        (line, nxt)
    }
}

/// The list that starts at `p`: an item per line, and the start of what
/// follows.
pub open spec fn list_scan(s: Seq<char>, p: int) -> (Seq<MdEvent>, int)
    decreases s.len() - p,
{
    let e = line_end_c(s, p);
    let item = match classify(s, p, e) {
        LineKind::ListItem { cs, .. } => seq![MdEvent::ItemStart] + line_inline(s, cs as int, e)
            + seq![MdEvent::ItemEnd],
        _ => Seq::empty(),
    };
    let nxt = next_line(s, e);
    if p < nxt <= s.len() && nxt < s.len() && (classify(s, nxt, line_end_c(s, nxt)) matches
        LineKind::ListItem { .. }) {
        let rest = list_scan(s, nxt);
        (item + rest.0, rest.1)
    } else {
        (item, nxt)
    }
}

/// The line start of the fence that closes a block opened before `p`,
/// or the end of the text.
pub open spec fn fence_close(s: Seq<char>, p: int) -> int
    decreases s.len() - p,
{
    if p < 0 || p >= s.len() {
        s.len() as int
    } else {
        let e = line_end_c(s, p);
        if classify(s, p, e) == LineKind::Fence {
            p
        } else {
            let nxt = next_line(s, e);
            if nxt <= p {
                s.len() as int
            } else {
                fence_close(s, nxt)
            }
        }
    }
}

/// The fenced code block whose opening fence is the line at `p`: its
/// events, and the start of what follows.
pub open spec fn fence_block(s: Seq<char>, p: int) -> (Seq<MdEvent>, int) {
    let e = line_end_c(s, p);
    let cs = next_line(s, e);
    let close0 = fence_close(s, cs);
    let close = if close0 < cs {
        cs
    } else if close0 > s.len() {
        s.len() as int
    } else {
        close0
    };
    let ce = if close < s.len() && close - 1 >= cs {
        close - 1
    } else if close < s.len() {
        cs
    } else {
        s.len() as int
    };
    let body: Seq<MdEvent> = if ce > cs {
        seq![text_ev(cs, ce)]
    } else {
        Seq::empty()
    };
    let nxt = if close < s.len() {
        next_line(s, line_end_c(s, close))
    } else {
        s.len() as int
    };
    (seq![MdEvent::CodeStart] + body + seq![MdEvent::CodeEnd], nxt)
}

/// The block events of the text from `p` on.
pub open spec fn md_blocks(s: Seq<char>, p: int) -> Seq<MdEvent>
    decreases s.len() - p,
{
    if p < 0 || p >= s.len() {
        Seq::empty()
    } else {
        let e = line_end_c(s, p);
        let nxt = next_line(s, e);
        match classify(s, p, e) {
            LineKind::Blank => md_blocks(s, nxt),
            LineKind::Fence => {
                let fb = fence_block(s, p);
                let n2 = if fb.1 <= p {
                    p + 1
                } else if fb.1 > s.len() {
                    s.len() as int
                } else {
                    fb.1
                };
                fb.0 + md_blocks(s, n2)
            },
            LineKind::Rule => seq![MdEvent::Rule] + md_blocks(s, nxt),
            LineKind::Heading { cs } => seq![MdEvent::HeadingStart] + line_inline(s, cs as int, e)
                + seq![MdEvent::HeadingEnd] + md_blocks(s, nxt),
            LineKind::Quote { .. } => {
                let q = quote_scan(s, p);
                let n2 = if q.1 <= p {
                    p + 1
                } else if q.1 > s.len() {
                    s.len() as int
                } else {
                    q.1
                };
                seq![MdEvent::QuoteStart] + q.0 + seq![MdEvent::QuoteEnd] + md_blocks(s, n2)
            },
            LineKind::ListItem { ordered, .. } => {
                let l = list_scan(s, p);
                let n2 = if l.1 <= p {
                    p + 1
                } else if l.1 > s.len() {
                    s.len() as int
                } else {
                    l.1
                };
                seq![MdEvent::ListStart { ordered }] + l.0 + seq![MdEvent::ListEnd] + md_blocks(
                    s,
                    n2,
                )
            },
            LineKind::Plain => {
                let pa = para_scan(s, p);
                let n2 = if pa.1 <= p {
                    p + 1
                } else if pa.1 > s.len() {
                    s.len() as int
                } else {
                    pa.1
                };
                seq![MdEvent::ParaStart] + pa.0 + seq![MdEvent::ParaEnd] + md_blocks(s, n2)
            },
        }
    }
}

/// The full event stream of a Markdown text.
pub open spec fn md_events(s: Seq<char>) -> Seq<MdEvent> {
    md_blocks(s, 0)
}

} // verus!

verus! {

/// Executable twin of `line_end`.
pub fn line_end_exec(s: &Vec<char>, p: usize) -> (r: usize)
    requires
        p <= s@.len(),
    ensures
        r as int == line_end(s@, p as int),
        r as int == line_end_c(s@, p as int),
        p <= r <= s@.len(),
{
    let n = s.len();
    let mut cur = p;
    while cur < n && s[cur] != '\n'
        invariant
            p <= cur <= n,
            n == s@.len(),
            line_end(s@, p as int) == line_end(s@, cur as int),
        decreases n - cur,
    {
        cur = cur + 1;
    }
    cur
}

/// Executable twin of `first_non_ws`.
pub fn first_non_ws_exec(s: &Vec<char>, p: usize, e: usize) -> (r: usize)
    requires
        p <= e <= s@.len(),
    ensures
        r as int == first_non_ws(s@, p as int, e as int),
        p <= r <= e,
{
    let mut cur = p;
    while cur < e && crate::text::is_ws_char(s[cur])
        invariant
            p <= cur <= e <= s@.len(),
            first_non_ws(s@, p as int, e as int) == first_non_ws(s@, cur as int, e as int),
        decreases e - cur,
    {
        cur = cur + 1;
    }
    cur
}

/// Executable twin of `trim_end_pos`.
pub fn trim_end_pos_exec(s: &Vec<char>, p: usize, e: usize) -> (r: usize)
    requires
        p <= e <= s@.len(),
    ensures
        r as int == trim_end_pos(s@, p as int, e as int),
        p <= r <= e,
{
    let mut cur = e;
    while cur > p && crate::text::is_ws_char(s[cur - 1])
        invariant
            p <= cur <= e <= s@.len(),
            trim_end_pos(s@, p as int, e as int) == trim_end_pos(s@, p as int, cur as int),
        decreases cur,
    {
        cur = cur - 1;
    }
    cur
}

/// Executable twin of `hr_scan`, from `ls` with no count yet.
fn hr_scan_exec(s: &Vec<char>, ls: usize, e: usize, c: char) -> (r: bool)
    requires
        ls <= e <= s@.len(),
    ensures
        r == hr_scan(s@, ls as int, e as int, c, 0),
{
    let mut cur = ls;
    let mut cnt: usize = 0;
    loop
        invariant
            ls <= cur <= e <= s@.len(),
            cnt <= cur,
            hr_scan(s@, ls as int, e as int, c, 0) == hr_scan(s@, cur as int, e as int, c, cnt as int),
        decreases e - cur,
    {
        if cur >= e {
            return cnt >= 3;
        }
        if s[cur] == c {
            cnt = cnt + 1;
            cur = cur + 1;
        } else if s[cur] == ' ' {
            cur = cur + 1;
        } else {
            return false;
        }
    }
}

/// Executable twin of `hash_run`.
fn hash_run_exec(s: &Vec<char>, i: usize, e: usize) -> (r: usize)
    requires
        i <= e <= s@.len(),
    ensures
        r as int == hash_run(s@, i as int, e as int),
        i + r <= e,
{
    let mut cur = i;
    while cur < e && s[cur] == '#'
        invariant
            i <= cur <= e <= s@.len(),
            hash_run(s@, i as int, e as int) == cur - i + hash_run(s@, cur as int, e as int),
        decreases e - cur,
    {
        cur = cur + 1;
    }
    cur - i
}

/// Executable twin of `classify`.
fn classify_exec(s: &Vec<char>, p: usize, e: usize) -> (k: LineKind)
    requires
        p <= e <= s@.len(),
    ensures
        k == classify(s@, p as int, e as int),
        k matches LineKind::Heading { cs } ==> p <= cs <= e,
        k matches LineKind::Quote { cs } ==> p <= cs <= e,
        k matches LineKind::ListItem { cs, .. } ==> p <= cs <= e,
{
    let ls = first_non_ws_exec(s, p, e);
    if ls >= e {
        return LineKind::Blank;
    }
    let c = s[ls];
    if e - ls >= 3 && c == '`' && s[ls + 1] == '`' && s[ls + 2] == '`' {
        return LineKind::Fence;
    }
    if (c == '-' || c == '*' || c == '_') && hr_scan_exec(s, ls, e, c) {
        return LineKind::Rule;
    }
    if c == '#' {
        let run = hash_run_exec(s, ls, e);
        if 1 <= run && run <= 6 && (ls + run == e || s[ls + run] == ' ') {
            let cs = if e - ls >= run + 1 {
                ls + run + 1
            } else {
                e
            };
            return LineKind::Heading { cs };
        }
        return LineKind::Plain;
    }
    if c == '>' {
        let cs = if e - ls > 1 && s[ls + 1] == ' ' {
            ls + 2
        } else {
            ls + 1
        };
        let cs2 = if cs <= e {
            cs
        } else {
            e
        };
        return LineKind::Quote { cs: cs2 };
    }
    if (c == '-' || c == '*' || c == '+') && (ls + 1 == e || s[ls + 1] == ' ') {
        let cs = if e - ls >= 2 {
            ls + 2
        } else {
            e
        };
        return LineKind::ListItem { ordered: false, cs };
    }
    if crate::text::is_digit_exec(c) {
        let d1 = crate::text::scan_digits_exec(s, ls);
        if ls < d1 && d1 - ls <= 9 && d1 < e && (s[d1] == '.' || s[d1] == ')') && (d1 + 1 == e
            || s[d1 + 1] == ' ') {
            let cs = if e - d1 >= 2 {
                d1 + 2
            } else {
                e
            };
            return LineKind::ListItem { ordered: true, cs };
        }
        return LineKind::Plain;
    }
    LineKind::Plain
}

/// Appends the inline events of one line's content `[cs, e)`, trimmed;
/// executable twin of `line_inline`.
fn x_line_inline(s: &Vec<char>, cs: usize, e: usize, out: &mut Vec<MdEvent>)
    requires
        cs <= e <= s@.len(),
    ensures
        final(out)@ == old(out)@ + line_inline(s@, cs as int, e as int),
{
    let a = first_non_ws_exec(s, cs, e);
    let t = trim_end_pos_exec(s, a, e);
    x_inline(s, a, t, out);
}

} // verus!

verus! {

/// Appends the events of the paragraph at `p`; executable twin of
/// `para_scan`.
fn x_para(s: &Vec<char>, p: usize, out: &mut Vec<MdEvent>) -> (next: usize)
    requires
        p < s@.len(),
    ensures
        final(out)@ == old(out)@ + para_scan(s@, p as int).0,
        next as int == para_scan(s@, p as int).1,
        p < next <= s@.len(),
{
    let n = s.len();
    let mut cur = p;
    loop
        invariant
            p <= cur < n,
            n == s@.len(),
            out@ + para_scan(s@, cur as int).0 == old(out)@ + para_scan(s@, p as int).0,
            para_scan(s@, cur as int).1 == para_scan(s@, p as int).1,
        decreases n - cur,
    {
        let e = line_end_exec(s, cur);
        let ghost before = out@;
        x_line_inline(s, cur, e, out);
        let nxt = if e < n {
            e + 1
        } else {
            n
        };
        if nxt < n {
            let e2 = line_end_exec(s, nxt);
            let k = classify_exec(s, nxt, e2);
            if k == LineKind::Plain {
                let hard = e - cur >= 2 && s[e - 1] == ' ' && s[e - 2] == ' ';
                let sep = if hard {
                    MdEvent::HardBreak
                } else {
                    MdEvent::SoftBreak
                };
                out.push(sep);
                proof {
                    assert(para_scan(s@, cur as int).0 =~= line_inline(s@, cur as int, e as int)
                        + seq![sep] + para_scan(s@, nxt as int).0);
                    assert(out@ =~= before + line_inline(s@, cur as int, e as int) + seq![sep]);
                }
                cur = nxt;
                continue;
            }
        }
        proof {
            assert(para_scan(s@, cur as int).0 =~= line_inline(s@, cur as int, e as int));
            assert(para_scan(s@, cur as int).1 == nxt as int);
        }
        return nxt;
    }
}

/// Appends the events of the block quote at `p`; executable twin of
/// `quote_scan`.
fn x_quote(s: &Vec<char>, p: usize, out: &mut Vec<MdEvent>) -> (next: usize)
    requires
        p < s@.len(),
    ensures
        final(out)@ == old(out)@ + quote_scan(s@, p as int).0,
        next as int == quote_scan(s@, p as int).1,
        p < next <= s@.len(),
{
    let n = s.len();
    let mut cur = p;
    loop
        invariant
            p <= cur < n,
            n == s@.len(),
            out@ + quote_scan(s@, cur as int).0 == old(out)@ + quote_scan(s@, p as int).0,
            quote_scan(s@, cur as int).1 == quote_scan(s@, p as int).1,
        decreases n - cur,
    {
        let e = line_end_exec(s, cur);
        let ghost before = out@;
        let k = classify_exec(s, cur, e);
        let ghost linev: Seq<MdEvent> = match classify(s@, cur as int, e as int) {
            LineKind::Quote { cs } => line_inline(s@, cs as int, e as int),
            _ => Seq::empty(),
        };
        match k {
            LineKind::Quote { cs } => {
                proof {
                    assert(cs <= e);
                }
                x_line_inline(s, cs, e, out);
            },
            _ => {},
        }
        proof {
            assert(out@ =~= before + linev);
        }
        let nxt = if e < n {
            e + 1
        } else {
            n
        };
        if nxt < n {
            let e2 = line_end_exec(s, nxt);
            let k2 = classify_exec(s, nxt, e2);
            if matches!(k2, LineKind::Quote { .. }) {
                out.push(MdEvent::SoftBreak);
                proof {
                    assert(quote_scan(s@, cur as int).0 =~= linev + seq![MdEvent::SoftBreak]
                        + quote_scan(s@, nxt as int).0);
                    assert(out@ =~= before + linev + seq![MdEvent::SoftBreak]);
                }
                cur = nxt;
                continue;
            }
        }
        proof {
            assert(quote_scan(s@, cur as int).0 =~= linev);
            assert(quote_scan(s@, cur as int).1 == nxt as int);
        }
        return nxt;
    }
}

/// Appends the events of the list at `p`; executable twin of
/// `list_scan`.
fn x_list(s: &Vec<char>, p: usize, out: &mut Vec<MdEvent>) -> (next: usize)
    requires
        p < s@.len(),
    ensures
        final(out)@ == old(out)@ + list_scan(s@, p as int).0,
        next as int == list_scan(s@, p as int).1,
        p < next <= s@.len(),
{
    let n = s.len();
    let mut cur = p;
    loop
        invariant
            p <= cur < n,
            n == s@.len(),
            out@ + list_scan(s@, cur as int).0 == old(out)@ + list_scan(s@, p as int).0,
            list_scan(s@, cur as int).1 == list_scan(s@, p as int).1,
        decreases n - cur,
    {
        let e = line_end_exec(s, cur);
        let ghost before = out@;
        let k = classify_exec(s, cur, e);
        let ghost itemv: Seq<MdEvent> = match classify(s@, cur as int, e as int) {
            LineKind::ListItem { cs, .. } => seq![MdEvent::ItemStart] + line_inline(
                s@,
                cs as int,
                e as int,
            ) + seq![MdEvent::ItemEnd],
            _ => Seq::empty(),
        };
        match k {
            LineKind::ListItem { cs, .. } => {
                proof {
                    assert(cs <= e);
                }
                out.push(MdEvent::ItemStart);
                x_line_inline(s, cs, e, out);
                out.push(MdEvent::ItemEnd);
            },
            _ => {},
        }
        proof {
            assert(out@ =~= before + itemv);
        }
        let nxt = if e < n {
            e + 1
        } else {
            n
        };
        if nxt < n {
            let e2 = line_end_exec(s, nxt);
            let k2 = classify_exec(s, nxt, e2);
            if matches!(k2, LineKind::ListItem { .. }) {
                proof {
                    assert(list_scan(s@, cur as int).0 =~= itemv + list_scan(s@, nxt as int).0);
                }
                cur = nxt;
                continue;
            }
        }
        proof {
            assert(list_scan(s@, cur as int).0 =~= itemv);
            assert(list_scan(s@, cur as int).1 == nxt as int);
        }
        return nxt;
    }
}

/// Executable twin of `fence_close`.
fn fence_close_exec(s: &Vec<char>, p: usize) -> (r: usize)
    requires
        p <= s@.len(),
    ensures
        r as int == fence_close(s@, p as int),
        p <= r <= s@.len(),
    decreases s@.len() - p,
{
    let n = s.len();
    if p >= n {
        return n;
    }
    let e = line_end_exec(s, p);
    let k = classify_exec(s, p, e);
    if k == LineKind::Fence {
        return p;
    }
    let nxt = if e < n {
        e + 1
    } else {
        n
    };
    fence_close_exec(s, nxt)
}

/// Appends the events of the fenced code block at `p`; executable twin
/// of `fence_block`.
fn x_fence(s: &Vec<char>, p: usize, out: &mut Vec<MdEvent>) -> (next: usize)
    requires
        p < s@.len(),
    ensures
        final(out)@ == old(out)@ + fence_block(s@, p as int).0,
        next as int == fence_block(s@, p as int).1,
        p < next <= s@.len(),
{
    let n = s.len();
    let e = line_end_exec(s, p);
    let cs = if e < n {
        e + 1
    } else {
        n
    };
    let close = fence_close_exec(s, cs);
    let ce = if close < n && close >= cs + 1 {
        close - 1
    } else if close < n {
        cs
    } else {
        n
    };
    out.push(MdEvent::CodeStart);
    if ce > cs {
        out.push(MdEvent::Text { from: cs, to: ce });
    }
    out.push(MdEvent::CodeEnd);
    let next = if close < n {
        let e3 = line_end_exec(s, close);
        if e3 < n {
            e3 + 1
        } else {
            n
        }
    } else {
        n
    };
    proof {
        assert(out@ =~= old(out)@ + fence_block(s@, p as int).0);
    }
    next
}

/// Reads one block at `cur` and appends its events; one step of
/// `md_blocks`.
#[verifier::rlimit(100)]
fn md_step(s: &Vec<char>, cur: usize, out: &mut Vec<MdEvent>) -> (next: usize)
    requires
        cur < s@.len(),
    ensures
        old(out)@ + md_blocks(s@, cur as int) == final(out)@ + md_blocks(s@, next as int),
        cur < next <= s@.len(),
{
    let n = s.len();
    let ghost before = out@;
    let e = line_end_exec(s, cur);
    let nxt = if e < n {
        e + 1
    } else {
        n
    };
    let k = classify_exec(s, cur, e);
    match k {
        LineKind::Blank => nxt,
        LineKind::Fence => {
            let n2 = x_fence(s, cur, out);
            proof {
                assert(before + md_blocks(s@, cur as int) =~= out@ + md_blocks(s@, n2 as int));
            }
            n2
        },
        LineKind::Rule => {
            out.push(MdEvent::Rule);
            proof {
                assert(before + md_blocks(s@, cur as int) =~= out@ + md_blocks(s@, nxt as int));
            }
            nxt
        },
        LineKind::Heading { cs } => {
            out.push(MdEvent::HeadingStart);
            x_line_inline(s, cs, e, out);
            out.push(MdEvent::HeadingEnd);
            proof {
                assert(out@ =~= before + (seq![MdEvent::HeadingStart] + line_inline(
                    s@,
                    cs as int,
                    e as int,
                ) + seq![MdEvent::HeadingEnd]));
                assert(before + md_blocks(s@, cur as int) =~= out@ + md_blocks(s@, nxt as int));
            }
            nxt
        },
        LineKind::Quote { .. } => {
            out.push(MdEvent::QuoteStart);
            let n2 = x_quote(s, cur, out);
            out.push(MdEvent::QuoteEnd);
            proof {
                assert(out@ =~= before + (seq![MdEvent::QuoteStart] + quote_scan(s@, cur as int).0
                    + seq![MdEvent::QuoteEnd]));
                assert(before + md_blocks(s@, cur as int) =~= out@ + md_blocks(s@, n2 as int));
            }
            n2
        },
        LineKind::ListItem { ordered, .. } => {
            out.push(MdEvent::ListStart { ordered });
            let n2 = x_list(s, cur, out);
            out.push(MdEvent::ListEnd);
            proof {
                assert(out@ =~= before + (seq![MdEvent::ListStart { ordered }] + list_scan(
                    s@,
                    cur as int,
                ).0 + seq![MdEvent::ListEnd]));
                assert(before + md_blocks(s@, cur as int) =~= out@ + md_blocks(s@, n2 as int));
            }
            n2
        },
        LineKind::Plain => {
            out.push(MdEvent::ParaStart);
            let n2 = x_para(s, cur, out);
            out.push(MdEvent::ParaEnd);
            proof {
                assert(out@ =~= before + (seq![MdEvent::ParaStart] + para_scan(s@, cur as int).0
                    + seq![MdEvent::ParaEnd]));
                assert(before + md_blocks(s@, cur as int) =~= out@ + md_blocks(s@, n2 as int));
            }
            n2
        },
    }
}

/// The full event stream of a Markdown text, as a vector; executable
/// twin of `md_events`.
pub fn parse_markdown_chars(s: &Vec<char>) -> (r: Vec<MdEvent>)
    ensures
        r@ == md_blocks(s@, 0),
{
    let n = s.len();
    let mut out: Vec<MdEvent> = Vec::new();
    let mut cur: usize = 0;
    while cur < n
        invariant
            cur <= n,
            n == s@.len(),
            out@ + md_blocks(s@, cur as int) == md_blocks(s@, 0),
        decreases n - cur,
    {
        cur = md_step(s, cur, &mut out);
    }
    proof {
        assert(out@ =~= md_blocks(s@, 0));
    }
    out
}

/// The full event stream of a Markdown string.
pub fn parse_markdown(md: &str) -> (r: Vec<MdEvent>)
    ensures
        r@ == md_events(md@),
{
    let cs = crate::text::chars_of(md);
    parse_markdown_chars(&cs)
}

} // verus!

verus! {

/// The characters `s[f .. t)`, or nothing when the range is not inside
/// `s`.
pub open spec fn rng(s: Seq<char>, f: int, t: int) -> Seq<char> {
    if 0 <= f <= t <= s.len() {
        s.subrange(f, t)
    } else {
        Seq::empty()
    }
}

/// Appends `s[f .. t)` to `out`; executable twin of `rng`.
#[verifier::rlimit(50)]
pub fn push_rng(s: &Vec<char>, f: usize, t: usize, out: &mut Vec<char>)
    ensures
        final(out)@ == old(out)@ + rng(s@, f as int, t as int),
{
    if f <= t && t <= s.len() {
        let mut i = f;
        while i < t
            invariant
                f <= i <= t <= s@.len(),
                out@ == old(out)@ + s@.subrange(f as int, i as int),
            decreases t - i,
        {
            out.push(s[i]);
            proof {
                assert(s@.subrange(f as int, i + 1) =~= s@.subrange(f as int, i as int).push(
                    s@[i as int],
                ));
                assert(old(out)@ + s@.subrange(f as int, i + 1) =~= (old(out)@ + s@.subrange(
                    f as int,
                    i as int,
                )).push(s@[i as int]));
            }
            i = i + 1;
        }
    } else {
        proof {
            assert(out@ =~= old(out)@ + rng(s@, f as int, t as int));
        }
    }
}

} // verus!
