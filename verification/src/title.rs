//! The title heuristic: when a canonical event has no title but a
//! target format wants one, the first non-blank line of the Markdown
//! body stands in, with leading `#` marks stripped, surrounding
//! whitespace removed, and anything past 100 characters replaced by a
//! trailing ellipsis.

use vstd::prelude::*;

use crate::markdown::{first_non_ws, first_non_ws_exec, line_end_c, line_end_exec, next_line};
use crate::text::{sub_chars, trim_chars, trim_vec};

verus! {

broadcast use vstd::std_specs::vec::group_vec_axioms, vstd::seq::group_seq_axioms;

/// The bounds of the first line with any non-whitespace content, from
/// `p` on.
pub open spec fn first_content_line(s: Seq<char>, p: int) -> Option<(int, int)>
    decreases s.len() - p,
{
    if p < 0 || p >= s.len() {
        None
    } else {
        let e = line_end_c(s, p);
        if first_non_ws(s, p, e) < e {
            Some((p, e))
        } else {
            first_content_line(s, next_line(s, e))
        }
    }
}

/// `t` without its leading `#` marks.
pub open spec fn strip_hashes(t: Seq<char>) -> Seq<char>
    decreases t.len(),
{
    if t.len() > 0 && t[0] == '#' {
        strip_hashes(t.drop_first())
    } else {
        t
    }
}

/// The first non-blank line of `s`, trimmed and with leading `#` marks
/// removed, before any truncation.
pub open spec fn title_core(s: Seq<char>) -> Option<Seq<char>> {
    match first_content_line(s, 0) {
        None => None,
        Some((p, e)) => Some(
            trim_chars(strip_hashes(trim_chars(s.subrange(p, e)))),
        ),
    }
}

/// What the title heuristic yields: the core line, cut to 100
/// characters plus an ellipsis when longer.
pub open spec fn spec_title(s: Seq<char>) -> Option<Seq<char>> {
    match title_core(s) {
        None => None,
        Some(t) => {
            if t.len() > 100 {
                Some(t.take(100) + seq!['.', '.', '.'])
            } else {
                Some(t)
            }
        },
    }
}

/// A long first line is cut to exactly 100 characters followed by an
/// ellipsis of three dots, 103 characters in all.
pub proof fn lemma_title_truncation(s: Seq<char>, t: Seq<char>)
    requires
        title_core(s) == Some(t),
        t.len() > 100,
    ensures
        spec_title(s) == Some(t.take(100) + seq!['.', '.', '.']),
        spec_title(s)->0.len() == 103,
        spec_title(s)->0.take(100) == t.take(100),
{
    assert((t.take(100) + seq!['.', '.', '.']).take(100) =~= t.take(100));
}

/// Derives a human title from a Markdown body; `None` when every line
/// is blank.
pub fn extract_title_from_markdown(markdown: &str) -> (r: Option<String>)
    ensures
        crate::models::view_opt(r) == spec_title(markdown@),
{
    let cs = crate::text::chars_of(markdown);
    let n = cs.len();
    let mut p: usize = 0;
    let mut e: usize = 0;
    let mut found = false;
    while !found && p < n
        invariant
            p <= n,
            n == cs@.len(),
            cs@ == markdown@,
            first_content_line(cs@, 0) == first_content_line(cs@, p as int),
            found ==> p < n && e as int == line_end_c(cs@, p as int) && first_non_ws(
                cs@,
                p as int,
                e as int,
            ) < e,
        decreases n - p, if found { 0int } else { 1int },
    {
        let le = line_end_exec(&cs, p);
        let a = first_non_ws_exec(&cs, p, le);
        if a < le {
            e = le;
            found = true;
        } else {
            p = if le < n {
                le + 1
            } else {
                n
            };
        }
    }
    if !found {
        proof {
            assert(first_content_line(cs@, p as int) is None);
        }
        return None;
    }
    proof {
        assert(first_content_line(cs@, 0) == Some((p as int, e as int)));
    }
    let line = sub_chars(&cs, p, e);
    let t1 = trim_vec(&line);
    let m = t1.len();
    let mut k: usize = 0;
    proof {
        assert(t1@.skip(0) =~= t1@);
    }
    while k < m && t1[k] == '#'
        invariant
            k <= m,
            m == t1@.len(),
            strip_hashes(t1@) == strip_hashes(t1@.skip(k as int)),
        decreases m - k,
    {
        proof {
            assert(t1@.skip(k as int).drop_first() =~= t1@.skip(k + 1));
        }
        k = k + 1;
    }
    proof {
        assert(strip_hashes(t1@.skip(k as int)) == t1@.skip(k as int));
    }
    let t2 = sub_chars(&t1, k, m);
    proof {
        assert(t2@ =~= t1@.skip(k as int));
    }
    let t3 = trim_vec(&t2);
    if t3.len() > 100 {
        let mut out = sub_chars(&t3, 0, 100);
        out.push('.');
        out.push('.');
        out.push('.');
        proof {
            assert(t3@.subrange(0, 100) =~= t3@.take(100));
            assert(out@ =~= t3@.take(100) + seq!['.', '.', '.']);
        }
        Some(crate::text::string_from_chars(&out))
    } else {
        Some(crate::text::string_from_chars(&t3))
    }
}

} // verus!
