//! Chat-title generation: the prompt excerpt sent to the model and the
//! cleanup of what comes back.
//!
//! The shell makes the ancillary title request; how the user's message is
//! shortened for it and how the model's reply becomes a title is decided
//! here.

use vstd::prelude::*;

verus! {

use crate::calculator::{lemma_trim_end_at, trim_end};
use crate::jsoncodec::{is_ws, skip_ws, spec_is_ws};
use crate::text::{push_char, spec_trim_char, str_chars, trim_char, chars_to_string};

/// How many characters of the user's message the title request keeps.
pub const TITLE_PROMPT_LIMIT: usize = 300;

/// The longest title kept, in characters.
pub const TITLE_LIMIT: usize = 80;

/// The title used when nothing usable came back.
pub open spec fn spec_fallback_title() -> Seq<char> {
    "New chat"@
}

/// A message shortened for the title request: over the limit it is cut
/// and marked with an ellipsis.
pub open spec fn spec_truncated_prompt(s: Seq<char>) -> Seq<char> {
    if s.len() > TITLE_PROMPT_LIMIT as int {
        s.take(TITLE_PROMPT_LIMIT as int) + "..."@
    } else {
        s
    }
}

/// Shortens the user's message for the title request.
pub fn truncate_prompt(s: &str) -> (r: String)
    ensures
        r@ == spec_truncated_prompt(s@),
{
    let t = str_chars(s);
    if t.len() <= TITLE_PROMPT_LIMIT {
        return s.to_owned();
    }
    let mut out = String::new();
    let mut i: usize = 0;
    proof {
        assert(out@ =~= t@.take(0int));
    }
    while i < TITLE_PROMPT_LIMIT
        invariant
            0 <= i <= TITLE_PROMPT_LIMIT < t@.len(),
            t@ == s@,
            out@ == t@.take(i as int),
        decreases TITLE_PROMPT_LIMIT as int - i,
    {
        push_char(&mut out, t[i]);
        proof {
            assert(t@.take(i as int).push(t@[i as int]) =~= t@.take(i as int + 1));
        }
        i += 1;
    }
    out.append("...");
    out
}

/// The index of the first line feed, or the length when there is none.
pub open spec fn spec_first_nl(s: Seq<char>) -> int
    decreases s.len(),
{
    if s.len() == 0 {
        0
    } else if s[0] == '\n' {
        0
    } else {
        1 + spec_first_nl(s.skip(1))
    }
}

/// The first line of the text: everything before the first line feed,
/// with one trailing carriage return stripped.
pub open spec fn spec_first_line(s: Seq<char>) -> Seq<char> {
    let line = s.take(spec_first_nl(s));
    if line.len() > 0 && line[line.len() - 1] == '\r' {
        line.drop_last()
    } else {
        line
    }
}

/// The whitespace-trimmed text.
pub open spec fn spec_ws_trimmed(s: Seq<char>) -> Seq<char> {
    crate::calculator::trim_end(skip_ws(s))
}

/// What a generated title becomes: trimmed of whitespace and quote marks,
/// cut to its first line and the length limit, with the fallback title
/// standing in for anything empty.
pub open spec fn spec_clean_title(s: Seq<char>) -> Seq<char> {
    let t = spec_trim_char(spec_trim_char(spec_ws_trimmed(s), '"'), '\u{27}');
    if t.len() == 0 {
        spec_fallback_title()
    } else {
        let line = spec_first_line(t);
        let cut = if line.len() > TITLE_LIMIT as int {
            line.take(TITLE_LIMIT as int)
        } else {
            line
        };
        if cut.len() == 0 {
            spec_fallback_title()
        } else {
            cut
        }
    }
}

proof fn lemma_first_nl_bounds(s: Seq<char>)
    ensures
        0 <= spec_first_nl(s) <= s.len(),
        spec_first_nl(s) < s.len() ==> s[spec_first_nl(s)] == '\n',
        forall|k: int| 0 <= k < spec_first_nl(s) ==> s[k] != '\n',
    decreases s.len(),
{
    if s.len() == 0 {
    } else if s[0] == '\n' {
    } else {
        lemma_first_nl_bounds(s.skip(1));
        assert forall|k: int| 0 <= k < spec_first_nl(s) implies s[k] != '\n' by {
            if k > 0 {
                assert(s.skip(1)[k - 1] != '\n');
            }
        }
    }
}

proof fn lemma_first_nl_at(s: Seq<char>, j: int)
    requires
        0 <= j <= s.len(),
        forall|k: int| 0 <= k < j ==> s[k] != '\n',
        j < s.len() ==> s[j] == '\n',
    ensures
        spec_first_nl(s) == j,
    decreases j,
{
    if s.len() == 0 {
    } else if j == 0 {
    } else {
        assert(s[0] != '\n');
        assert forall|k: int| 0 <= k < j - 1 implies s.skip(1)[k] != '\n' by {
            assert(s.skip(1)[k] == s[k + 1]);
        }
        assert(j - 1 < s.skip(1).len() ==> s.skip(1)[j - 1] == '\n');
        lemma_first_nl_at(s.skip(1), j - 1);
    }
}

/// Cleans a generated title: whitespace and quote marks trimmed, the
/// first line kept, cut at the length limit, and the fallback title when
/// nothing usable remains.
pub fn clean_title(generated: &str) -> (r: String)
    ensures
        r@ == spec_clean_title(generated@),
{
    let cs = str_chars(generated);
    // whitespace trim
    let mut lo: usize = 0;
    proof {
        assert(cs@.skip(0int) =~= cs@);
    }
    while lo < cs.len() && is_ws(cs[lo])
        invariant
            0 <= lo <= cs@.len(),
            skip_ws(cs@) == skip_ws(cs@.skip(lo as int)),
        decreases cs@.len() - lo,
    {
        proof {
            assert(cs@.skip(lo as int)[0] == cs@[lo as int]);
            assert(cs@.skip(lo as int).skip(1) =~= cs@.skip(lo as int + 1));
        }
        lo += 1;
    }
    proof {
        if lo < cs.len() {
            assert(cs@.skip(lo as int)[0] == cs@[lo as int]);
        }
        assert(skip_ws(cs@) == cs@.skip(lo as int));
    }
    let ghost u = cs@.skip(lo as int);
    let mut hi: usize = cs.len();
    while hi > lo && is_ws(cs[hi - 1])
        invariant
            lo <= hi <= cs@.len(),
            forall|k: int| hi <= k < cs@.len() ==> spec_is_ws(#[trigger] cs@[k]),
        decreases hi,
    {
        hi -= 1;
    }
    proof {
        assert forall|k: int| hi - lo <= k < u.len() implies spec_is_ws(#[trigger] u[k]) by {
            assert(u[k] == cs@[k + lo]);
        }
        if hi > lo {
            assert(u[hi - lo - 1] == cs@[hi as int - 1]);
        }
        lemma_trim_end_at(u, hi - lo);
        assert(spec_ws_trimmed(generated@) == u.take(hi - lo));
    }
    // copy the trimmed window, then trim the quote marks
    let mut w: Vec<char> = Vec::new();
    let mut k: usize = lo;
    proof {
        assert(w@ =~= u.take(0int));
    }
    while k < hi
        invariant
            lo <= k <= hi <= cs@.len(),
            u == cs@.skip(lo as int),
            w@ == u.take(k - lo),
        decreases hi - k,
    {
        w.push(cs[k]);
        proof {
            assert(u.take(k - lo).push(u[k - lo]) =~= u.take(k - lo + 1));
            assert(u[k - lo] == cs@[k as int]);
        }
        k += 1;
    }
    let w1 = trim_char(&w, '"');
    let w2 = trim_char(&w1, '\u{27}');
    if w2.len() == 0 {
        return "New chat".to_owned();
    }
    // first line
    let mut nl: usize = 0;
    while nl < w2.len() && w2[nl] != '\n'
        invariant
            0 <= nl <= w2@.len(),
            forall|k: int| 0 <= k < nl ==> w2@[k] != '\n',
        decreases w2@.len() - nl,
    {
        nl += 1;
    }
    proof {
        lemma_first_nl_at(w2@, nl as int);
    }
    let mut line_end = nl;
    if nl > 0 && w2[nl - 1] == '\r' {
        line_end = nl - 1;
    }
    proof {
        assert(w2@.take(nl as int).len() == nl as int);
        if nl > 0 {
            assert(w2@.take(nl as int)[nl as int - 1] == w2@[nl as int - 1]);
        }
        if nl > 0 && w2@[nl as int - 1] == '\r' {
            assert(w2@.take(nl as int).drop_last() =~= w2@.take(nl as int - 1));
            assert(spec_first_line(w2@) == w2@.take(line_end as int));
        } else {
            assert(spec_first_line(w2@) == w2@.take(line_end as int));
        }
    }
    // length limit
    let cut_end: usize = if line_end > TITLE_LIMIT {
        TITLE_LIMIT
    } else {
        line_end
    };
    proof {
        if line_end > TITLE_LIMIT {
            assert(w2@.take(line_end as int).take(TITLE_LIMIT as int) =~= w2@.take(
                TITLE_LIMIT as int,
            ));
        }
    }
    if cut_end == 0 {
        return "New chat".to_owned();
    }
    let mut out: Vec<char> = Vec::new();
    let mut i: usize = 0;
    proof {
        assert(out@ =~= w2@.take(0int));
    }
    while i < cut_end
        invariant
            0 <= i <= cut_end <= w2@.len(),
            out@ == w2@.take(i as int),
        decreases cut_end - i,
    {
        out.push(w2[i]);
        proof {
            assert(w2@.take(i as int).push(w2@[i as int]) =~= w2@.take(i as int + 1));
        }
        i += 1;
    }
    chars_to_string(&out)
}

} // verus!
