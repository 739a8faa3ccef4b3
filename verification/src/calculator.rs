//! The calculator tool: normalizes an arithmetic expression and hands it
//! to the expression evaluator.

use vstd::prelude::*;

verus! {

use crate::jsoncodec::{spec_is_ws, skip_ws, spec_string_field, json_string_field, is_ws};
use crate::text::{push_char, str_chars};
use crate::tools::{ToolCallRequest, ToolCallResult};

/// What the expression evaluator returns for an expression: the printed
/// value, or the printed parse or evaluation error.
pub uninterp spec fn eval_result(s: Seq<char>) -> Result<Seq<char>, Seq<char>>;

/// Relies on meval::eval_str: evaluates an arithmetic expression; the
/// result is a function of the expression text alone.
#[verifier::external_body]
fn eval_expression(expr: &str) -> (r: Result<String, String>)
    ensures
        r is Ok <==> eval_result(expr@) is Ok,
        r is Ok ==> r.unwrap()@ == eval_result(expr@)->Ok_0,
        r is Err ==> r->Err_0@ == eval_result(expr@)->Err_0,
{
    match meval::eval_str(expr) {
        Ok(v) => Ok(format!("{}", v)),
        Err(e) => Err(format!("{}", e)),
    }
}

/// The text with trailing whitespace removed.
pub open spec fn trim_end(s: Seq<char>) -> Seq<char>
    decreases s.len(),
{
    if s.len() > 0 && spec_is_ws(s[s.len() - 1]) {
        trim_end(s.drop_last())
    } else {
        s
    }
}

/// The text with whitespace removed at both ends.
pub open spec fn spec_trimmed(s: Seq<char>) -> Seq<char> {
    trim_end(skip_ws(s))
}

/// How one character of an expression is normalized for the evaluator:
/// the multiplication and division signs become their operator characters
/// and a caret becomes the power-function suffix.
pub open spec fn normalized_char(c: char) -> Seq<char> {
    if c == '\u{d7}' {
        seq!['*']
    } else if c == '\u{f7}' {
        seq!['/']
    } else if c == '^' {
        ".powf"@
    } else {
        seq![c]
    }
}

/// A whole expression normalized for the evaluator.
pub open spec fn normalized(s: Seq<char>) -> Seq<char>
    decreases s.len(),
{
    if s.len() == 0 {
        seq![]
    } else {
        normalized_char(s[0]) + normalized(s.skip(1))
    }
}

proof fn lemma_normalized_snoc(s: Seq<char>, c: char)
    ensures
        normalized(s.push(c)) == normalized(s) + normalized_char(c),
    decreases s.len(),
{
    if s.len() == 0 {
        let p = s.push(c);
        assert(p[0] == c);
        assert(p.skip(1) =~= Seq::<char>::empty());
        assert(normalized(p.skip(1)) =~= Seq::<char>::empty());
        assert(normalized_char(c) + normalized(p.skip(1)) =~= normalized_char(c));
        assert(normalized(s) + normalized_char(c) =~= normalized_char(c));
    } else {
        assert(s.push(c)[0] == s[0]);
        assert(s.push(c).skip(1) =~= s.skip(1).push(c));
        lemma_normalized_snoc(s.skip(1), c);
        assert(normalized_char(s[0]) + (normalized(s.skip(1)) + normalized_char(c)) =~= (
        normalized_char(s[0]) + normalized(s.skip(1))) + normalized_char(c));
    }
}

pub proof fn lemma_trim_end_at(u: Seq<char>, j: int)
    requires
        0 <= j <= u.len(),
        forall|k: int| j <= k < u.len() ==> spec_is_ws(#[trigger] u[k]),
        j > 0 ==> !spec_is_ws(u[j - 1]),
    ensures
        trim_end(u) == u.take(j),
    decreases u.len() - j,
{
    if u.len() == j {
        assert(u.take(j) =~= u);
        if u.len() > 0 {
            assert(!spec_is_ws(u[u.len() - 1]));
        }
    } else {
        assert(spec_is_ws(u[u.len() - 1]));
        lemma_trim_end_at(u.drop_last(), j);
        assert(u.drop_last().take(j) =~= u.take(j));
    }
}

/// The expression trimmed and normalized for the evaluator.
pub fn normalize_expression(expression: &str) -> (r: String)
    ensures
        r@ == normalized(spec_trimmed(expression@)),
{
    let t = str_chars(expression);
    // find the trimmed region
    let mut lo: usize = 0;
    proof {
        assert(t@.skip(0int) =~= t@);
    }
    while lo < t.len() && is_ws(t[lo])
        invariant
            0 <= lo <= t@.len(),
            skip_ws(t@) == skip_ws(t@.skip(lo as int)),
        decreases t@.len() - lo,
    {
        proof {
            assert(t@.skip(lo as int)[0] == t@[lo as int]);
            assert(t@.skip(lo as int).skip(1) =~= t@.skip(lo as int + 1));
        }
        lo += 1;
    }
    proof {
        if lo < t.len() {
            assert(t@.skip(lo as int)[0] == t@[lo as int]);
        }
        assert(skip_ws(t@) == t@.skip(lo as int));
    }
    let ghost u = t@.skip(lo as int);
    let mut hi: usize = t.len();
    while hi > lo && is_ws(t[hi - 1])
        invariant
            lo <= hi <= t@.len(),
            forall|k: int| hi <= k < t@.len() ==> spec_is_ws(#[trigger] t@[k]),
        decreases hi,
    {
        hi -= 1;
    }
    proof {
        assert forall|k: int| hi - lo <= k < u.len() implies spec_is_ws(#[trigger] u[k]) by {
            assert(u[k] == t@[k + lo]);
        }
        if hi > lo {
            assert(u[hi - lo - 1] == t@[hi as int - 1]);
        }
        lemma_trim_end_at(u, hi - lo);
        assert(spec_trimmed(expression@) == u.take(hi - lo));
    }
    // normalize the region
    let ghost w = u.take(hi - lo);
    let mut out = String::new();
    let mut k: usize = lo;
    proof {
        assert(w.take(0int) =~= Seq::<char>::empty());
        assert(normalized(w.take(0int)) =~= Seq::<char>::empty());
    }
    while k < hi
        invariant
            lo <= k <= hi <= t@.len(),
            w == t@.skip(lo as int).take(hi - lo),
            out@ == normalized(w.take(k - lo)),
        decreases hi - k,
    {
        let c = t[k];
        proof {
            assert(w[k - lo] == t@[k as int]);
        }
        let ghost before = out@;
        if c == '\u{d7}' {
            push_char(&mut out, '*');
        } else if c == '\u{f7}' {
            push_char(&mut out, '/');
        } else if c == '^' {
            out.append(".powf");
        } else {
            push_char(&mut out, c);
        }
        proof {
            assert(out@ =~= before + normalized_char(c));
            assert(w.take(k - lo).push(w[k - lo]) =~= w.take(k - lo + 1));
            lemma_normalized_snoc(w.take(k - lo), c);
        }
        k += 1;
    }
    proof {
        assert(w.take(hi - lo) =~= w);
    }
    out
}

/// Evaluates the `expression` argument of a calculator tool call.
///
/// The argument text must be a flat JSON object with an `expression`
/// string field; without one the call fails with a missing-parameter
/// error. The expression is trimmed and normalized, then handed to the
/// evaluator: its printed value comes back as `expression = value`, its
/// rejection as an evaluation error naming the expression.
pub fn execute(request: &ToolCallRequest) -> (r: ToolCallResult)
    ensures
        r.call_id@ == request.call_id@,
        match spec_string_field(request.arguments@, "expression"@) {
            None => {
                &&& !r.success
                &&& r.error matches Some(e) && e@ == "Missing required parameter: expression"@
            },
            Some(expr) => match eval_result(normalized(spec_trimmed(expr))) {
                Ok(v) => {
                    &&& r.success
                    &&& r.output@ == expr + " = "@ + v
                    &&& r.error is None
                },
                Err(e) => {
                    &&& !r.success
                    &&& r.error matches Some(m) && m@ == "Failed to evaluate expression '"@ + expr
                        + "': "@ + e
                },
            },
        },
{
    let expression = match json_string_field(request.arguments.as_str(), "expression") {
        Some(e) => e,
        None => {
            return ToolCallResult::error(
                request.call_id.clone(),
                "Missing required parameter: expression".to_owned(),
            );
        },
    };
    let cleaned = normalize_expression(expression.as_str());
    match eval_expression(cleaned.as_str()) {
        Ok(value) => {
            let mut output = expression.clone();
            output.append(" = ");
            output.append(value.as_str());
            ToolCallResult::success(request.call_id.clone(), output)
        },
        Err(e) => {
            let mut msg = "Failed to evaluate expression '".to_owned();
            msg.append(expression.as_str());
            msg.append("': ");
            msg.append(e.as_str());
            ToolCallResult::error(request.call_id.clone(), msg)
        },
    }
}

} // verus!
