//! Small text utilities shared by the codecs and formatters.

use vstd::prelude::*;

verus! {

use vstd::std_specs::iter::IteratorSpec;

broadcast use vstd::string::group_string_axioms;

/// Relies on String::push: appends the given character to the string.
#[verifier::external_body]
pub fn push_char(s: &mut String, c: char)
    ensures
        final(s)@ == old(s)@ + seq![c],
{
    s.push(c);
}

/// The characters of a string, as a vector.
pub fn str_chars(s: &str) -> (v: Vec<char>)
    ensures
        v@ == s@,
{
    let mut v: Vec<char> = Vec::new();
    let mut it = s.chars();
    loop
        invariant
            it.obeys_prophetic_iter_laws(),
            it.decrease() is Some,
            v@ + it.remaining() == s@,
        ensures
            v@ == s@,
        decreases it.decrease().unwrap(),
    {
        match it.next() {
            Some(c) => {
                v.push(c);
            },
            None => {
                proof {
                    assert(it.remaining().len() == 0);
                    assert(v@ =~= s@);
                }
                break ;
            },
        }
    }
    v
}

/// The decimal digit character of a value below ten.
pub open spec fn spec_digit(d: int) -> char {
    seq!['0', '1', '2', '3', '4', '5', '6', '7', '8', '9'][d]
}

/// The decimal text of a number: its digits, most significant first.
pub open spec fn dec_str(n: nat) -> Seq<char>
    decreases n,
{
    if n < 10 {
        seq![spec_digit(n as int)]
    } else {
        dec_str(n / 10) + seq![spec_digit((n % 10) as int)]
    }
}

fn digit_char(d: u64) -> (c: char)
    requires
        d < 10,
    ensures
        c == spec_digit(d as int),
{
    match d {
        0 => '0',
        1 => '1',
        2 => '2',
        3 => '3',
        4 => '4',
        5 => '5',
        6 => '6',
        7 => '7',
        8 => '8',
        _ => '9',
    }
}

/// The decimal text of a number.
pub fn u64_to_string(n: u64) -> (r: String)
    ensures
        r@ == dec_str(n as nat),
    decreases n,
{
    if n < 10 {
        let mut r = String::new();
        push_char(&mut r, digit_char(n));
        proof {
            assert(r@ =~= seq![spec_digit(n as int)]);
        }
        r
    } else {
        let mut r = u64_to_string(n / 10);
        push_char(&mut r, digit_char(n % 10));
        proof {
            assert(r@ =~= dec_str((n / 10) as nat) + seq![spec_digit((n % 10) as int)]);
        }
        r
    }
}

/// The two strings joined.
pub fn concat_str(a: &str, b: &str) -> (r: String)
    ensures
        r@ == a@ + b@,
{
    let mut r = a.to_owned();
    r.append(b);
    r
}

/// Whether two string slices hold the same characters.
pub fn str_eq(a: &str, b: &str) -> (r: bool)
    ensures
        r == (a@ == b@),
{
    let ao = a.to_owned();
    let bo = b.to_owned();
    ao == bo
}

/// Whether the list holds a string with exactly these characters.
pub fn contains_str(v: &Vec<String>, s: &str) -> (r: bool)
    ensures
        r == v@.map_values(|x: String| x@).contains(s@),
{
    let ghost model = v@.map_values(|x: String| x@);
    let mut i: usize = 0;
    while i < v.len()
        invariant
            0 <= i <= v@.len(),
            model == v@.map_values(|x: String| x@),
            forall|k: int| 0 <= k < i ==> model[k] != s@,
        decreases v@.len() - i,
    {
        if str_eq(v[i].as_str(), s) {
            proof {
                assert(model[i as int] == s@);
            }
            return true;
        }
        i += 1;
    }
    proof {
        assert forall|k: int| 0 <= k < model.len() implies model[k] != s@ by {}
    }
    false
}

/// One character lowered: ASCII letters move to lower case, everything
/// else stays.
pub open spec fn lower_char(c: char) -> char {
    if 65 <= c as u32 && c as u32 <= 90 {
        (c as u32 + 32) as char
    } else {
        c
    }
}

/// A character sequence lowered, character by character.
pub open spec fn lowered(s: Seq<char>) -> Seq<char> {
    s.map_values(|c: char| lower_char(c))
}

/// The characters of a string, lowered.
pub fn lower_chars(s: &str) -> (v: Vec<char>)
    ensures
        v@ == lowered(s@),
{
    let cs = str_chars(s);
    let mut v: Vec<char> = Vec::new();
    let mut i: usize = 0;
    proof {
        assert(v@ =~= lowered(cs@.subrange(0, 0int)));
    }
    while i < cs.len()
        invariant
            0 <= i <= cs@.len(),
            cs@ == s@,
            v@ == lowered(cs@.subrange(0, i as int)),
        decreases cs@.len() - i,
    {
        let c = cs[i];
        let u = c as u32;
        let lc: char = if 65 <= u && u <= 90 {
            ((u + 32) as u8) as char
        } else {
            c
        };
        proof {
            vstd::utf8::char_is_scalar(c);
            assert(lc == lower_char(c));
        }
        v.push(lc);
        proof {
            assert(v@ =~= lowered(cs@.subrange(0, i as int + 1))) by {
                assert(cs@.subrange(0, i as int).push(cs@[i as int]) =~= cs@.subrange(
                    0,
                    i as int + 1,
                ));
                assert(lowered(cs@.subrange(0, i as int)).push(lower_char(cs@[i as int])) =~= lowered(
                    cs@.subrange(0, i as int + 1),
                ));
            }
        }
        i += 1;
    }
    proof {
        assert(cs@.subrange(0, cs@.len() as int) =~= cs@);
    }
    v
}

/// Whether `s` ends with `suffix`.
pub open spec fn spec_ends_with(s: Seq<char>, suffix: Seq<char>) -> bool {
    s.len() >= suffix.len() && s.subrange(s.len() - suffix.len(), s.len() as int) == suffix
}

/// Whether the characters end with this suffix.
pub fn chars_end_with(v: &Vec<char>, suffix: &str) -> (r: bool)
    ensures
        r == spec_ends_with(v@, suffix@),
{
    let sc = str_chars(suffix);
    if v.len() < sc.len() {
        return false;
    }
    let base = v.len() - sc.len();
    let mut j: usize = 0;
    while j < sc.len()
        invariant
            0 <= j <= sc@.len(),
            sc@ == suffix@,
            base == v@.len() - sc@.len(),
            v@.len() >= sc@.len(),
            v@.len() <= usize::MAX,
            forall|k: int| 0 <= k < j ==> v@[base + k] == sc@[k],
        decreases sc@.len() - j,
    {
        if v[base + j] != sc[j] {
            proof {
                assert(v@.subrange(base as int, v@.len() as int)[j as int] != suffix@[j as int]);
            }
            return false;
        }
        j += 1;
    }
    proof {
        assert(v@.subrange(base as int, v@.len() as int) =~= suffix@);
    }
    true
}

/// Whether `n` occurs in `h` as a contiguous run.
pub open spec fn spec_contains_seq(h: Seq<char>, n: Seq<char>) -> bool {
    exists|i: int| 0 <= i <= h.len() - n.len() && #[trigger] h.subrange(i, i + n.len()) == n
}

/// Whether the characters contain this needle as a contiguous run.
pub fn chars_contain(v: &Vec<char>, needle: &str) -> (r: bool)
    ensures
        r == spec_contains_seq(v@, needle@),
{
    let nc = str_chars(needle);
    if v.len() < nc.len() {
        proof {
            assert(!spec_contains_seq(v@, needle@));
        }
        return false;
    }
    if nc.len() == 0 {
        proof {
            assert(v@.subrange(0int, 0int + needle@.len()) =~= needle@);
            assert(spec_contains_seq(v@, needle@));
        }
        return true;
    }
    let last_start = v.len() - nc.len();
    let mut i: usize = 0;
    while i <= last_start
        invariant
            0 <= i <= last_start + 1,
            nc@ == needle@,
            nc@.len() >= 1,
            last_start == v@.len() - nc@.len(),
            v@.len() >= nc@.len(),
            v@.len() <= usize::MAX,
            forall|s: int| 0 <= s < i ==> #[trigger] v@.subrange(s, s + nc@.len()) != needle@,
        decreases last_start + 1 - i,
    {
        let mut j: usize = 0;
        let mut matched = true;
        while j < nc.len() && matched
            invariant
                0 <= j <= nc@.len(),
                nc@ == needle@,
                i + nc@.len() <= v@.len(),
                v@.len() <= usize::MAX,
                matched ==> forall|k: int| 0 <= k < j ==> v@[i + k] == nc@[k],
                !matched ==> v@.subrange(i as int, i + nc@.len()) != needle@,
            decreases nc@.len() - j, (if matched { 1int } else { 0int }),
        {
            if v[i + j] != nc[j] {
                proof {
                    assert(v@.subrange(i as int, i + nc@.len())[j as int] != needle@[j as int]);
                }
                matched = false;
            } else {
                j += 1;
            }
        }
        if matched {
            proof {
                assert(v@.subrange(i as int, i + nc@.len()) =~= needle@);
            }
            return true;
        }
        i += 1;
    }
    proof {
        assert forall|s: int| 0 <= s <= v@.len() - needle@.len() implies #[trigger] v@.subrange(
            s,
            s + needle@.len(),
        ) != needle@ by {
            assert(v@.subrange(s, s + nc@.len()) != needle@);
        }
        assert(!spec_contains_seq(v@, needle@));
    }
    false
}

/// The sequence with every leading `c` removed.
pub open spec fn spec_trim_lead(s: Seq<char>, c: char) -> Seq<char>
    decreases s.len(),
{
    if s.len() > 0 && s[0] == c {
        spec_trim_lead(s.skip(1), c)
    } else {
        s
    }
}

/// The sequence with every trailing `c` removed.
pub open spec fn spec_trim_trail(s: Seq<char>, c: char) -> Seq<char>
    decreases s.len(),
{
    if s.len() > 0 && s[s.len() - 1] == c {
        spec_trim_trail(s.drop_last(), c)
    } else {
        s
    }
}

/// The sequence with every leading and trailing `c` removed.
pub open spec fn spec_trim_char(s: Seq<char>, c: char) -> Seq<char> {
    spec_trim_trail(spec_trim_lead(s, c), c)
}

proof fn lemma_trim_lead_at(s: Seq<char>, c: char, lo: int)
    requires
        0 <= lo <= s.len(),
        forall|k: int| 0 <= k < lo ==> s[k] == c,
        lo < s.len() ==> s[lo] != c,
    ensures
        spec_trim_lead(s, c) == s.skip(lo),
    decreases lo,
{
    if lo == 0 {
        assert(s.skip(0int) =~= s);
    } else {
        assert(s[0] == c);
        assert(s.skip(1).skip(lo - 1) =~= s.skip(lo));
        lemma_trim_lead_at(s.skip(1), c, lo - 1);
    }
}

proof fn lemma_trim_trail_at(s: Seq<char>, c: char, hi: int)
    requires
        0 <= hi <= s.len(),
        forall|k: int| hi <= k < s.len() ==> s[k] == c,
        hi > 0 ==> s[hi - 1] != c,
    ensures
        spec_trim_trail(s, c) == s.take(hi),
    decreases s.len() - hi,
{
    if hi == s.len() {
        assert(s.take(hi) =~= s);
    } else {
        assert(s[s.len() - 1] == c);
        assert(s.drop_last().take(hi) =~= s.take(hi));
        lemma_trim_trail_at(s.drop_last(), c, hi);
    }
}

/// The characters with every leading and trailing `c` removed.
pub fn trim_char(v: &Vec<char>, c: char) -> (r: Vec<char>)
    ensures
        r@ == spec_trim_char(v@, c),
{
    let mut lo: usize = 0;
    while lo < v.len() && v[lo] == c
        invariant
            0 <= lo <= v@.len(),
            forall|k: int| 0 <= k < lo ==> v@[k] == c,
        decreases v@.len() - lo,
    {
        lo += 1;
    }
    proof {
        lemma_trim_lead_at(v@, c, lo as int);
    }
    let ghost u = v@.skip(lo as int);
    let mut hi: usize = v.len();
    while hi > lo && v[hi - 1] == c
        invariant
            lo <= hi <= v@.len(),
            forall|k: int| hi <= k < v@.len() ==> v@[k] == c,
        decreases hi,
    {
        hi -= 1;
    }
    proof {
        assert forall|k: int| hi - lo <= k < u.len() implies u[k] == c by {
            assert(u[k] == v@[k + lo]);
        }
        if hi > lo {
            assert(u[hi - lo - 1] == v@[hi as int - 1]);
        }
        lemma_trim_trail_at(u, c, hi - lo);
    }
    let mut r: Vec<char> = Vec::new();
    let mut k: usize = lo;
    proof {
        assert(r@ =~= u.take(0int));
    }
    while k < hi
        invariant
            lo <= k <= hi <= v@.len(),
            u == v@.skip(lo as int),
            r@ == u.take(k - lo),
        decreases hi - k,
    {
        r.push(v[k]);
        proof {
            assert(u.take(k - lo).push(u[k - lo]) =~= u.take(k - lo + 1));
            assert(u[k - lo] == v@[k as int]);
        }
        k += 1;
    }
    r
}

/// The decimal text of a signed number.
pub fn i64_to_string(n: i64) -> (r: String)
    ensures
        n >= 0 ==> r@ == dec_str(n as nat),
        n < 0 ==> r@ == seq!['-'] + dec_str((-(n as int)) as nat),
{
    if n >= 0 {
        u64_to_string(n as u64)
    } else {
        let mag: u64 = if n == i64::MIN {
            9223372036854775808u64
        } else {
            (-n) as u64
        };
        let mut r = String::new();
        push_char(&mut r, '-');
        let digits = u64_to_string(mag);
        r.append(digits.as_str());
        proof {
            assert(r@ =~= seq!['-'] + dec_str(mag as nat));
        }
        r
    }
}

/// A string holding exactly the given characters.
pub fn chars_to_string(v: &Vec<char>) -> (s: String)
    ensures
        s@ == v@,
{
    let mut s = String::new();
    for i in 0..v.len()
        invariant
            s@ == v@.subrange(0, i as int),
    {
        push_char(&mut s, v[i]);
        assert(s@ =~= v@.subrange(0, i as int + 1));
    }
    assert(s@ =~= v@);
    s
}

} // verus!
