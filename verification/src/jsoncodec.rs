//! The JSON text the library reads and writes, as its own verified codec.
//!
//! The persistence layer stores image attachments as a JSON array of
//! strings; tool schemas and requests are framed as JSON text; tool
//! arguments arrive as JSON text. This module holds the character-exact
//! encoding of strings and string arrays, a decoder for them, and the
//! round-trip proof tying the two together.

use vstd::prelude::*;

verus! {

use crate::text::{push_char, str_chars};

/// The lower-case hex digit of a value below sixteen.
pub open spec fn spec_hex_digit(d: int) -> char {
    seq![
        '0',
        '1',
        '2',
        '3',
        '4',
        '5',
        '6',
        '7',
        '8',
        '9',
        'a',
        'b',
        'c',
        'd',
        'e',
        'f',
    ][d]
}

/// The lower-case hex digit of a value below sixteen.
pub fn hex_digit(d: u32) -> (c: char)
    requires
        d < 16,
    ensures
        c == spec_hex_digit(d as int),
{
    match d {
        0 => '0',
        1 => '1',
        2 => '2',
        3 => '3',
        4 => '4',
        5 => '5',
        6 => '6',
        7 => '7',
        8 => '8',
        9 => '9',
        10 => 'a',
        11 => 'b',
        12 => 'c',
        13 => 'd',
        14 => 'e',
        _ => 'f',
    }
}

/// How one character appears inside a JSON string literal: quote,
/// backslash and the named control characters get a two-character escape,
/// other control characters a `\u00..` escape, everything else itself.
pub open spec fn escaped_char(c: char) -> Seq<char> {
    if c == '"' {
        seq!['\\', '"']
    } else if c == '\\' {
        seq!['\\', '\\']
    } else if c == '\n' {
        seq!['\\', 'n']
    } else if c == '\r' {
        seq!['\\', 'r']
    } else if c == '\t' {
        seq!['\\', 't']
    } else if (c as u32) < 0x20 {
        seq!['\\', 'u', '0', '0', spec_hex_digit(c as u32 as int / 16), spec_hex_digit(
            c as u32 as int % 16,
        )]
    } else {
        seq![c]
    }
}

/// A whole character sequence escaped for a JSON string literal.
pub open spec fn escaped(s: Seq<char>) -> Seq<char>
    decreases s.len(),
{
    if s.len() == 0 {
        seq![]
    } else {
        escaped_char(s[0]) + escaped(s.skip(1))
    }
}

/// A JSON string literal: the escaped characters between double quotes.
pub open spec fn quoted(s: Seq<char>) -> Seq<char> {
    seq!['"'] + escaped(s) + seq!['"']
}

/// The elements of a JSON array of string literals, comma-separated.
pub open spec fn elems_json(l: Seq<Seq<char>>) -> Seq<char>
    decreases l.len(),
{
    if l.len() == 0 {
        seq![]
    } else if l.len() == 1 {
        quoted(l[0])
    } else {
        quoted(l[0]) + seq![','] + elems_json(l.skip(1))
    }
}

/// A JSON array of string literals.
pub open spec fn array_json(l: Seq<Seq<char>>) -> Seq<char> {
    seq!['['] + elems_json(l) + seq![']']
}

proof fn lemma_escaped_snoc(s: Seq<char>, c: char)
    ensures
        escaped(s.push(c)) == escaped(s) + escaped_char(c),
    decreases s.len(),
{
    if s.len() == 0 {
        let p = s.push(c);
        assert(p[0] == c);
        assert(p.skip(1) =~= Seq::<char>::empty());
        assert(escaped(p.skip(1)) =~= Seq::<char>::empty());
        assert(escaped(p) == escaped_char(c) + escaped(p.skip(1)));
        assert(escaped_char(c) + escaped(p.skip(1)) =~= escaped_char(c));
        assert(escaped(s) + escaped_char(c) =~= escaped_char(c));
    } else {
        assert(s.push(c)[0] == s[0]);
        assert(s.push(c).skip(1) =~= s.skip(1).push(c));
        lemma_escaped_snoc(s.skip(1), c);
        assert(escaped(s.push(c)) == escaped_char(s[0]) + (escaped(s.skip(1)) + escaped_char(c)));
        assert(escaped_char(s[0]) + (escaped(s.skip(1)) + escaped_char(c)) =~= (escaped_char(s[0])
            + escaped(s.skip(1))) + escaped_char(c));
    }
}

/// Appends the escaped form of `c` to `out`.
fn push_escaped_char(out: &mut String, c: char)
    ensures
        final(out)@ == old(out)@ + escaped_char(c),
{
    if c == '"' {
        out.append("\\\"");
        assert(final(out)@ =~= old(out)@ + escaped_char(c)) by {
            reveal_strlit("\\\"");
        }
    } else if c == '\\' {
        out.append("\\\\");
        assert(final(out)@ =~= old(out)@ + escaped_char(c)) by {
            reveal_strlit("\\\\");
        }
    } else if c == '\n' {
        out.append("\\n");
        assert(final(out)@ =~= old(out)@ + escaped_char(c)) by {
            reveal_strlit("\\n");
        }
    } else if c == '\r' {
        out.append("\\r");
        assert(final(out)@ =~= old(out)@ + escaped_char(c)) by {
            reveal_strlit("\\r");
        }
    } else if c == '\t' {
        out.append("\\t");
        assert(final(out)@ =~= old(out)@ + escaped_char(c)) by {
            reveal_strlit("\\t");
        }
    } else if (c as u32) < 0x20 {
        out.append("\\u00");
        push_char(out, hex_digit((c as u32) / 16));
        push_char(out, hex_digit((c as u32) % 16));
        assert(final(out)@ =~= old(out)@ + escaped_char(c)) by {
            reveal_strlit("\\u00");
        }
    } else {
        push_char(out, c);
        assert(final(out)@ =~= old(out)@ + escaped_char(c));
    }
}

/// Appends the JSON string literal of `s` to `out`.
pub fn append_quoted(out: &mut String, s: &str)
    ensures
        final(out)@ == old(out)@ + quoted(s@),
{
    let cs = str_chars(s);
    push_char(out, '"');
    let ghost base = old(out)@ + seq!['"'];
    for i in 0..cs.len()
        invariant
            out@ == base + escaped(cs@.subrange(0, i as int)),
            cs@ == s@,
            base == old(out)@ + seq!['"'],
    {
        proof {
            assert(escaped(cs@.subrange(0, 0int)) =~= Seq::<char>::empty());
        }
        push_escaped_char(out, cs[i]);
        proof {
            assert(cs@.subrange(0, i as int).push(cs@[i as int]) =~= cs@.subrange(0, i as int + 1));
            lemma_escaped_snoc(cs@.subrange(0, i as int), cs@[i as int]);
            assert(out@ =~= base + escaped(cs@.subrange(0, i as int + 1)));
        }
    }
    push_char(out, '"');
    proof {
        assert(cs@.subrange(0, cs@.len() as int) =~= cs@);
        assert(final(out)@ =~= old(out)@ + quoted(s@));
    }
}

/// The JSON string literal of `s`.
pub fn encode_json_string(s: &str) -> (r: String)
    ensures
        r@ == quoted(s@),
{
    let mut out = String::new();
    append_quoted(&mut out, s);
    proof {
        assert(out@ =~= quoted(s@));
    }
    out
}

/// Encodes a list of image attachments as a JSON array of strings; an
/// empty list encodes as the two-character empty array.
pub fn encode_images(images: &Vec<String>) -> (r: String)
    ensures
        r@ == array_json(images@.map_values(|s: String| s@)),
{
    let ghost model = images@.map_values(|s: String| s@);
    let mut out = String::new();
    push_char(&mut out, '[');
    proof {
        assert(elems_json(model.subrange(0, 0int)) =~= Seq::<char>::empty());
        assert(out@ =~= seq!['['] + elems_json(model.subrange(0, 0int)) + Seq::<char>::empty());
    }
    for i in 0..images.len()
        invariant
            model == images@.map_values(|s: String| s@),
            out@ == seq!['['] + elems_json(model.subrange(0, i as int)) + if 0 < i < images@.len() {
                seq![',']
            } else {
                Seq::<char>::empty()
            },
    {
        append_quoted(&mut out, images[i].as_str());
        if i + 1 < images.len() {
            push_char(&mut out, ',');
        }
        proof {
            lemma_elems_json_snoc(model.subrange(0, i as int), model[i as int]);
            assert(model.subrange(0, i as int).push(model[i as int]) =~= model.subrange(
                0,
                i as int + 1,
            ));
            if i + 1 < images.len() {
                assert(out@ =~= seq!['['] + elems_json(model.subrange(0, i as int + 1))
                    + seq![',']);
            } else {
                assert(out@ =~= seq!['['] + elems_json(model.subrange(0, i as int + 1))
                    + Seq::<char>::empty());
            }
        }
    }
    push_char(&mut out, ']');
    proof {
        assert(model.subrange(0, model.len() as int) =~= model);
        assert(out@ =~= array_json(model));
    }
    out
}

/// The character a two-character escape stands for, if the code is one.
pub open spec fn spec_simple_unescape(c: char) -> Option<char> {
    if c == '"' {
        Some('"')
    } else if c == '\\' {
        Some('\\')
    } else if c == '/' {
        Some('/')
    } else if c == 'n' {
        Some('\n')
    } else if c == 'r' {
        Some('\r')
    } else if c == 't' {
        Some('\t')
    } else if c == 'b' {
        Some('\u{0008}')
    } else if c == 'f' {
        Some('\u{000c}')
    } else {
        None
    }
}

/// Whether `c` is a hex digit.
pub open spec fn spec_is_hex_digit(c: char) -> bool {
    (48 <= c as u32 && c as u32 <= 57) || (97 <= c as u32 && c as u32 <= 102) || (65 <= c as u32
        && c as u32 <= 70)
}

/// The value of a hex digit.
pub open spec fn spec_hex_val(c: char) -> int {
    if 48 <= c as u32 && c as u32 <= 57 {
        c as u32 as int - 48
    } else if 97 <= c as u32 && c as u32 <= 102 {
        c as u32 as int - 87
    } else {
        c as u32 as int - 55
    }
}

/// Parses the body of a JSON string literal after its opening quote,
/// appending to `acc`: returns the decoded characters and the text after
/// the closing quote. Accepts the escapes the encoder writes: the named
/// two-character escapes and `\u00..` below the control-character bound.
pub open spec fn parse_string_body(t: Seq<char>, acc: Seq<char>) -> Option<(Seq<char>, Seq<char>)>
    decreases t.len(),
{
    if t.len() == 0 {
        None
    } else if t[0] == '"' {
        Some((acc, t.skip(1)))
    } else if t[0] == '\\' {
        if t.len() >= 2 && spec_simple_unescape(t[1]) is Some {
            parse_string_body(t.skip(2), acc.push(spec_simple_unescape(t[1]).unwrap()))
        } else if t.len() >= 6 && t[1] == 'u' && t[2] == '0' && t[3] == '0' && spec_is_hex_digit(
            t[4],
        ) && spec_is_hex_digit(t[5]) && spec_hex_val(t[4]) * 16 + spec_hex_val(t[5]) < 0x20 {
            parse_string_body(
                t.skip(6),
                acc.push((spec_hex_val(t[4]) * 16 + spec_hex_val(t[5])) as char),
            )
        } else {
            None
        }
    } else if (t[0] as u32) < 0x20 {
        None
    } else {
        parse_string_body(t.skip(1), acc.push(t[0]))
    }
}

/// A successful string parse consumes at least the closing quote.
proof fn lemma_psb_remainder(t: Seq<char>, acc: Seq<char>)
    ensures
        parse_string_body(t, acc) is Some ==> parse_string_body(t, acc).unwrap().1.len() < t.len(),
    decreases t.len(),
{
    if t.len() == 0 {
    } else if t[0] == '"' {
    } else if t[0] == '\\' {
        if t.len() >= 2 && spec_simple_unescape(t[1]) is Some {
            lemma_psb_remainder(t.skip(2), acc.push(spec_simple_unescape(t[1]).unwrap()));
        } else if t.len() >= 6 && t[1] == 'u' && t[2] == '0' && t[3] == '0' && spec_is_hex_digit(
            t[4],
        ) && spec_is_hex_digit(t[5]) && spec_hex_val(t[4]) * 16 + spec_hex_val(t[5]) < 0x20 {
            lemma_psb_remainder(
                t.skip(6),
                acc.push((spec_hex_val(t[4]) * 16 + spec_hex_val(t[5])) as char),
            );
        }
    } else if (t[0] as u32) < 0x20 {
    } else {
        lemma_psb_remainder(t.skip(1), acc.push(t[0]));
    }
}

/// Parses the elements of a string array, positioned at the opening quote
/// of the next element, appending to `acc`; succeeds only when the
/// closing bracket ends the text.
pub open spec fn parse_elems(t: Seq<char>, acc: Seq<Seq<char>>) -> Option<Seq<Seq<char>>>
    decreases t.len(),
    via parse_elems_decreases
{
    if t.len() == 0 || t[0] != '"' {
        None
    } else {
        match parse_string_body(t.skip(1), seq![]) {
            None => None,
            Some((s, r)) => {
                if r.len() == 0 {
                    None
                } else if r[0] == ']' {
                    if r.len() == 1 {
                        Some(acc.push(s))
                    } else {
                        None
                    }
                } else if r[0] == ',' {
                    parse_elems(r.skip(1), acc.push(s))
                } else {
                    None
                }
            },
        }
    }
}

#[via_fn]
proof fn parse_elems_decreases(t: Seq<char>, acc: Seq<Seq<char>>) {
    if t.len() > 0 && t[0] == '"' {
        lemma_psb_remainder(t.skip(1), seq![]);
    }
}

/// Parses a whole JSON array of string literals, with nothing around it.
pub open spec fn parsed_string_array(t: Seq<char>) -> Option<Seq<Seq<char>>> {
    if t.len() < 2 || t[0] != '[' {
        None
    } else if t[1] == ']' {
        if t.len() == 2 {
            Some(seq![])
        } else {
            None
        }
    } else {
        parse_elems(t.skip(1), seq![])
    }
}

/// The character a two-character escape stands for, if the code is one.
fn simple_unescape(c: char) -> (r: Option<char>)
    ensures
        r == spec_simple_unescape(c),
{
    match c {
        '"' => Some('"'),
        '\\' => Some('\\'),
        '/' => Some('/'),
        'n' => Some('\n'),
        'r' => Some('\r'),
        't' => Some('\t'),
        'b' => Some('\u{0008}'),
        'f' => Some('\u{000c}'),
        _ => None,
    }
}

/// The value of a hex digit, if `c` is one.
fn hex_val(c: char) -> (r: Option<u8>)
    ensures
        r is Some <==> spec_is_hex_digit(c),
        r is Some ==> r.unwrap() as int == spec_hex_val(c) && r.unwrap() < 16,
{
    let u = c as u32;
    if 48 <= u && u <= 57 {
        Some((u - 48) as u8)
    } else if 97 <= u && u <= 102 {
        Some((u - 87) as u8)
    } else if 65 <= u && u <= 70 {
        Some((u - 55) as u8)
    } else {
        None
    }
}

/// Scans one JSON string literal body starting at `start` (just past the
/// opening quote): returns the decoded string and the position just past
/// the closing quote, or nothing when the literal does not parse.
fn parse_string_at(t: &Vec<char>, start: usize) -> (res: Option<(String, usize)>)
    requires
        start <= t@.len(),
    ensures
        match res {
            Some(p) => start < p.1 <= t@.len() && parse_string_body(t@.skip(start as int), seq![])
                == Some((p.0@, t@.skip(p.1 as int))),
            None => parse_string_body(t@.skip(start as int), seq![]) is None,
        },
{
    let mut cur = String::new();
    let mut i: usize = start;
    let ghost body0 = t@.skip(start as int);
    let mut closed = false;
    while i < t.len() && !closed
        invariant
            start <= i <= t@.len(),
            body0 == t@.skip(start as int),
            parse_string_body(body0, seq![]) == if closed {
                Some((cur@, t@.skip(i as int)))
            } else {
                parse_string_body(t@.skip(i as int), cur@)
            },
            closed ==> start < i,
        ensures
            closed ==> parse_string_body(body0, seq![]) == Some((cur@, t@.skip(i as int))) && start
                < i <= t@.len(),
            !closed ==> parse_string_body(body0, seq![]) is None,
        decreases t@.len() - i,
    {
        let c = t[i];
        let ghost rem = t@.skip(i as int);
        assert(rem[0] == c);
        if c == '"' {
            proof {
                assert(rem.skip(1) =~= t@.skip(i as int + 1));
            }
            closed = true;
            i += 1;
        } else if c == '\\' {
            if i + 1 >= t.len() {
                proof {
                    assert(rem.len() == 1);
                    assert(parse_string_body(rem, cur@) is None);
                }
                break ;
            }
            let c2 = t[i + 1];
            assert(rem[1] == c2);
            match simple_unescape(c2) {
                Some(u) => {
                    let ghost cur0 = cur@;
                    push_char(&mut cur, u);
                    proof {
                        assert(rem.skip(2) =~= t@.skip(i as int + 2));
                        assert(cur0.push(u) =~= cur@);
                    }
                    i += 2;
                },
                None => {
                    if c2 != 'u' {
                        proof {
                            assert(parse_string_body(rem, cur@) is None);
                        }
                        break ;
                    }
                    if t.len() - i < 6 {
                        proof {
                            assert(rem.len() < 6);
                            assert(parse_string_body(rem, cur@) is None);
                        }
                        break ;
                    }
                    proof {
                        assert(rem[2] == t@[i as int + 2]);
                        assert(rem[3] == t@[i as int + 3]);
                        assert(rem[4] == t@[i as int + 4]);
                        assert(rem[5] == t@[i as int + 5]);
                    }
                    if t[i + 2] != '0' || t[i + 3] != '0' {
                        proof {
                            assert(parse_string_body(rem, cur@) is None);
                        }
                        break ;
                    }
                    let h = hex_val(t[i + 4]);
                    let l = hex_val(t[i + 5]);
                    match (h, l) {
                        (Some(hv), Some(lv)) => {
                            let v: u8 = hv * 16 + lv;
                            if v >= 0x20 {
                                proof {
                                    assert(parse_string_body(rem, cur@) is None);
                                }
                                break ;
                            }
                            let ghost cur0 = cur@;
                            push_char(&mut cur, v as char);
                            proof {
                                assert(rem.skip(6) =~= t@.skip(i as int + 6));
                                assert(cur0.push(v as char) =~= cur@);
                            }
                            i += 6;
                        },
                        _ => {
                            proof {
                                assert(parse_string_body(rem, cur@) is None);
                            }
                            break ;
                        },
                    }
                },
            }
        } else if (c as u32) < 0x20 {
            proof {
                assert(parse_string_body(rem, cur@) is None);
            }
            break ;
        } else {
            let ghost cur0 = cur@;
            push_char(&mut cur, c);
            proof {
                assert(rem.skip(1) =~= t@.skip(i as int + 1));
                assert(cur0.push(c) =~= cur@);
            }
            i += 1;
        }
    }
    if closed {
        Some((cur, i))
    } else {
        None
    }
}

/// Decodes a JSON array of string literals; any text that is not exactly
/// such an array decodes as the empty list, as the persistence layer
/// treats unreadable image columns as having no images.
pub fn decode_images(s: &str) -> (r: Vec<String>)
    ensures
        r@.map_values(|x: String| x@) == match parsed_string_array(s@) {
            Some(l) => l,
            None => Seq::<Seq<char>>::empty(),
        },
{
    let t = str_chars(s);
    let empty_result: Vec<String> = Vec::new();
    assert(empty_result@.map_values(|x: String| x@) =~= Seq::<Seq<char>>::empty());
    if t.len() < 2 {
        return empty_result;
    }
    if t[0] != '[' {
        return empty_result;
    }
    if t[1] == ']' {
        return empty_result;
    }
    let mut out: Vec<String> = Vec::new();
    let mut pos: usize = 1;
    assert(out@.map_values(|x: String| x@) =~= Seq::<Seq<char>>::empty());
    loop
        invariant_except_break
            parsed_string_array(s@) == parse_elems(
                t@.skip(pos as int),
                out@.map_values(|x: String| x@),
            ),
        invariant
            t@ == s@,
            t@.len() >= 2,
            1 <= pos <= t@.len(),
        ensures
            out@.map_values(|x: String| x@) == match parsed_string_array(s@) {
                Some(l) => l,
                None => Seq::<Seq<char>>::empty(),
            },
        decreases t@.len() - pos,
    {
        let ghost acc0 = out@.map_values(|x: String| x@);
        if pos >= t.len() || t[pos] != '"' {
            proof {
                if pos < t.len() {
                    assert(t@.skip(pos as int)[0] == t@[pos as int]);
                } else {
                    assert(t@.skip(pos as int).len() == 0);
                }
            }
            out = Vec::new();
            assert(out@.map_values(|x: String| x@) =~= Seq::<Seq<char>>::empty());
            break ;
        }
        assert(t@.skip(pos as int)[0] == '"');
        let ghost body0 = t@.skip(pos as int + 1);
        proof {
            assert(t@.skip(pos as int).skip(1) =~= body0);
        }
        let parsed = parse_string_at(&t, pos + 1);
        if parsed.is_none() {
            out = Vec::new();
            assert(out@.map_values(|x: String| x@) =~= Seq::<Seq<char>>::empty());
            break ;
        }
        let (cur, i) = parsed.unwrap();
        // after the closing quote: expect ',' or a final ']'
        let ghost r0 = t@.skip(i as int);
        if i >= t.len() {
            proof {
                assert(r0.len() == 0);
            }
            out = Vec::new();
            assert(out@.map_values(|x: String| x@) =~= Seq::<Seq<char>>::empty());
            break ;
        }
        let d = t[i];
        assert(r0[0] == d);
        if d == ']' {
            if i + 1 == t.len() {
                proof {
                    assert(r0.len() == 1);
                }
                out.push(cur);
                proof {
                    assert(out@.map_values(|x: String| x@) =~= acc0.push(cur@));
                }
                break ;
            } else {
                proof {
                    assert(r0.len() > 1);
                }
                out = Vec::new();
                assert(out@.map_values(|x: String| x@) =~= Seq::<Seq<char>>::empty());
                break ;
            }
        } else if d == ',' {
            out.push(cur);
            proof {
                assert(r0.skip(1) =~= t@.skip(i as int + 1));
                assert(out@.map_values(|x: String| x@) =~= acc0.push(cur@));
            }
            pos = i + 1;
        } else {
            out = Vec::new();
            assert(out@.map_values(|x: String| x@) =~= Seq::<Seq<char>>::empty());
            break ;
        }
    }
    out
}

proof fn lemma_hex_digit_roundtrip(d: int)
    requires
        0 <= d < 16,
    ensures
        spec_is_hex_digit(spec_hex_digit(d)),
        spec_hex_val(spec_hex_digit(d)) == d,
{
    if d == 0 {
        assert(spec_hex_digit(0) == '0');
    } else if d == 1 {
        assert(spec_hex_digit(1) == '1');
    } else if d == 2 {
        assert(spec_hex_digit(2) == '2');
    } else if d == 3 {
        assert(spec_hex_digit(3) == '3');
    } else if d == 4 {
        assert(spec_hex_digit(4) == '4');
    } else if d == 5 {
        assert(spec_hex_digit(5) == '5');
    } else if d == 6 {
        assert(spec_hex_digit(6) == '6');
    } else if d == 7 {
        assert(spec_hex_digit(7) == '7');
    } else if d == 8 {
        assert(spec_hex_digit(8) == '8');
    } else if d == 9 {
        assert(spec_hex_digit(9) == '9');
    } else if d == 10 {
        assert(spec_hex_digit(10) == 'a');
    } else if d == 11 {
        assert(spec_hex_digit(11) == 'b');
    } else if d == 12 {
        assert(spec_hex_digit(12) == 'c');
    } else if d == 13 {
        assert(spec_hex_digit(13) == 'd');
    } else if d == 14 {
        assert(spec_hex_digit(14) == 'e');
    } else {
        assert(spec_hex_digit(15) == 'f');
    }
}

/// Parsing the escaped form of `s` followed by the closing quote decodes
/// back to exactly `s` and leaves exactly the following text.
proof fn lemma_psb_escaped(s: Seq<char>, rest: Seq<char>, acc: Seq<char>)
    ensures
        parse_string_body(escaped(s) + seq!['"'] + rest, acc) == Some((acc + s, rest)),
    decreases s.len(),
{
    let t = escaped(s) + seq!['"'] + rest;
    if s.len() == 0 {
        assert(t[0] == '"');
        assert(t.skip(1) =~= rest);
        assert(acc + s =~= acc);
    } else {
        let c = s[0];
        let tail = escaped(s.skip(1)) + seq!['"'] + rest;
        assert(escaped(s) == escaped_char(c) + escaped(s.skip(1)));
        assert(t =~= escaped_char(c) + tail);
        lemma_psb_escaped(s.skip(1), rest, acc.push(c));
        assert(acc.push(c) + s.skip(1) =~= acc + s);
        if c == '"' {
            assert(t[0] == '\\');
            assert(t[1] == '"');
            assert(t.skip(2) =~= tail);
            assert(spec_simple_unescape(t[1]) == Some('"'));
        } else if c == '\\' {
            assert(t[0] == '\\');
            assert(t[1] == '\\');
            assert(t.skip(2) =~= tail);
        } else if c == '\n' {
            assert(t[0] == '\\');
            assert(t[1] == 'n');
            assert(t.skip(2) =~= tail);
        } else if c == '\r' {
            assert(t[0] == '\\');
            assert(t[1] == 'r');
            assert(t.skip(2) =~= tail);
        } else if c == '\t' {
            assert(t[0] == '\\');
            assert(t[1] == 't');
            assert(t.skip(2) =~= tail);
        } else if (c as u32) < 0x20 {
            let v = c as u32 as int;
            let hi = v / 16;
            let lo = v % 16;
            assert(t[0] == '\\');
            assert(t[1] == 'u');
            assert(t[2] == '0');
            assert(t[3] == '0');
            assert(t[4] == spec_hex_digit(hi));
            assert(t[5] == spec_hex_digit(lo));
            assert(t.len() >= 6);
            assert(t.skip(6) =~= tail);
            assert(spec_simple_unescape('u') is None);
            lemma_hex_digit_roundtrip(hi);
            lemma_hex_digit_roundtrip(lo);
            assert(spec_hex_val(t[4]) * 16 + spec_hex_val(t[5]) == v);
            vstd::utf8::char_u32_cast(c, c as u32);
            assert((v as char) == c);
        } else {
            assert(t[0] == c);
            assert(t.skip(1) =~= tail);
        }
    }
}

/// Parsing the encoded elements of a non-empty list, followed by the
/// closing bracket, yields exactly that list appended to the accumulator.
proof fn lemma_parse_elems_encoded(l: Seq<Seq<char>>, acc: Seq<Seq<char>>)
    requires
        l.len() >= 1,
    ensures
        parse_elems(elems_json(l) + seq![']'], acc) == Some(acc + l),
    decreases l.len(),
{
    let t = elems_json(l) + seq![']'];
    let head = l[0];
    if l.len() == 1 {
        assert(elems_json(l) == quoted(head));
        assert(t =~= seq!['"'] + (escaped(head) + seq!['"'] + seq![']']));
        assert(t[0] == '"');
        assert(t.skip(1) =~= escaped(head) + seq!['"'] + seq![']']);
        lemma_psb_escaped(head, seq![']'], seq![]);
        let s0 = Seq::<char>::empty() + head;
        assert(s0 =~= head);
        assert(parse_string_body(t.skip(1), seq![]) == Some((head, seq![']'])));
        assert(acc.push(head) =~= acc + l);
    } else {
        assert(elems_json(l) == quoted(head) + seq![','] + elems_json(l.skip(1)));
        let after = seq![','] + elems_json(l.skip(1)) + seq![']'];
        assert(t =~= seq!['"'] + (escaped(head) + seq!['"'] + after));
        assert(t[0] == '"');
        assert(t.skip(1) =~= escaped(head) + seq!['"'] + after);
        lemma_psb_escaped(head, after, seq![]);
        let s0 = Seq::<char>::empty() + head;
        assert(s0 =~= head);
        assert(parse_string_body(t.skip(1), seq![]) == Some((head, after)));
        assert(after[0] == ',');
        assert(after.len() > 1);
        assert(after.skip(1) =~= elems_json(l.skip(1)) + seq![']']);
        lemma_parse_elems_encoded(l.skip(1), acc.push(head));
        assert(acc.push(head) + l.skip(1) =~= acc + l);
    }
}

/// Round trip: any list of strings encoded as its JSON array text decodes
/// back to exactly the same list. In particular an empty list reloads as
/// an empty list, never as a missing or malformed value.
pub proof fn lemma_string_array_round_trip(l: Seq<Seq<char>>)
    ensures
        parsed_string_array(array_json(l)) == Some(l),
{
    let t = array_json(l);
    assert(t[0] == '[');
    if l.len() == 0 {
        assert(elems_json(l) == Seq::<char>::empty());
        assert(t =~= seq!['[', ']']);
        assert(t[1] == ']');
        assert(Some(Seq::<Seq<char>>::empty()) == Some(l));
    } else {
        assert(elems_json(l).len() > 0);
        assert(elems_json(l)[0] == '"') by {
            if l.len() == 1 {
                assert(elems_json(l) == quoted(l[0]));
            } else {
                assert(elems_json(l) == quoted(l[0]) + seq![','] + elems_json(l.skip(1)));
            }
        }
        assert(t[1] == elems_json(l)[0]);
        assert(t.len() >= 2);
        assert(t.skip(1) =~= elems_json(l) + seq![']']);
        lemma_parse_elems_encoded(l, seq![]);
        assert(Seq::<Seq<char>>::empty() + l =~= l);
    }
}

/// Appending one more element extends the comma-separated element text.
proof fn lemma_elems_json_snoc(l: Seq<Seq<char>>, s: Seq<char>)
    ensures
        elems_json(l.push(s)) == if l.len() == 0 {
            quoted(s)
        } else {
            elems_json(l) + seq![','] + quoted(s)
        },
    decreases l.len(),
{
    let p = l.push(s);
    if l.len() == 0 {
        assert(p.len() == 1);
        assert(p[0] == s);
    } else if l.len() == 1 {
        assert(p[0] == l[0]);
        assert(p.skip(1) =~= seq![s]);
        assert(elems_json(p) == quoted(l[0]) + seq![','] + elems_json(p.skip(1)));
        assert(elems_json(seq![s]) == quoted(s));
    } else {
        assert(p[0] == l[0]);
        assert(p.skip(1) =~= l.skip(1).push(s));
        lemma_elems_json_snoc(l.skip(1), s);
        assert(elems_json(p) == quoted(l[0]) + seq![','] + elems_json(l.skip(1).push(s)));
        assert(quoted(l[0]) + seq![','] + (elems_json(l.skip(1)) + seq![','] + quoted(s)) =~= (
        quoted(l[0]) + seq![','] + elems_json(l.skip(1))) + seq![','] + quoted(s));
    }
}


/// Whether `c` is JSON whitespace.
pub open spec fn spec_is_ws(c: char) -> bool {
    c == ' ' || c == '\t' || c == '\n' || c == '\r'
}

/// The text with its leading whitespace removed.
pub open spec fn skip_ws(t: Seq<char>) -> Seq<char>
    decreases t.len(),
{
    if t.len() > 0 && spec_is_ws(t[0]) {
        skip_ws(t.skip(1))
    } else {
        t
    }
}

proof fn lemma_skip_ws_len(t: Seq<char>)
    ensures
        skip_ws(t).len() <= t.len(),
    decreases t.len(),
{
    if t.len() > 0 && spec_is_ws(t[0]) {
        lemma_skip_ws_len(t.skip(1));
    }
}

/// Parses `"key" : "value"` pairs separated by commas, ending at a `}`
/// that must end the text; whitespace is allowed around the tokens.
pub open spec fn parse_pairs(t: Seq<char>, acc: Seq<(Seq<char>, Seq<char>)>) -> Option<
    Seq<(Seq<char>, Seq<char>)>,
>
    decreases t.len(),
    via parse_pairs_decreases
{
    let u = skip_ws(t);
    if u.len() == 0 || u[0] != '"' {
        None
    } else {
        match parse_string_body(u.skip(1), seq![]) {
            None => None,
            Some((k, r1)) => {
                let r2 = skip_ws(r1);
                if r2.len() == 0 || r2[0] != ':' {
                    None
                } else {
                    let r3 = skip_ws(r2.skip(1));
                    if r3.len() == 0 || r3[0] != '"' {
                        None
                    } else {
                        match parse_string_body(r3.skip(1), seq![]) {
                            None => None,
                            Some((v, r4)) => {
                                let r5 = skip_ws(r4);
                                if r5.len() == 0 {
                                    None
                                } else if r5[0] == '}' {
                                    if skip_ws(r5.skip(1)).len() == 0 {
                                        Some(acc.push((k, v)))
                                    } else {
                                        None
                                    }
                                } else if r5[0] == ',' {
                                    parse_pairs(r5.skip(1), acc.push((k, v)))
                                } else {
                                    None
                                }
                            },
                        }
                    }
                }
            },
        }
    }
}

#[via_fn]
proof fn parse_pairs_decreases(t: Seq<char>, acc: Seq<(Seq<char>, Seq<char>)>) {
    let u = skip_ws(t);
    lemma_skip_ws_len(t);
    if u.len() > 0 && u[0] == '"' {
        lemma_psb_remainder(u.skip(1), seq![]);
        if parse_string_body(u.skip(1), seq![]) is Some {
            let (k, r1) = parse_string_body(u.skip(1), seq![]).unwrap();
            let r2 = skip_ws(r1);
            lemma_skip_ws_len(r1);
            if r2.len() > 0 && r2[0] == ':' {
                let r3 = skip_ws(r2.skip(1));
                lemma_skip_ws_len(r2.skip(1));
                if r3.len() > 0 && r3[0] == '"' {
                    lemma_psb_remainder(r3.skip(1), seq![]);
                    if parse_string_body(r3.skip(1), seq![]) is Some {
                        let (v, r4) = parse_string_body(r3.skip(1), seq![]).unwrap();
                        let r5 = skip_ws(r4);
                        lemma_skip_ws_len(r4);
                    }
                }
            }
        }
    }
}

/// Parses a flat JSON object whose values are all strings, with nothing
/// but whitespace around it: the key/value pairs in textual order.
pub open spec fn parsed_string_object(t: Seq<char>) -> Option<Seq<(Seq<char>, Seq<char>)>> {
    let u = skip_ws(t);
    if u.len() == 0 || u[0] != '{' {
        None
    } else {
        let v = skip_ws(u.skip(1));
        if v.len() > 0 && v[0] == '}' {
            if skip_ws(v.skip(1)).len() == 0 {
                Some(seq![])
            } else {
                None
            }
        } else {
            parse_pairs(u.skip(1), seq![])
        }
    }
}

/// The value of the first pair with this key, if any.
pub open spec fn field_value(pairs: Seq<(Seq<char>, Seq<char>)>, key: Seq<char>) -> Option<
    Seq<char>,
>
    decreases pairs.len(),
{
    if pairs.len() == 0 {
        None
    } else if pairs[0].0 == key {
        Some(pairs[0].1)
    } else {
        field_value(pairs.skip(1), key)
    }
}

/// The string value a flat JSON object of string fields gives this key:
/// nothing when the text is not such an object or the key is absent.
pub open spec fn spec_string_field(t: Seq<char>, key: Seq<char>) -> Option<Seq<char>> {
    match parsed_string_object(t) {
        None => None,
        Some(pairs) => field_value(pairs, key),
    }
}

/// Whether `c` is JSON whitespace.
pub fn is_ws(c: char) -> (r: bool)
    ensures
        r == spec_is_ws(c),
{
    c == ' ' || c == '\t' || c == '\n' || c == '\r'
}

/// The position after the whitespace that follows position `from`.
fn skip_ws_from(t: &Vec<char>, from: usize) -> (j: usize)
    requires
        from <= t@.len(),
    ensures
        from <= j <= t@.len(),
        skip_ws(t@.skip(from as int)) == t@.skip(j as int),
{
    let mut i = from;
    while i < t.len() && is_ws(t[i])
        invariant
            from <= i <= t@.len(),
            skip_ws(t@.skip(from as int)) == skip_ws(t@.skip(i as int)),
        decreases t@.len() - i,
    {
        proof {
            assert(t@.skip(i as int)[0] == t@[i as int]);
            assert(t@.skip(i as int).skip(1) =~= t@.skip(i as int + 1));
        }
        i += 1;
    }
    proof {
        if i < t.len() {
            assert(t@.skip(i as int)[0] == t@[i as int]);
        }
        assert(skip_ws(t@.skip(i as int)) == t@.skip(i as int));
    }
    i
}

/// Extracts one string field from a flat JSON object of string fields,
/// as a tool reads one argument out of its argument text: the value of
/// the first pair carrying `key`, or nothing when the text is not such
/// an object or has no such field.
pub fn json_string_field(s: &str, key: &str) -> (r: Option<String>)
    ensures
        r is Some <==> spec_string_field(s@, key@) is Some,
        r is Some ==> r.unwrap()@ == spec_string_field(s@, key@).unwrap(),
{
    let t = str_chars(s);
    let start = skip_ws_from(&t, 0);
    proof {
        assert(t@.skip(0int) =~= t@);
    }
    if start >= t.len() || t[start] != '{' {
        proof {
            if start < t.len() {
                assert(t@.skip(start as int)[0] == t@[start as int]);
            } else {
                assert(t@.skip(start as int).len() == 0);
            }
        }
        return None;
    }
    assert(t@.skip(start as int)[0] == '{');
    let ghost after_brace = t@.skip(start as int + 1);
    proof {
        assert(t@.skip(start as int).skip(1) =~= after_brace);
    }
    let vpos = skip_ws_from(&t, start + 1);
    if vpos < t.len() && t[vpos] == '}' {
        proof {
            assert(t@.skip(vpos as int)[0] == t@[vpos as int]);
            assert(t@.skip(vpos as int).skip(1) =~= t@.skip(vpos as int + 1));
        }
        let end = skip_ws_from(&t, vpos + 1);
        if end == t.len() {
            proof {
                assert(t@.skip(end as int).len() == 0);
                assert(field_value(seq![], key@) is None);
            }
            return None;
        } else {
            proof {
                assert(t@.skip(end as int).len() > 0);
            }
            return None;
        }
    }
    proof {
        if vpos < t.len() {
            assert(t@.skip(vpos as int)[0] == t@[vpos as int]);
        }
    }
    // collect the pairs
    let mut pairs: Vec<(String, String)> = Vec::new();
    let mut pos: usize = start + 1;
    let mut ok = false;
    assert(pairs@.map_values(|q: (String, String)| (q.0@, q.1@)) =~= Seq::<(
        Seq<char>,
        Seq<char>,
    )>::empty());
    loop
        invariant_except_break
            parsed_string_object(s@) == parse_pairs(
                t@.skip(pos as int),
                pairs@.map_values(|q: (String, String)| (q.0@, q.1@)),
            ),
            !ok,
        invariant
            t@ == s@,
            pos <= t@.len(),
        ensures
            ok ==> parsed_string_object(s@) == Some(
                pairs@.map_values(|q: (String, String)| (q.0@, q.1@)),
            ),
            !ok ==> parsed_string_object(s@) is None,
        decreases t@.len() - pos,
    {
        let ghost acc0 = pairs@.map_values(|q: (String, String)| (q.0@, q.1@));
        let kpos = skip_ws_from(&t, pos);
        if kpos >= t.len() || t[kpos] != '"' {
            proof {
                if kpos < t.len() {
                    assert(t@.skip(kpos as int)[0] == t@[kpos as int]);
                } else {
                    assert(t@.skip(kpos as int).len() == 0);
                }
            }
            break ;
        }
        assert(t@.skip(kpos as int)[0] == '"');
        proof {
            assert(t@.skip(kpos as int).skip(1) =~= t@.skip(kpos as int + 1));
        }
        let kparsed = parse_string_at(&t, kpos + 1);
        if kparsed.is_none() {
            break ;
        }
        let (k, i1) = kparsed.unwrap();
        let cpos = skip_ws_from(&t, i1);
        if cpos >= t.len() || t[cpos] != ':' {
            proof {
                if cpos < t.len() {
                    assert(t@.skip(cpos as int)[0] == t@[cpos as int]);
                } else {
                    assert(t@.skip(cpos as int).len() == 0);
                }
            }
            break ;
        }
        assert(t@.skip(cpos as int)[0] == ':');
        proof {
            assert(t@.skip(cpos as int).skip(1) =~= t@.skip(cpos as int + 1));
        }
        let qpos = skip_ws_from(&t, cpos + 1);
        if qpos >= t.len() || t[qpos] != '"' {
            proof {
                if qpos < t.len() {
                    assert(t@.skip(qpos as int)[0] == t@[qpos as int]);
                } else {
                    assert(t@.skip(qpos as int).len() == 0);
                }
            }
            break ;
        }
        assert(t@.skip(qpos as int)[0] == '"');
        proof {
            assert(t@.skip(qpos as int).skip(1) =~= t@.skip(qpos as int + 1));
        }
        let vparsed = parse_string_at(&t, qpos + 1);
        if vparsed.is_none() {
            break ;
        }
        let (v, i2) = vparsed.unwrap();
        let dpos = skip_ws_from(&t, i2);
        if dpos >= t.len() {
            proof {
                assert(t@.skip(dpos as int).len() == 0);
            }
            break ;
        }
        let d = t[dpos];
        assert(t@.skip(dpos as int)[0] == d);
        proof {
            assert(t@.skip(dpos as int).skip(1) =~= t@.skip(dpos as int + 1));
        }
        if d == '}' {
            let end = skip_ws_from(&t, dpos + 1);
            if end == t.len() {
                proof {
                    assert(t@.skip(end as int).len() == 0);
                }
                pairs.push((k, v));
                proof {
                    assert(pairs@.map_values(|q: (String, String)| (q.0@, q.1@)) =~= acc0.push(
                        (k@, v@),
                    ));
                }
                ok = true;
                break ;
            } else {
                proof {
                    assert(t@.skip(end as int).len() > 0);
                }
                break ;
            }
        } else if d == ',' {
            pairs.push((k, v));
            proof {
                assert(pairs@.map_values(|q: (String, String)| (q.0@, q.1@)) =~= acc0.push(
                    (k@, v@),
                ));
            }
            pos = dpos + 1;
        } else {
            break ;
        }
    }
    if !ok {
        return None;
    }
    // the object parsed: return the first pair carrying the key
    let key_owned = key.to_owned();
    let ghost model = pairs@.map_values(|q: (String, String)| (q.0@, q.1@));
    let mut i: usize = 0;
    assert(model.skip(0int) =~= model);
    while i < pairs.len()
        invariant
            0 <= i <= pairs@.len(),
            key_owned@ == key@,
            model == pairs@.map_values(|q: (String, String)| (q.0@, q.1@)),
            field_value(model, key@) == field_value(model.skip(i as int), key@),
        ensures
            i < pairs@.len() ==> field_value(model, key@) == Some(model[i as int].1)
                && pairs@[i as int].0@ == key@,
            i >= pairs@.len() ==> field_value(model, key@) is None,
        decreases pairs@.len() - i,
    {
        proof {
            assert(model[i as int] == (pairs@[i as int].0@, pairs@[i as int].1@));
            assert(model.skip(i as int)[0] == model[i as int]);
        }
        if pairs[i].0 == key_owned {
            proof {
                assert(model[i as int].0 == key@);
            }
            break ;
        }
        proof {
            assert(model[i as int].0 != key@);
            assert(model.skip(i as int).skip(1) =~= model.skip(i as int + 1));
        }
        i += 1;
    }
    proof {
        if i >= pairs@.len() {
            assert(model.skip(i as int).len() == 0);
        }
    }
    if i < pairs.len() {
        let r = Some(pairs[i].1.clone());
        assert(r.unwrap()@ == model[i as int].1);
        r
    } else {
        None
    }
}

} // verus!
