//! The compute side of the web tools: query URLs with percent-encoding,
//! assembly of readable output from parsed responses, and tag stripping.
//!
//! The shell performs the requests and parses the wire JSON; what is
//! asked and what the model gets to read is decided here.

use vstd::prelude::*;

verus! {

use crate::jsoncodec::spec_hex_digit;
use crate::text::{push_char, str_chars};
use vstd::string::StringSliceAdditionalSpecFns;

/// Whether a byte stays itself under percent-encoding: letters, digits,
/// and the four unreserved marks.
pub open spec fn url_safe_byte(b: u8) -> bool {
    ||| 48 <= b <= 57
    ||| 65 <= b <= 90
    ||| 97 <= b <= 122
    ||| b == 45
    ||| b == 46
    ||| b == 95
    ||| b == 126
}

/// The upper-case hex digit of a value below sixteen.
pub open spec fn spec_hex_digit_upper(d: int) -> char {
    if d < 10 {
        spec_hex_digit(d)
    } else {
        seq!['A', 'B', 'C', 'D', 'E', 'F'][d - 10]
    }
}

/// How one byte appears percent-encoded: itself when safe, else a percent
/// escape with two upper-case hex digits.
pub open spec fn url_encoded_byte(b: u8) -> Seq<char> {
    if url_safe_byte(b) {
        seq![b as char]
    } else {
        seq!['%', spec_hex_digit_upper(b as int / 16), spec_hex_digit_upper(b as int % 16)]
    }
}

/// A whole byte sequence percent-encoded.
pub open spec fn url_encoded(bytes: Seq<u8>) -> Seq<char>
    decreases bytes.len(),
{
    if bytes.len() == 0 {
        seq![]
    } else {
        url_encoded_byte(bytes[0]) + url_encoded(bytes.skip(1))
    }
}

proof fn lemma_url_encoded_snoc(bytes: Seq<u8>, b: u8)
    ensures
        url_encoded(bytes.push(b)) == url_encoded(bytes) + url_encoded_byte(b),
    decreases bytes.len(),
{
    if bytes.len() == 0 {
        let p = bytes.push(b);
        assert(p[0] == b);
        assert(p.skip(1) =~= Seq::<u8>::empty());
        assert(url_encoded(p.skip(1)) =~= Seq::<char>::empty());
        assert(url_encoded_byte(b) + url_encoded(p.skip(1)) =~= url_encoded_byte(b));
        assert(url_encoded(bytes) + url_encoded_byte(b) =~= url_encoded_byte(b));
    } else {
        assert(bytes.push(b)[0] == bytes[0]);
        assert(bytes.push(b).skip(1) =~= bytes.skip(1).push(b));
        lemma_url_encoded_snoc(bytes.skip(1), b);
        assert(url_encoded_byte(bytes[0]) + (url_encoded(bytes.skip(1)) + url_encoded_byte(b)) =~= (
        url_encoded_byte(bytes[0]) + url_encoded(bytes.skip(1))) + url_encoded_byte(b));
    }
}

fn hex_digit_upper(d: u8) -> (c: char)
    requires
        d < 16,
    ensures
        c == spec_hex_digit_upper(d as int),
{
    match d {
        0 => '0',
        1 => '1',
        2 => '2',
        3 => '3',
        4 => '4',
        5 => '5',
        6 => '6',
        7 => '7',
        8 => '8',
        9 => '9',
        10 => 'A',
        11 => 'B',
        12 => 'C',
        13 => 'D',
        14 => 'E',
        _ => 'F',
    }
}

/// Percent-encodes text for use in a query string: the UTF-8 bytes of the
/// text, each kept when safe and escaped otherwise.
pub fn url_encode(s: &str) -> (r: String)
    ensures
        r@ == url_encoded(s.spec_bytes()),
{
    let bytes = s.as_bytes();
    let mut out = String::new();
    let mut i: usize = 0;
    proof {
        assert(out@ =~= url_encoded(bytes@.subrange(0, 0int)));
    }
    while i < bytes.len()
        invariant
            0 <= i <= bytes@.len(),
            bytes@ == s.spec_bytes(),
            out@ == url_encoded(bytes@.subrange(0, i as int)),
        decreases bytes@.len() - i,
    {
        let b = bytes[i];
        let ghost before = out@;
        let safe = (48 <= b && b <= 57) || (65 <= b && b <= 90) || (97 <= b && b <= 122) || b == 45
            || b == 46 || b == 95 || b == 126;
        if safe {
            push_char(&mut out, b as char);
        } else {
            push_char(&mut out, '%');
            push_char(&mut out, hex_digit_upper(b / 16));
            push_char(&mut out, hex_digit_upper(b % 16));
        }
        proof {
            assert(out@ =~= before + url_encoded_byte(b));
            assert(bytes@.subrange(0, i as int).push(bytes@[i as int]) =~= bytes@.subrange(
                0,
                i as int + 1,
            ));
            lemma_url_encoded_snoc(bytes@.subrange(0, i as int), b);
        }
        i += 1;
    }
    proof {
        assert(bytes@.subrange(0, bytes@.len() as int) =~= bytes@);
    }
    out
}

/// The web search query URL for this query text.
pub fn web_search_url(query: &str) -> (r: String)
    ensures
        r@ == "https://api.duckduckgo.com/?q="@ + url_encoded(query.spec_bytes())
            + "&format=json&no_html=1&skip_disambig=1"@,
{
    let mut r = "https://api.duckduckgo.com/?q=".to_owned();
    let enc = url_encode(query);
    r.append(enc.as_str());
    r.append("&format=json&no_html=1&skip_disambig=1");
    r
}

/// The article search URL for this query text.
pub fn wikipedia_search_url(query: &str) -> (r: String)
    ensures
        r@ == "https://en.wikipedia.org/w/api.php?action=query&list=search&srsearch="@
            + url_encoded(query.spec_bytes()) + "&format=json&srlimit=3"@,
{
    let mut r = "https://en.wikipedia.org/w/api.php?action=query&list=search&srsearch=".to_owned();
    let enc = url_encode(query);
    r.append(enc.as_str());
    r.append("&format=json&srlimit=3");
    r
}

/// The article content URL for this page title.
pub fn wikipedia_content_url(page_title: &str) -> (r: String)
    ensures
        r@ == "https://en.wikipedia.org/w/api.php?action=query&titles="@ + url_encoded(
            page_title.spec_bytes(),
        ) + "&prop=extracts&exintro=true&explaintext=true&format=json"@,
{
    let mut r = "https://en.wikipedia.org/w/api.php?action=query&titles=".to_owned();
    let enc = url_encode(page_title);
    r.append(enc.as_str());
    r.append("&prop=extracts&exintro=true&explaintext=true&format=json");
    r
}

/// The text with every angle-bracketed tag removed, carrying the
/// open-tag state across the characters.
pub open spec fn spec_strip_html(s: Seq<char>, in_tag: bool) -> Seq<char>
    decreases s.len(),
{
    if s.len() == 0 {
        seq![]
    } else if s[0] == '<' {
        spec_strip_html(s.skip(1), true)
    } else if s[0] == '>' {
        spec_strip_html(s.skip(1), false)
    } else if !in_tag {
        seq![s[0]] + spec_strip_html(s.skip(1), in_tag)
    } else {
        spec_strip_html(s.skip(1), in_tag)
    }
}

/// Removes angle-bracketed tags from markup, keeping only the text that
/// stands outside them.
pub fn strip_html_tags(s: &str) -> (r: String)
    ensures
        r@ == spec_strip_html(s@, false),
{
    let t = str_chars(s);
    let mut out = String::new();
    let mut in_tag = false;
    let mut i: usize = 0;
    proof {
        assert(t@.skip(0int) =~= s@);
        assert(out@ + spec_strip_html(t@.skip(0int), false) =~= spec_strip_html(s@, false));
    }
    while i < t.len()
        invariant
            0 <= i <= t@.len(),
            t@ == s@,
            spec_strip_html(s@, false) == out@ + spec_strip_html(t@.skip(i as int), in_tag),
        decreases t@.len() - i,
    {
        let c = t[i];
        let ghost rem = t@.skip(i as int);
        proof {
            assert(rem[0] == c);
            assert(rem.skip(1) =~= t@.skip(i as int + 1));
        }
        if c == '<' {
            in_tag = true;
        } else if c == '>' {
            in_tag = false;
        } else if !in_tag {
            let ghost before = out@;
            push_char(&mut out, c);
            proof {
                assert(out@ + spec_strip_html(t@.skip(i as int + 1), in_tag) =~= before + (
                seq![c] + spec_strip_html(t@.skip(i as int + 1), in_tag)));
            }
        }
        i += 1;
    }
    proof {
        assert(t@.skip(t@.len() as int).len() == 0);
        assert(out@ + spec_strip_html(t@.skip(t@.len() as int), in_tag) =~= out@);
    }
    out
}

/// One related-article line: the bolded title, then the snippet with its
/// markup stripped.
pub open spec fn wiki_related_line(title: Seq<char>, snippet: Seq<char>) -> Seq<char> {
    "- **"@ + title + "**: "@ + spec_strip_html(snippet, false) + "\n"@
}

/// The related-articles lines, one per search result.
pub open spec fn wiki_related(rs: Seq<(Seq<char>, Seq<char>)>) -> Seq<char>
    decreases rs.len(),
{
    if rs.len() == 0 {
        seq![]
    } else {
        wiki_related_line(rs[0].0, rs[0].1) + wiki_related(rs.skip(1))
    }
}

/// What the model reads of an article lookup: the page title as a
/// heading, the introduction extract, and — when the search found more
/// than one article — a related-articles list over the rest.
pub open spec fn spec_wikipedia_output(
    page_title: Seq<char>,
    extract: Seq<char>,
    results: Seq<(Seq<char>, Seq<char>)>,
) -> Seq<char> {
    let head = "# "@ + page_title + "\n\n"@ + extract + "\n\n"@;
    if results.len() > 1 {
        head + "## Related articles:\n"@ + wiki_related(results.skip(1))
    } else {
        head
    }
}

proof fn lemma_wiki_related_snoc(rs: Seq<(Seq<char>, Seq<char>)>, x: (Seq<char>, Seq<char>))
    ensures
        wiki_related(rs.push(x)) == wiki_related(rs) + wiki_related_line(x.0, x.1),
    decreases rs.len(),
{
    if rs.len() == 0 {
        let p = rs.push(x);
        assert(p[0] == x);
        assert(p.skip(1) =~= Seq::<(Seq<char>, Seq<char>)>::empty());
        assert(wiki_related(p.skip(1)) =~= Seq::<char>::empty());
        assert(wiki_related_line(x.0, x.1) + wiki_related(p.skip(1)) =~= wiki_related_line(
            x.0,
            x.1,
        ));
        assert(wiki_related(rs) + wiki_related_line(x.0, x.1) =~= wiki_related_line(x.0, x.1));
    } else {
        assert(rs.push(x)[0] == rs[0]);
        assert(rs.push(x).skip(1) =~= rs.skip(1).push(x));
        lemma_wiki_related_snoc(rs.skip(1), x);
        assert(wiki_related_line(rs[0].0, rs[0].1) + (wiki_related(rs.skip(1))
            + wiki_related_line(x.0, x.1)) =~= (wiki_related_line(rs[0].0, rs[0].1) + wiki_related(
            rs.skip(1),
        )) + wiki_related_line(x.0, x.1));
    }
}

/// Assembles what the model reads of an article lookup, from the page
/// title, its extract, and the search results as title/snippet pairs.
pub fn format_wikipedia_output(
    page_title: &str,
    extract: &str,
    results: &Vec<(String, String)>,
) -> (r: String)
    ensures
        r@ == spec_wikipedia_output(
            page_title@,
            extract@,
            results@.map_values(|p: (String, String)| (p.0@, p.1@)),
        ),
{
    let ghost rm = results@.map_values(|p: (String, String)| (p.0@, p.1@));
    let mut out = "# ".to_owned();
    out.append(page_title);
    out.append("\n\n");
    out.append(extract);
    out.append("\n\n");
    let ghost head = out@;
    if results.len() > 1 {
        out.append("## Related articles:\n");
        let mut i: usize = 1;
        proof {
            assert(rm.skip(1).take(0int) =~= Seq::<(Seq<char>, Seq<char>)>::empty());
            assert(out@ =~= head + "## Related articles:\n"@ + wiki_related(rm.skip(1).take(0int)));
        }
        while i < results.len()
            invariant
                1 <= i <= results@.len(),
                rm == results@.map_values(|p: (String, String)| (p.0@, p.1@)),
                out@ == head + "## Related articles:\n"@ + wiki_related(rm.skip(1).take(i - 1)),
            decreases results@.len() - i,
        {
            let stripped = strip_html_tags(results[i].1.as_str());
            let ghost before = out@;
            out.append("- **");
            out.append(results[i].0.as_str());
            out.append("**: ");
            out.append(stripped.as_str());
            out.append("\n");
            proof {
                assert(rm.skip(1)[i - 1] == rm[i as int]);
                assert(rm[i as int] == (results@[i as int].0@, results@[i as int].1@));
                assert(out@ =~= before + wiki_related_line(rm.skip(1)[i - 1].0, rm.skip(1)[i - 1].1));
                assert(rm.skip(1).take(i - 1).push(rm.skip(1)[i - 1]) =~= rm.skip(1).take(i as int));
                lemma_wiki_related_snoc(rm.skip(1).take(i - 1), rm.skip(1)[i - 1]);
            }
            i += 1;
        }
        proof {
            assert(rm.skip(1).take(rm.skip(1).len() as int) =~= rm.skip(1));
        }
    }
    out
}

/// One web search result line: skipped when its text is empty, else the
/// text, with its address on a second line when one is there.
pub open spec fn ws_result_line(text: Seq<char>, url: Seq<char>) -> Seq<char> {
    if text.len() == 0 {
        seq![]
    } else if url.len() == 0 {
        "- "@ + text + "\n"@
    } else {
        "- "@ + text + "\n"@ + "  URL: "@ + url + "\n"@
    }
}

/// The result lines of a web search.
pub open spec fn ws_results(rs: Seq<(Seq<char>, Seq<char>)>) -> Seq<char>
    decreases rs.len(),
{
    if rs.len() == 0 {
        seq![]
    } else {
        ws_result_line(rs[0].0, rs[0].1) + ws_results(rs.skip(1))
    }
}

/// One related-topic line: skipped when its text is empty.
pub open spec fn ws_topic_line(text: Seq<char>) -> Seq<char> {
    if text.len() == 0 {
        seq![]
    } else {
        "- "@ + text + "\n"@
    }
}

/// The related-topic lines of a web search.
pub open spec fn ws_topics(ts: Seq<Seq<char>>) -> Seq<char>
    decreases ts.len(),
{
    if ts.len() == 0 {
        seq![]
    } else {
        ws_topic_line(ts[0]) + ws_topics(ts.skip(1))
    }
}

/// At most the first five entries.
pub open spec fn first_five<A>(s: Seq<A>) -> Seq<A> {
    if s.len() > 5 {
        s.take(5)
    } else {
        s
    }
}

/// What the model reads of a web search: the instant answer with its
/// source when there is one, then up to five direct results, then up to
/// five related topics; and a no-answer line naming the query when
/// nothing at all came back.
pub open spec fn spec_web_search_output(
    query: Seq<char>,
    heading: Seq<char>,
    abstract_text: Seq<char>,
    abstract_source: Seq<char>,
    abstract_url: Seq<char>,
    results: Seq<(Seq<char>, Seq<char>)>,
    related: Seq<Seq<char>>,
) -> Seq<char> {
    let head = if abstract_text.len() == 0 {
        Seq::<char>::empty()
    } else if abstract_url.len() == 0 {
        "# "@ + heading + "\n\n"@ + abstract_text + "\n\n"@
    } else {
        "# "@ + heading + "\n\n"@ + abstract_text + "\n\n"@ + "Source: "@ + abstract_source + " ("@
            + abstract_url + ")\n\n"@
    };
    let with_results = if results.len() == 0 {
        head
    } else {
        head + "## Results:\n"@ + ws_results(first_five(results)) + "\n"@
    };
    let whole = if related.len() == 0 {
        with_results
    } else {
        with_results + "## Related:\n"@ + ws_topics(first_five(related))
    };
    if whole.len() == 0 {
        "No instant answer available for '"@ + query
            + "'. Try a more specific query or use Wikipedia for detailed information."@
    } else {
        whole
    }
}

proof fn lemma_ws_results_snoc(rs: Seq<(Seq<char>, Seq<char>)>, x: (Seq<char>, Seq<char>))
    ensures
        ws_results(rs.push(x)) == ws_results(rs) + ws_result_line(x.0, x.1),
    decreases rs.len(),
{
    if rs.len() == 0 {
        let p = rs.push(x);
        assert(p[0] == x);
        assert(p.skip(1) =~= Seq::<(Seq<char>, Seq<char>)>::empty());
        assert(ws_results(p.skip(1)) =~= Seq::<char>::empty());
        assert(ws_result_line(x.0, x.1) + ws_results(p.skip(1)) =~= ws_result_line(x.0, x.1));
        assert(ws_results(rs) + ws_result_line(x.0, x.1) =~= ws_result_line(x.0, x.1));
    } else {
        assert(rs.push(x)[0] == rs[0]);
        assert(rs.push(x).skip(1) =~= rs.skip(1).push(x));
        lemma_ws_results_snoc(rs.skip(1), x);
        assert(ws_result_line(rs[0].0, rs[0].1) + (ws_results(rs.skip(1)) + ws_result_line(
            x.0,
            x.1,
        )) =~= (ws_result_line(rs[0].0, rs[0].1) + ws_results(rs.skip(1))) + ws_result_line(
            x.0,
            x.1,
        ));
    }
}

proof fn lemma_ws_topics_snoc(ts: Seq<Seq<char>>, x: Seq<char>)
    ensures
        ws_topics(ts.push(x)) == ws_topics(ts) + ws_topic_line(x),
    decreases ts.len(),
{
    if ts.len() == 0 {
        let p = ts.push(x);
        assert(p[0] == x);
        assert(p.skip(1) =~= Seq::<Seq<char>>::empty());
        assert(ws_topics(p.skip(1)) =~= Seq::<char>::empty());
        assert(ws_topic_line(x) + ws_topics(p.skip(1)) =~= ws_topic_line(x));
        assert(ws_topics(ts) + ws_topic_line(x) =~= ws_topic_line(x));
    } else {
        assert(ts.push(x)[0] == ts[0]);
        assert(ts.push(x).skip(1) =~= ts.skip(1).push(x));
        lemma_ws_topics_snoc(ts.skip(1), x);
        assert(ws_topic_line(ts[0]) + (ws_topics(ts.skip(1)) + ws_topic_line(x)) =~= (ws_topic_line(
            ts[0],
        ) + ws_topics(ts.skip(1))) + ws_topic_line(x));
    }
}

/// Assembles what the model reads of a web search, from the parsed
/// instant-answer fields, the direct results as text/address pairs, and
/// the related-topic texts.
pub fn format_web_search_output(
    query: &str,
    heading: &str,
    abstract_text: &str,
    abstract_source: &str,
    abstract_url: &str,
    results: &Vec<(String, String)>,
    related: &Vec<String>,
) -> (r: String)
    ensures
        r@ == spec_web_search_output(
            query@,
            heading@,
            abstract_text@,
            abstract_source@,
            abstract_url@,
            results@.map_values(|p: (String, String)| (p.0@, p.1@)),
            related@.map_values(|s: String| s@),
        ),
{
    let ghost rm = results@.map_values(|p: (String, String)| (p.0@, p.1@));
    let ghost tm = related@.map_values(|s: String| s@);
    let mut out = String::new();
    proof {
        reveal_strlit("");
    }
    if !abstract_text.is_empty() {
        out.append("# ");
        out.append(heading);
        out.append("\n\n");
        out.append(abstract_text);
        out.append("\n\n");
        if !abstract_url.is_empty() {
            out.append("Source: ");
            out.append(abstract_source);
            out.append(" (");
            out.append(abstract_url);
            out.append(")\n\n");
        }
    }
    let ghost head = out@;
    if results.len() > 0 {
        out.append("## Results:\n");
        let bound: usize = if results.len() > 5 {
            5
        } else {
            results.len()
        };
        let ghost window = first_five(rm);
        proof {
            if rm.len() > 5 {
                assert(window =~= rm.take(5int));
            } else {
                assert(window =~= rm.take(rm.len() as int));
            }
            assert(window.take(0int) =~= Seq::<(Seq<char>, Seq<char>)>::empty());
            assert(out@ =~= head + "## Results:\n"@ + ws_results(window.take(0int)));
        }
        let mut i: usize = 0;
        while i < bound
            invariant
                0 <= i <= bound <= results@.len(),
                bound == (if results@.len() > 5 {
                    5int
                } else {
                    results@.len() as int
                }),
                rm == results@.map_values(|p: (String, String)| (p.0@, p.1@)),
                window == first_five(rm),
                window == rm.take(bound as int),
                out@ == head + "## Results:\n"@ + ws_results(window.take(i as int)),
            decreases bound - i,
        {
            let ghost before = out@;
            if !results[i].0.as_str().is_empty() {
                out.append("- ");
                out.append(results[i].0.as_str());
                out.append("\n");
                if !results[i].1.as_str().is_empty() {
                    out.append("  URL: ");
                    out.append(results[i].1.as_str());
                    out.append("\n");
                }
            }
            proof {
                assert(rm[i as int] == (results@[i as int].0@, results@[i as int].1@));
                assert(window[i as int] == rm[i as int]);
                assert(out@ =~= before + ws_result_line(window[i as int].0, window[i as int].1));
                assert(window.take(i as int).push(window[i as int]) =~= window.take(i as int + 1));
                lemma_ws_results_snoc(window.take(i as int), window[i as int]);
            }
            i += 1;
        }
        out.append("\n");
        proof {
            assert(window.take(bound as int) =~= window);
        }
    }
    let ghost with_results = out@;
    if related.len() > 0 {
        out.append("## Related:\n");
        let bound: usize = if related.len() > 5 {
            5
        } else {
            related.len()
        };
        let ghost window = first_five(tm);
        proof {
            if tm.len() > 5 {
                assert(window =~= tm.take(5int));
            } else {
                assert(window =~= tm.take(tm.len() as int));
            }
            assert(window.take(0int) =~= Seq::<Seq<char>>::empty());
            assert(out@ =~= with_results + "## Related:\n"@ + ws_topics(window.take(0int)));
        }
        let mut i: usize = 0;
        while i < bound
            invariant
                0 <= i <= bound <= related@.len(),
                bound == (if related@.len() > 5 {
                    5int
                } else {
                    related@.len() as int
                }),
                tm == related@.map_values(|s: String| s@),
                window == first_five(tm),
                window == tm.take(bound as int),
                out@ == with_results + "## Related:\n"@ + ws_topics(window.take(i as int)),
            decreases bound - i,
        {
            let ghost before = out@;
            if !related[i].as_str().is_empty() {
                out.append("- ");
                out.append(related[i].as_str());
                out.append("\n");
            }
            proof {
                assert(tm[i as int] == related@[i as int]@);
                assert(window[i as int] == tm[i as int]);
                assert(out@ =~= before + ws_topic_line(window[i as int]));
                assert(window.take(i as int).push(window[i as int]) =~= window.take(i as int + 1));
                lemma_ws_topics_snoc(window.take(i as int), window[i as int]);
            }
            i += 1;
        }
        proof {
            assert(window.take(bound as int) =~= window);
        }
    }
    if out.as_str().is_empty() {
        let mut fallback = "No instant answer available for '".to_owned();
        fallback.append(query);
        fallback.append(
            "'. Try a more specific query or use Wikipedia for detailed information.",
        );
        fallback
    } else {
        out
    }
}

} // verus!
