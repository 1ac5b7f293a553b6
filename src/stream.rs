//! Reading a newline-delimited JSON response body into one summary text.
use vstd::prelude::*;
use crate::text::{is_blank, is_blank_str, chars_of, string_from};

verus! {

/// The text after the last `'\n'` of `s` (all of `s` if it has none).
pub open spec fn tail_line(s: Seq<char>) -> Seq<char>
    decreases s.len(),
{
    if s.len() == 0 || s.last() == '\n' {
        Seq::empty()
    } else {
        tail_line(s.drop_last()).push(s.last())
    }
}

/// A line without the `'\r'` of a `"\r\n"` ending.
pub open spec fn strip_cr(l: Seq<char>) -> Seq<char> {
    if l.len() > 0 && l.last() == '\r' {
        l.drop_last()
    } else {
        l
    }
}

/// The lines of `s` that a `'\n'` ends, each without its line ending.
pub open spec fn ended_lines(s: Seq<char>) -> Seq<Seq<char>>
    decreases s.len(),
{
    if s.len() == 0 {
        Seq::empty()
    } else if s.last() == '\n' {
        ended_lines(s.drop_last()).push(strip_cr(tail_line(s.drop_last())))
    } else {
        ended_lines(s.drop_last())
    }
}

/// The lines of `s` as `str::lines` gives them: split at `"\n"` or `"\r\n"`,
/// with no empty line after a final line ending.
pub open spec fn lines_of(s: Seq<char>) -> Seq<Seq<char>> {
    if tail_line(s).len() > 0 {
        ended_lines(s).push(tail_line(s))
    } else {
        ended_lines(s)
    }
}

/// The string held under `key` in the JSON object that `line` parses as;
/// `None` where the line is no JSON or that field is absent or no string.
pub uninterp spec fn str_field_in(line: Seq<char>, key: Seq<char>) -> Option<Seq<char>>;

/// The key under which each line of a reply carries its fragment.
pub open spec fn response_key() -> Seq<char> {
    seq!['r', 'e', 's', 'p', 'o', 'n', 's', 'e']
}

pub open spec fn opt_view(o: Option<String>) -> Option<Seq<char>> {
    match o {
        Some(s) => Some(s@),
        None => None,
    }
}

/// The fragment that one line of a response body contributes: none for a
/// blank line.
pub open spec fn line_fragment(line: Seq<char>) -> Option<Seq<char>> {
    if is_blank(line) {
        None
    } else {
        str_field_in(line, response_key())
    }
}

/// The present fragments, concatenated in order.
pub open spec fn concat_present(found: Seq<Option<Seq<char>>>) -> Seq<char>
    decreases found.len(),
{
    if found.len() == 0 {
        Seq::empty()
    } else {
        concat_present(found.drop_last()) + match found.last() {
            Some(f) => f,
            None => Seq::empty(),
        }
    }
}

/// The summary that a response body `body` accumulates.
pub open spec fn summary_of(body: Seq<char>) -> Seq<char> {
    let ls = lines_of(body);
    concat_present(Seq::new(ls.len(), |i: int| line_fragment(ls[i])))
}

/// Relies on `serde_json::from_str::<serde_json::Value>`, then indexing the
/// value by `key` (which gives `Null` where the key is absent) and
/// `Value::as_str`: the string field `key` of the line's JSON object, or
/// `None` where the line does not parse or holds no such string. The three
/// calls together depend on the line and the key alone.
#[verifier::external_body]
fn json_str_field(line: &str, key: &str) -> (r: Option<String>)
    ensures
        opt_view(r) == str_field_in(line@, key@),
{
    match serde_json::from_str::<serde_json::Value>(line) {
        Ok(v) => v[key].as_str().map(|s| s.to_string()),
        Err(_) => None,
    }
}

/// The lines of `body`, as `str::lines` splits them.
pub fn body_lines(body: &str) -> (r: Vec<String>)
    ensures
        r.deep_view() == lines_of(body@),
{
    let cs = chars_of(body);
    let mut out: Vec<String> = Vec::new();
    let mut start: usize = 0;
    let mut i: usize = 0;
    while i < cs.len()
        invariant
            cs@ == body@,
            start <= i <= cs@.len(),
            tail_line(cs@.take(i as int)) == cs@.subrange(start as int, i as int),
            ended_lines(cs@.take(i as int)) == out.deep_view(),
        decreases cs@.len() - i,
    {
        let ghost pre = cs@.take(i as int);
        let ghost cur = cs@.take(i + 1);
        assert(cur.drop_last() =~= pre);
        if cs[i] == '\n' {
            let end = if i > start && cs[i - 1] == '\r' {
                i - 1
            } else {
                i
            };
            let line = string_from(&cs, start, end);
            out.push(line);
            proof {
                let t = cs@.subrange(start as int, i as int);
                if i > start && cs@[i - 1] == '\r' {
                    assert(t.drop_last() =~= cs@.subrange(start as int, end as int));
                }
                assert(out.deep_view() =~= ended_lines(pre).push(strip_cr(t)));
            }
            start = i + 1;
            assert(cs@.subrange(start as int, i + 1) =~= Seq::<char>::empty());
        } else {
            assert(cs@.subrange(start as int, i + 1) =~= cs@.subrange(start as int, i as int).push(
                cs@[i as int],
            ));
        }
        i = i + 1;
    }
    assert(cs@.take(cs@.len() as int) =~= cs@);
    if start < cs.len() {
        let line = string_from(&cs, start, cs.len());
        out.push(line);
        assert(out.deep_view() =~= lines_of(body@));
    }
    out
}

/// The fragments that are present, concatenated in order.
pub fn concat_fragments(found: &Vec<Option<String>>) -> (r: String)
    ensures
        r@ == concat_present(found@.map_values(|o: Option<String>| opt_view(o))),
{
    let ghost fv = found@.map_values(|o: Option<String>| opt_view(o));
    let mut out = String::new();
    let mut i: usize = 0;
    while i < found.len()
        invariant
            i <= found@.len(),
            fv == found@.map_values(|o: Option<String>| opt_view(o)),
            out@ == concat_present(fv.take(i as int)),
        decreases found@.len() - i,
    {
        assert(fv.take(i + 1).drop_last() =~= fv.take(i as int));
        match &found[i] {
            Some(f) => {
                out.append(f.as_str());
            },
            None => {
                assert(out@ =~= out@ + Seq::<char>::empty());
            },
        }
        i = i + 1;
    }
    assert(fv.take(found@.len() as int) =~= fv);
    out
}

/// Accumulates the summary carried by a streamed response body: each
/// non-blank line is read as a JSON object and its string field `response`,
/// if any, is appended; lines that are no JSON, or carry no such field,
/// contribute nothing.
pub fn summary_from_stream(body: &str) -> (r: String)
    ensures
        r@ == summary_of(body@),
{
    let lines = body_lines(body);
    let ghost ls = lines_of(body@);
    let mut found: Vec<Option<String>> = Vec::new();
    let mut i: usize = 0;
    while i < lines.len()
        invariant
            lines.deep_view() == ls,
            i <= lines@.len(),
            found@.len() == i,
            forall|j: int|
                0 <= j < i ==> opt_view(#[trigger] found@[j]) == line_fragment(ls[j]),
        decreases lines@.len() - i,
    {
        let line = lines[i].as_str();
        assert(line@ == ls[i as int]);
        if is_blank_str(line) {
            found.push(None);
        } else {
            proof {
                reveal_strlit("response");
            }
            assert("response"@ =~= response_key());
            let f = json_str_field(line, "response");
            found.push(f);
        }
        i = i + 1;
    }
    let r = concat_fragments(&found);
    assert(found@.map_values(|o: Option<String>| opt_view(o)) =~= Seq::new(
        ls.len(),
        |i: int| line_fragment(ls[i]),
    ));
    r
}

} // verus!
