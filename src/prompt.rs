//! Transcripts, prompts and the body of a generation request.
use vstd::prelude::*;
use crate::text::{join, join_with, chars_of, push_char};

verus! {

/// The segments one per line: the transcript as it is shown and saved.
pub fn pretty_transcript(segments: &Vec<String>) -> (r: String)
    ensures
        r@ == join_with(segments.deep_view(), seq!['\n']),
{
    proof {
        reveal_strlit("\n");
    }
    assert("\n"@ =~= seq!['\n']);
    join(segments, "\n")
}

/// The segments joined by single spaces: the transcript as it is summarised.
pub fn flat_transcript(segments: &Vec<String>) -> (r: String)
    ensures
        r@ == join_with(segments.deep_view(), seq![' ']),
{
    proof {
        reveal_strlit(" ");
    }
    assert(" "@ =~= seq![' ']);
    join(segments, " ")
}

/// The summaries of the chunks, separated by a blank line.
pub fn join_summaries(summaries: &Vec<String>) -> (r: String)
    ensures
        r@ == join_with(summaries.deep_view(), seq!['\n', '\n']),
{
    proof {
        reveal_strlit("\n\n");
    }
    assert("\n\n"@ =~= seq!['\n', '\n']);
    join(summaries, "\n\n")
}

/// `template` with every `{}`, taken from left to right without overlap,
/// replaced by `text`: what `str::replace(template, "{}", text)` gives.
pub open spec fn fill(template: Seq<char>, text: Seq<char>) -> Seq<char>
    decreases template.len(),
{
    if template.len() < 2 {
        template
    } else if template[0] == '{' && template[1] == '}' {
        text + fill(template.skip(2), text)
    } else {
        seq![template[0]] + fill(template.skip(1), text)
    }
}

/// Puts `text` in place of each `{}` placeholder of `template`.
pub fn fill_template(template: &str, text: &str) -> (r: String)
    ensures
        r@ == fill(template@, text@),
{
    let cs = chars_of(template);
    let n = cs.len();
    let mut out = String::new();
    let mut i: usize = 0;
    assert(cs@.skip(0) =~= cs@);
    assert(out@ + fill(cs@, text@) =~= fill(cs@, text@));
    while i < n
        invariant
            cs@ == template@,
            n == cs@.len(),
            i <= n,
            out@ + fill(cs@.skip(i as int), text@) == fill(template@, text@),
        decreases n - i,
    {
        let ghost rest = cs@.skip(i as int);
        if i + 1 < n && cs[i] == '{' && cs[i + 1] == '}' {
            assert(rest.skip(2) =~= cs@.skip(i + 2));
            out.append(text);
            assert(out@ + fill(cs@.skip(i + 2), text@) =~= fill(template@, text@));
            i = i + 2;
        } else {
            let c = cs[i];
            proof {
                if rest.len() >= 2 {
                    assert(rest.skip(1) =~= cs@.skip(i + 1));
                } else {
                    assert(cs@.skip(i + 1) =~= Seq::<char>::empty());
                    assert(rest =~= seq![c]);
                }
            }
            push_char(&mut out, c);
            assert(out@ + fill(cs@.skip(i + 1), text@) =~= fill(template@, text@));
            i = i + 1;
        }
    }
    assert(cs@.skip(n as int) =~= Seq::<char>::empty());
    assert(out@ + Seq::<char>::empty() =~= out@);
    out
}

/// The error type of `serde_json`.
#[verifier::external_type_specification]
#[verifier::external_body]
pub struct ExJsonError(serde_json::Error);

/// A lower-case hexadecimal digit, for `d < 16`.
pub open spec fn hex_digit(d: int) -> char {
    seq!['0', '1', '2', '3', '4', '5', '6', '7', '8', '9', 'a', 'b', 'c', 'd', 'e', 'f'][d]
}

/// How one character is written inside a JSON string: `"` and `\` behind a
/// backslash; backspace, tab, line feed, form feed and carriage return as
/// `\b \t \n \f \r`; the other characters below U+0020 as `\u00` and two
/// lower-case hex digits; every other character as itself.
pub open spec fn escape_char(c: char) -> Seq<char> {
    let u = c as u32;
    if c == '"' {
        seq!['\\', '"']
    } else if c == '\\' {
        seq!['\\', '\\']
    } else if u == 0x08 {
        seq!['\\', 'b']
    } else if u == 0x09 {
        seq!['\\', 't']
    } else if u == 0x0a {
        seq!['\\', 'n']
    } else if u == 0x0c {
        seq!['\\', 'f']
    } else if u == 0x0d {
        seq!['\\', 'r']
    } else if u < 0x20 {
        seq!['\\', 'u', '0', '0', hex_digit(u as int / 16), hex_digit(u as int % 16)]
    } else {
        seq![c]
    }
}

/// The characters of `s`, each escaped for a JSON string.
pub open spec fn escaped(s: Seq<char>) -> Seq<char>
    decreases s.len(),
{
    if s.len() == 0 {
        Seq::empty()
    } else {
        escaped(s.drop_last()) + escape_char(s.last())
    }
}

/// The JSON string literal for `s`: its escaped characters between quotes.
pub open spec fn json_literal(s: Seq<char>) -> Seq<char> {
    seq!['"'] + escaped(s) + seq!['"']
}

/// Relies on `serde_json::to_string` on a `str`: the text is escaped into a
/// `Vec` between quotes, as `json_literal` states; writing to a `Vec` does not
/// fail, so neither does the call.
#[verifier::external_body]
fn json_string(s: &str) -> (r: Result<String, serde_json::Error>)
    ensures
        r is Ok,
        r matches Ok(t) ==> t@ == json_literal(s@),
{
    serde_json::to_string(s)
}

/// The request body `{"model":M,"prompt":P}` from the JSON literals `M` and `P`.
pub open spec fn framed_request(model_lit: Seq<char>, prompt_lit: Seq<char>) -> Seq<char> {
    seq!['{', '"', 'm', 'o', 'd', 'e', 'l', '"', ':'] + model_lit + seq![
        ',',
        '"',
        'p',
        'r',
        'o',
        'm',
        'p',
        't',
        '"',
        ':',
    ] + prompt_lit + seq!['}']
}

/// Frames a generation request body from the JSON literals of the model name
/// and of the prompt.
pub fn frame_request(model_lit: &str, prompt_lit: &str) -> (r: String)
    ensures
        r@ == framed_request(model_lit@, prompt_lit@),
{
    proof {
        reveal_strlit("{\"model\":");
        reveal_strlit(",\"prompt\":");
        reveal_strlit("}");
    }
    let mut out = String::new();
    out.append("{\"model\":");
    out.append(model_lit);
    out.append(",\"prompt\":");
    out.append(prompt_lit);
    out.append("}");
    assert(out@ =~= framed_request(model_lit@, prompt_lit@));
    out
}

/// The JSON body of a generation request: the model's name and the prompt.
pub fn request_body(model: &str, prompt: &str) -> (r: String)
    ensures
        r@ == framed_request(json_literal(model@), json_literal(prompt@)),
{
    let m = json_string(model).unwrap();
    let p = json_string(prompt).unwrap();
    frame_request(m.as_str(), p.as_str())
}

} // verus!
