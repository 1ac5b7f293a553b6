use transcript_summary::stream::{body_lines, concat_fragments, summary_from_stream};

#[test]
fn stream_skips_blank_and_irrelevant_lines() {
    let body = "{\"response\":\"Hello\"}\n{\"response\":\" world\"}\n\n{\"bogus\":1}\n";
    assert_eq!(summary_from_stream(body), "Hello world");
}

#[test]
fn stream_skips_malformed_lines_and_non_string_fields() {
    let body = "{\"response\":\"a\"}\r\n{\"response\":5}\r\nnot json\r\n   \n{\"response\":\"b\",\"done\":true}";
    assert_eq!(summary_from_stream(body), "ab");
}

#[test]
fn stream_of_nothing_is_empty() {
    assert_eq!(summary_from_stream(""), "");
    assert_eq!(summary_from_stream("\n\n"), "");
}

#[test]
fn body_lines_follow_str_lines() {
    for body in ["a\r\nb\n\nc", "a\n", "", "x\r", "\n", "one\r\n\r\ntwo\r\n"] {
        let expected: Vec<String> = body.lines().map(|s| s.to_string()).collect();
        assert_eq!(body_lines(body), expected);
    }
}

#[test]
fn concat_fragments_keeps_present_ones_in_order() {
    let found = vec![Some("a".to_string()), None, Some("b".to_string()), Some(String::new())];
    assert_eq!(concat_fragments(&found), "ab");
}
