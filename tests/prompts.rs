use transcript_summary::pipeline::{check_mono, has_wav_suffix, plan_outputs, prompt_from, InputError};
use transcript_summary::prompt::{
    fill_template, flat_transcript, join_summaries, pretty_transcript, request_body,
};
use transcript_summary::text::{is_blank_str, join, string_from, chars_of};

fn strings(v: &[&str]) -> Vec<String> {
    v.iter().map(|s| s.to_string()).collect()
}

#[test]
fn transcripts_join_segments() {
    let segs = strings(&[" Hello there.", " How are you?"]);
    assert_eq!(pretty_transcript(&segs), " Hello there.\n How are you?");
    assert_eq!(flat_transcript(&segs), " Hello there.  How are you?");
    assert_eq!(pretty_transcript(&Vec::new()), "");
}

#[test]
fn summaries_are_separated_by_a_blank_line() {
    assert_eq!(join_summaries(&strings(&["one", "two", "three"])), "one\n\ntwo\n\nthree");
    assert_eq!(join_summaries(&strings(&["only"])), "only");
}

#[test]
fn template_placeholders_are_filled() {
    assert_eq!(fill_template("Summarize:\n{}\nEnd", "text"), "Summarize:\ntext\nEnd");
    assert_eq!(fill_template("{}|{}", "x"), "x|x");
    assert_eq!(fill_template("{{}}", "x"), "{x}");
    assert_eq!(fill_template("no placeholder", "x"), "no placeholder");
    assert_eq!(fill_template("{", "x"), "{");
    for t in ["a{}b{}", "{}}{{}", "", "{}"] {
        assert_eq!(fill_template(t, "Z"), t.replace("{}", "Z"));
    }
}

#[test]
fn missing_template_is_an_input_error() {
    assert_eq!(prompt_from(None, "words"), Err(InputError::MissingTemplate));
    assert_eq!(prompt_from(Some("S: {}".to_string()), "words"), Ok("S: words".to_string()));
}

#[test]
fn request_body_escapes_the_prompt() {
    let body = request_body("gemma", "say \"hi\"\n");
    assert_eq!(body, "{\"model\":\"gemma\",\"prompt\":\"say \\\"hi\\\"\\n\"}");
}

#[test]
fn request_body_escapes_control_characters() {
    let body = request_body("m", "a\u{1}b\u{1f}\t\u{8}\u{c}\r\\/\u{7f}é");
    assert_eq!(
        body,
        "{\"model\":\"m\",\"prompt\":\"a\\u0001b\\u001f\\t\\b\\f\\r\\\\/\u{7f}é\"}"
    );
    assert_eq!(request_body("", ""), "{\"model\":\"\",\"prompt\":\"\"}");
}

#[test]
fn only_mono_audio_is_accepted() {
    assert_eq!(check_mono(1), Ok(()));
    assert_eq!(check_mono(2), Err(InputError::NotMono { channels: 2 }));
    assert_eq!(check_mono(0), Err(InputError::NotMono { channels: 0 }));
}

#[test]
fn output_paths_follow_the_stem() {
    let p = plan_outputs("talks/meeting.wav").unwrap();
    assert_eq!(p.transcript, "meeting.transcript");
    assert_eq!(p.summary, "meeting.summary");
    let p = plan_outputs("a.b.wav").unwrap();
    assert_eq!(p.transcript, "a.b.transcript");
}

#[test]
fn non_wav_input_is_refused() {
    assert!(matches!(plan_outputs("meeting.mp3"), Err(InputError::NotWav)));
    assert!(matches!(plan_outputs("meeting.WAV"), Err(InputError::NotWav)));
    assert!(matches!(plan_outputs("wav"), Err(InputError::NotWav)));
    assert!(has_wav_suffix(".wav"));
    assert!(!has_wav_suffix("x.wa"));
}

#[test]
fn text_helpers() {
    assert!(is_blank_str(" \t\u{3000}\r\n"));
    assert!(is_blank_str(""));
    assert!(!is_blank_str(" x "));
    let cs = chars_of("héllo");
    assert_eq!(cs.len(), 5);
    assert_eq!(string_from(&cs, 1, 4), "éll");
    assert_eq!(join(&strings(&["a", "b", "c"]), ", "), "a, b, c");
}
