use transcript_summary::chunk::split;
use transcript_summary::pipeline::check_mono;
use transcript_summary::run::{advance, start, Event, Stage};

/// Runs the stage machine on the outcomes given, returning every stage visited.
fn drive(events: &[Event]) -> Vec<Stage> {
    let mut stage = start();
    let mut seen = vec![stage];
    for e in events {
        stage = advance(stage, *e);
        seen.push(stage);
    }
    seen
}

#[test]
fn full_run_with_two_chunks() {
    let seen = drive(&[
        Event::Succeeded,
        Event::Succeeded,
        Event::Transcribed { chunks: 2 },
        Event::Succeeded,
        Event::Succeeded,
        Event::Succeeded,
        Event::Succeeded,
    ]);
    assert_eq!(
        seen,
        vec![
            Stage::LoadModel,
            Stage::LoadAudio,
            Stage::Transcribe,
            Stage::ReadTemplate { chunks: 2 },
            Stage::Summarize { done: 0, total: 2 },
            Stage::Summarize { done: 1, total: 2 },
            Stage::Save,
            Stage::Finished,
        ]
    );
}

#[test]
fn silent_audio_with_two_chunks_sends_one_request() {
    // an engine that hears nothing gives an empty transcript
    let chunks = split("", 2);
    assert_eq!(chunks, vec![String::new()]);
    let seen = drive(&[
        Event::Succeeded,
        Event::Succeeded,
        Event::Transcribed { chunks: chunks.len() },
        Event::Succeeded,
        Event::Succeeded,
        Event::Succeeded,
    ]);
    let requests = seen.iter().filter(|s| matches!(s, Stage::Summarize { .. })).count();
    assert_eq!(requests, 1);
    assert!(requests <= 2);
    assert_eq!(*seen.last().unwrap(), Stage::Finished);
}

#[test]
fn missing_template_aborts_before_any_request() {
    let seen = drive(&[
        Event::Succeeded,
        Event::Succeeded,
        Event::Transcribed { chunks: 3 },
        Event::Failed,
        Event::Succeeded,
    ]);
    assert_eq!(seen[3], Stage::ReadTemplate { chunks: 3 });
    assert_eq!(seen[4], Stage::Aborted);
    assert!(!seen.iter().any(|s| matches!(s, Stage::Summarize { .. } | Stage::Save)));
}

#[test]
fn stereo_audio_aborts_before_outputs_are_written() {
    let refused = check_mono(2).is_err();
    assert!(refused);
    let seen = drive(&[Event::Succeeded, Event::Failed, Event::Succeeded, Event::Succeeded]);
    assert_eq!(seen[2], Stage::Aborted);
    assert!(!seen.iter().any(|s| *s == Stage::Save || *s == Stage::Finished));
}

#[test]
fn unexpected_outcome_aborts_and_final_stages_stay() {
    assert_eq!(advance(Stage::Transcribe, Event::Succeeded), Stage::Aborted);
    assert_eq!(advance(Stage::LoadModel, Event::Transcribed { chunks: 1 }), Stage::Aborted);
    assert_eq!(advance(Stage::Finished, Event::Failed), Stage::Finished);
    assert_eq!(advance(Stage::Aborted, Event::Succeeded), Stage::Aborted);
    assert_eq!(advance(Stage::ReadTemplate { chunks: 0 }, Event::Succeeded), Stage::Save);
    assert_eq!(
        advance(Stage::Summarize { done: 4, total: 2 }, Event::Succeeded),
        Stage::Save
    );
}
