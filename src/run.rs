//! The order of the pipeline's stages: each stage's outcome decides the next
//! one, and the first failure ends the run.
use vstd::prelude::*;

verus! {

/// The stage a run is at: the work to do next.
#[derive(Debug, Clone, Copy, PartialEq, Eq, Structural)]
pub enum Stage {
    LoadModel,
    LoadAudio,
    Transcribe,
    /// Read the prompt template; the transcript was split into `chunks` pieces.
    ReadTemplate { chunks: usize },
    /// Send the summarisation request for chunk `done` of `total`.
    Summarize { done: usize, total: usize },
    /// Write the transcript and the summary.
    Save,
    Finished,
    Aborted,
}

/// How the work of a stage ended.
#[derive(Debug, Clone, Copy, PartialEq, Eq, Structural)]
pub enum Event {
    Succeeded,
    /// Transcription succeeded and its text was split into this many chunks.
    Transcribed { chunks: usize },
    Failed,
}

/// The stage after `stage` ended with `event`. A failure, or an outcome that
/// does not fit the stage, aborts; `Finished` and `Aborted` are final.
pub open spec fn next_stage(stage: Stage, event: Event) -> Stage {
    match (stage, event) {
        (Stage::Finished, _) => Stage::Finished,
        (Stage::Aborted, _) => Stage::Aborted,
        (Stage::LoadModel, Event::Succeeded) => Stage::LoadAudio,
        (Stage::LoadAudio, Event::Succeeded) => Stage::Transcribe,
        (Stage::Transcribe, Event::Transcribed { chunks }) => Stage::ReadTemplate { chunks },
        (Stage::ReadTemplate { chunks }, Event::Succeeded) => if chunks == 0 {
            Stage::Save
        } else {
            Stage::Summarize { done: 0, total: chunks }
        },
        (Stage::Summarize { done, total }, Event::Succeeded) => if done + 1 < total {
            Stage::Summarize { done: (done + 1) as usize, total }
        } else {
            Stage::Save
        },
        (Stage::Save, Event::Succeeded) => Stage::Finished,
        _ => Stage::Aborted,
    }
}

/// Decides the stage that follows `stage` once its work ended with `event`.
pub fn advance(stage: Stage, event: Event) -> (r: Stage)
    ensures
        r == next_stage(stage, event),
{
    match (stage, event) {
        (Stage::Finished, _) => Stage::Finished,
        (Stage::Aborted, _) => Stage::Aborted,
        (Stage::LoadModel, Event::Succeeded) => Stage::LoadAudio,
        (Stage::LoadAudio, Event::Succeeded) => Stage::Transcribe,
        (Stage::Transcribe, Event::Transcribed { chunks }) => Stage::ReadTemplate { chunks },
        (Stage::ReadTemplate { chunks }, Event::Succeeded) => if chunks == 0 {
            Stage::Save
        } else {
            Stage::Summarize { done: 0, total: chunks }
        },
        (Stage::Summarize { done, total }, Event::Succeeded) => if done < total && total - done > 1 {
            Stage::Summarize { done: done + 1, total }
        } else {
            Stage::Save
        },
        (Stage::Save, Event::Succeeded) => Stage::Finished,
        _ => Stage::Aborted,
    }
}

/// The stage a run starts at.
pub fn start() -> (r: Stage)
    ensures
        r == Stage::LoadModel,
{
    Stage::LoadModel
}

/// The stage reached from the start after the outcomes `events`, in order.
pub open spec fn stage_after(events: Seq<Event>) -> Stage
    decreases events.len(),
{
    if events.len() == 0 {
        Stage::LoadModel
    } else {
        next_stage(stage_after(events.drop_last()), events.last())
    }
}

/// A well-formed stage: a request index lies below the number of chunks.
pub open spec fn stage_ok(s: Stage) -> bool {
    match s {
        Stage::Summarize { done, total } => done < total,
        _ => true,
    }
}

/// A stage that still has work to do: the run is neither finished nor aborted.
pub open spec fn in_progress(s: Stage) -> bool {
    !(s is Finished) && !(s is Aborted)
}

/// A run goes on only while every stage succeeds: a run that still has
/// requests to send or outputs to write has seen no failure.
pub proof fn lemma_progress_means_no_failure(events: Seq<Event>)
    requires
        in_progress(stage_after(events)),
    ensures
        forall|j: int| 0 <= j < events.len() ==> events[j] != Event::Failed,
    decreases events.len(),
{
    if events.len() > 0 {
        let front = events.drop_last();
        lemma_progress_means_no_failure(front);
        assert forall|j: int| 0 <= j < events.len() implies events[j] != Event::Failed by {
            if j < events.len() - 1 {
                assert(events[j] == front[j]);
            }
        }
    }
}

/// After a failure, no stage is in progress any more.
pub proof fn lemma_failure_stops(events: Seq<Event>, j: int)
    requires
        0 <= j < events.len(),
        events[j] == Event::Failed,
    ensures
        !in_progress(stage_after(events)),
{
    if in_progress(stage_after(events)) {
        lemma_progress_means_no_failure(events);
    }
}

/// A request is sent, or the outputs written, only after the prompt template
/// was read: some earlier step was `ReadTemplate` and it succeeded.
pub proof fn lemma_template_before_requests(events: Seq<Event>)
    requires
        stage_after(events) is Summarize || stage_after(events) is Save || stage_after(
            events,
        ) is Finished,
    ensures
        exists|k: int|
            0 <= k < events.len() && #[trigger] stage_after(events.take(k)) is ReadTemplate
                && events[k] == Event::Succeeded,
    decreases events.len(),
{
    let front = events.drop_last();
    assert(events.take(events.len() - 1) =~= front);
    if stage_after(front) is ReadTemplate {
        assert(stage_after(events.take(events.len() - 1)) is ReadTemplate);
    } else {
        lemma_template_before_requests(front);
        let k = choose|k: int|
            0 <= k < front.len() && #[trigger] stage_after(front.take(k)) is ReadTemplate
                && front[k] == Event::Succeeded;
        assert(front.take(k) =~= events.take(k));
        assert(stage_after(events.take(k)) is ReadTemplate);
    }
}

/// Every stage that a run reaches is well-formed.
pub proof fn lemma_stages_well_formed(events: Seq<Event>)
    ensures
        stage_ok(stage_after(events)),
    decreases events.len(),
{
    if events.len() > 0 {
        lemma_stages_well_formed(events.drop_last());
    }
}

} // verus!
