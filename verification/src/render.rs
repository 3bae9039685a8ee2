use vstd::prelude::*;
use vstd::string::*;

verus! {

/// Where rendering an export stands.
#[derive(Clone, Copy, Debug, PartialEq, Eq, Structural)]
pub enum ExportStage {
    /// Nothing has run yet.
    Start,
    /// The encoder is rendering the timeline.
    Rendering,
    /// The export is written, refused, or has failed.
    Finished,
}

/// What happened since the last step.
#[derive(Clone, Copy, Debug, PartialEq, Eq, Structural)]
pub enum ExportEvent {
    /// The caller starts an export of this many clips.
    Begin { clips: usize },
    /// The encoder could not be run, or the job was cancelled around it.
    RunFailed,
    /// The encoder ran and exited, successfully or not.
    Exited { success: bool },
}

/// What the caller does next.
#[derive(Clone, Copy, Debug, PartialEq, Eq, Structural)]
pub enum ExportAction {
    /// Refuse with `empty_export_message`: there is nothing to render.
    RefuseEmpty,
    /// Report `export_status` on the job, then run the encoder.
    Run,
    /// Delete the partly written output and fail with the run's error.
    RemoveOutputAndFail,
    /// Delete the partly written output and fail with the encoder's error
    /// output, trimmed.
    RemoveOutputAndFailWithStderr,
    /// The export is written: answer its path.
    Done,
    /// The event does not belong to this stage: nothing to do.
    Ignore,
}

/// The export workflow: an export without clips is refused before anything
/// runs; otherwise the encoder runs once, and whatever way it fails, the
/// partial output is deleted.
pub open spec fn export_next(stage: ExportStage, event: ExportEvent) -> (ExportStage, ExportAction) {
    match (stage, event) {
        (ExportStage::Start, ExportEvent::Begin { clips }) => if clips == 0 {
            (ExportStage::Finished, ExportAction::RefuseEmpty)
        } else {
            (ExportStage::Rendering, ExportAction::Run)
        },
        (ExportStage::Rendering, ExportEvent::RunFailed) => (ExportStage::Finished, ExportAction::RemoveOutputAndFail),
        (ExportStage::Rendering, ExportEvent::Exited { success }) => if success {
            (ExportStage::Finished, ExportAction::Done)
        } else {
            (ExportStage::Finished, ExportAction::RemoveOutputAndFailWithStderr)
        },
        _ => (stage, ExportAction::Ignore),
    }
}

/// Takes one step of the export workflow; see `export_next`.
pub fn export_step(stage: ExportStage, event: ExportEvent) -> (r: (ExportStage, ExportAction))
    ensures
        r == export_next(stage, event),
{
    match (stage, event) {
        (ExportStage::Start, ExportEvent::Begin { clips }) => if clips == 0 {
            (ExportStage::Finished, ExportAction::RefuseEmpty)
        } else {
            (ExportStage::Rendering, ExportAction::Run)
        },
        (ExportStage::Rendering, ExportEvent::RunFailed) => (ExportStage::Finished, ExportAction::RemoveOutputAndFail),
        (ExportStage::Rendering, ExportEvent::Exited { success }) => if success {
            (ExportStage::Finished, ExportAction::Done)
        } else {
            (ExportStage::Finished, ExportAction::RemoveOutputAndFailWithStderr)
        },
        _ => (stage, ExportAction::Ignore),
    }
}

pub open spec fn msg_empty_export() -> Seq<char> {
    "Add at least one video clip before exporting."@
}

/// The refusal of an export without clips.
pub fn empty_export_message() -> (s: String)
    ensures
        s@ == msg_empty_export(),
{
    String::from_str("Add at least one video clip before exporting.")
}

/// The job message and fixed-point progress reported before rendering.
pub fn export_status() -> (r: (String, i64))
    ensures
        r.0@ == "Rendering video"@,
        r.1 == 50_000,
{
    (String::from_str("Rendering video"), 50_000)
}

/// An export never leaves a partial output behind on failure, and it runs
/// the encoder only for a request with clips.
pub proof fn lemma_export_cleans_up(stage: ExportStage, event: ExportEvent)
    ensures
        export_next(stage, event).1 == ExportAction::Run <==> (stage == ExportStage::Start && (event matches ExportEvent::Begin { clips } && clips > 0)),
        stage == ExportStage::Rendering && (event == ExportEvent::RunFailed || event == (ExportEvent::Exited { success: false }))
            ==> (export_next(stage, event).1 == ExportAction::RemoveOutputAndFail
                || export_next(stage, event).1 == ExportAction::RemoveOutputAndFailWithStderr),
{
}

} // verus!
