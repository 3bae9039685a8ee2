use vstd::prelude::*;
use vstd::string::*;

verus! {

/// Where the making of a playback proxy stands.
#[derive(Clone, Copy, Debug, PartialEq, Eq, Structural)]
pub enum ProxyStage {
    /// Nothing has run yet.
    Start,
    /// The hardware H.264 encoder is running.
    HardwareRun,
    /// The portable MPEG-4 encoder is running, after the hardware one failed.
    FallbackRun,
    /// The proxy is written, or the attempt has failed.
    Finished,
}

/// What happened since the last step.
#[derive(Clone, Copy, Debug, PartialEq, Eq, Structural)]
pub enum ProxyEvent {
    /// The caller starts the work.
    Begin,
    /// The encoder could not be run, or the job was cancelled around it.
    RunFailed,
    /// The encoder ran and exited, successfully or not.
    Exited { success: bool },
}

/// What the caller does next.
#[derive(Clone, Copy, Debug, PartialEq, Eq, Structural)]
pub enum ProxyAction {
    /// Report `proxy_progress(hardware)` on the job, then run the encoder
    /// with `proxy_arguments(source, output, hardware)`.
    Run { hardware: bool },
    /// Delete the partly written output and fail with the run's error.
    RemoveOutputAndFail,
    /// Fail with the encoder's error output, trimmed.
    FailWithStderr,
    /// The proxy is written: answer its path.
    Done,
    /// The event does not belong to this stage: nothing to do.
    Ignore,
}

/// The proxy workflow: the hardware encoder runs first; a run that cannot
/// be made removes the partial output and fails; a hardware run that exits
/// unsuccessfully falls back to the portable encoder once; a portable run
/// that exits unsuccessfully fails with its error output.
pub open spec fn proxy_next(stage: ProxyStage, event: ProxyEvent) -> (ProxyStage, ProxyAction) {
    match (stage, event) {
        (ProxyStage::Start, ProxyEvent::Begin) => (ProxyStage::HardwareRun, ProxyAction::Run { hardware: true }),
        (ProxyStage::HardwareRun, ProxyEvent::RunFailed) => (ProxyStage::Finished, ProxyAction::RemoveOutputAndFail),
        (ProxyStage::HardwareRun, ProxyEvent::Exited { success }) => if success {
            (ProxyStage::Finished, ProxyAction::Done)
        } else {
            (ProxyStage::FallbackRun, ProxyAction::Run { hardware: false })
        },
        (ProxyStage::FallbackRun, ProxyEvent::RunFailed) => (ProxyStage::Finished, ProxyAction::RemoveOutputAndFail),
        (ProxyStage::FallbackRun, ProxyEvent::Exited { success }) => if success {
            (ProxyStage::Finished, ProxyAction::Done)
        } else {
            (ProxyStage::Finished, ProxyAction::FailWithStderr)
        },
        _ => (stage, ProxyAction::Ignore),
    }
}

/// Takes one step of the proxy workflow; see `proxy_next`.
pub fn proxy_step(stage: ProxyStage, event: ProxyEvent) -> (r: (ProxyStage, ProxyAction))
    ensures
        r == proxy_next(stage, event),
{
    match (stage, event) {
        (ProxyStage::Start, ProxyEvent::Begin) => (ProxyStage::HardwareRun, ProxyAction::Run { hardware: true }),
        (ProxyStage::HardwareRun, ProxyEvent::RunFailed) => (ProxyStage::Finished, ProxyAction::RemoveOutputAndFail),
        (ProxyStage::HardwareRun, ProxyEvent::Exited { success }) => if success {
            (ProxyStage::Finished, ProxyAction::Done)
        } else {
            (ProxyStage::FallbackRun, ProxyAction::Run { hardware: false })
        },
        (ProxyStage::FallbackRun, ProxyEvent::RunFailed) => (ProxyStage::Finished, ProxyAction::RemoveOutputAndFail),
        (ProxyStage::FallbackRun, ProxyEvent::Exited { success }) => if success {
            (ProxyStage::Finished, ProxyAction::Done)
        } else {
            (ProxyStage::Finished, ProxyAction::FailWithStderr)
        },
        _ => (stage, ProxyAction::Ignore),
    }
}

/// The job message and fixed-point progress reported before a run.
pub open spec fn proxy_status(hardware: bool) -> (Seq<char>, int) {
    if hardware {
        ("Creating playback proxy"@, 100_000)
    } else {
        ("Using compatible proxy encoder"@, 450_000)
    }
}

/// The message and progress to report before a run; see `proxy_status`.
pub fn proxy_progress(hardware: bool) -> (r: (String, i64))
    ensures
        (r.0@, r.1 as int) == proxy_status(hardware),
{
    if hardware {
        (String::from_str("Creating playback proxy"), 100_000)
    } else {
        (String::from_str("Using compatible proxy encoder"), 450_000)
    }
}

/// The number of encoder runs a sequence of events starts from `stage`.
pub open spec fn proxy_runs(stage: ProxyStage, events: Seq<ProxyEvent>) -> nat
    decreases events.len(),
{
    if events.len() == 0 {
        0
    } else {
        let (next, action) = proxy_next(stage, events[0]);
        (if action is Run { 1nat } else { 0nat }) + proxy_runs(next, events.drop_first())
    }
}

/// The portable encoder runs only after the hardware encoder exited
/// unsuccessfully; a run that could not be made always removes the partial
/// output; once finished, the workflow does nothing more.
pub proof fn lemma_proxy_fallback(stage: ProxyStage, event: ProxyEvent)
    ensures
        proxy_next(stage, event).1 == (ProxyAction::Run { hardware: false })
            <==> (stage == ProxyStage::HardwareRun && event == (ProxyEvent::Exited { success: false })),
        event == ProxyEvent::RunFailed && (stage == ProxyStage::HardwareRun || stage == ProxyStage::FallbackRun)
            ==> proxy_next(stage, event) == (ProxyStage::Finished, ProxyAction::RemoveOutputAndFail),
        stage == ProxyStage::Finished ==> proxy_next(stage, event) == (ProxyStage::Finished, ProxyAction::Ignore),
{
}

/// Whatever events come, the workflow starts the encoder at most twice.
pub proof fn lemma_proxy_runs_at_most_twice(stage: ProxyStage, events: Seq<ProxyEvent>)
    ensures
        stage == ProxyStage::Start ==> proxy_runs(stage, events) <= 2,
        stage == ProxyStage::HardwareRun ==> proxy_runs(stage, events) <= 1,
        stage == ProxyStage::FallbackRun || stage == ProxyStage::Finished ==> proxy_runs(stage, events) == 0,
    decreases events.len(),
{
    if events.len() > 0 {
        lemma_proxy_runs_at_most_twice(proxy_next(stage, events[0]).0, events.drop_first());
    }
}

} // verus!
