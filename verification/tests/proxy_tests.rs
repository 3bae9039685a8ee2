use open_editor_lib::proxy::{proxy_progress, proxy_step, ProxyAction, ProxyEvent, ProxyStage};

#[test]
fn hardware_encoder_runs_first_and_its_success_finishes() {
    let (stage, action) = proxy_step(ProxyStage::Start, ProxyEvent::Begin);
    assert_eq!((stage, action), (ProxyStage::HardwareRun, ProxyAction::Run { hardware: true }));
    assert_eq!(proxy_step(stage, ProxyEvent::Exited { success: true }), (ProxyStage::Finished, ProxyAction::Done));
}

#[test]
fn failed_hardware_exit_falls_back_once() {
    let (stage, action) = proxy_step(ProxyStage::HardwareRun, ProxyEvent::Exited { success: false });
    assert_eq!((stage, action), (ProxyStage::FallbackRun, ProxyAction::Run { hardware: false }));
    assert_eq!(proxy_step(stage, ProxyEvent::Exited { success: true }), (ProxyStage::Finished, ProxyAction::Done));
    assert_eq!(proxy_step(stage, ProxyEvent::Exited { success: false }), (ProxyStage::Finished, ProxyAction::FailWithStderr));
}

#[test]
fn a_run_that_cannot_be_made_removes_the_output() {
    assert_eq!(proxy_step(ProxyStage::HardwareRun, ProxyEvent::RunFailed), (ProxyStage::Finished, ProxyAction::RemoveOutputAndFail));
    assert_eq!(proxy_step(ProxyStage::FallbackRun, ProxyEvent::RunFailed), (ProxyStage::Finished, ProxyAction::RemoveOutputAndFail));
    assert_eq!(proxy_step(ProxyStage::Finished, ProxyEvent::Begin), (ProxyStage::Finished, ProxyAction::Ignore));
}

#[test]
fn progress_reports_before_each_run() {
    assert_eq!(proxy_progress(true), ("Creating playback proxy".to_string(), 100_000));
    assert_eq!(proxy_progress(false), ("Using compatible proxy encoder".to_string(), 450_000));
}
