use open_editor_lib::render::{empty_export_message, export_status, export_step, ExportAction, ExportEvent, ExportStage};

#[test]
fn an_export_without_clips_is_refused_before_rendering() {
    assert_eq!(export_step(ExportStage::Start, ExportEvent::Begin { clips: 0 }), (ExportStage::Finished, ExportAction::RefuseEmpty));
    assert_eq!(empty_export_message(), "Add at least one video clip before exporting.");
}

#[test]
fn a_failed_render_removes_its_output() {
    let (stage, action) = export_step(ExportStage::Start, ExportEvent::Begin { clips: 2 });
    assert_eq!((stage, action), (ExportStage::Rendering, ExportAction::Run));
    assert_eq!(export_step(stage, ExportEvent::RunFailed), (ExportStage::Finished, ExportAction::RemoveOutputAndFail));
    assert_eq!(export_step(stage, ExportEvent::Exited { success: false }), (ExportStage::Finished, ExportAction::RemoveOutputAndFailWithStderr));
    assert_eq!(export_step(stage, ExportEvent::Exited { success: true }), (ExportStage::Finished, ExportAction::Done));
    assert_eq!(export_status(), ("Rendering video".to_string(), 50_000));
}
