use open_editor_lib::artifacts::{record_analysis, record_analysis_now, record_proxy, retain_artifacts};
use open_editor_lib::media::{relink_asset, MediaInspection};
use open_editor_lib::project::{AnalysisArtifact, MediaAsset, ProjectDocument};
use open_editor_lib::time::RationalTime;

fn asset(id: u128) -> MediaAsset {
    MediaAsset {
        id,
        name: "take.mov".into(),
        kind: "video".into(),
        path: "/m/take.mov".into(),
        duration: RationalTime { value: 600, timescale: 600 },
        width: Some(1920),
        height: Some(1080),
        status: "ready".into(),
        bookmark: None,
        color: None,
        thumbnail_path: None,
        waveform_path: None,
        codec: None,
        has_audio: Some(true),
        proxy_path: None,
    }
}

fn artifact(id: u128, asset_id: u128, kind: &str) -> AnalysisArtifact {
    AnalysisArtifact {
        id,
        asset_id,
        kind: kind.into(),
        status: "ready".into(),
        created_at: "t0".into(),
        paths: vec!["/a.jpg".into()],
        data: "[]".into(),
    }
}

fn project() -> ProjectDocument {
    let mut project = ProjectDocument::with_identifiers("Analysed".into(), 1, 2, [3, 4, 5, 6], "t0".into());
    project.media.push(asset(8));
    project.media.push(asset(9));
    project.analysis_artifacts = vec![
        artifact(20, 8, "scenes"),
        artifact(21, 9, "scenes"),
        artifact(22, 8, "transcript"),
        artifact(23, 8, "keyframes"),
    ];
    project
}

fn ids(project: &ProjectDocument) -> Vec<u128> {
    project.analysis_artifacts.iter().map(|a| a.id).collect()
}

#[test]
fn an_analysis_replaces_the_assets_earlier_analysis_records() {
    let recorded = record_analysis(project(), 8, [30, 31, 32], "[{\"value\":1,\"timescale\":600}]".into(), "[]".into(), vec!["/k/scene-0001.jpg".into()], "t1".into());
    assert_eq!(ids(&recorded), vec![21, 22, 30, 31, 32]);
    let scenes = &recorded.analysis_artifacts[2];
    assert_eq!((scenes.asset_id, scenes.kind.as_str(), scenes.status.as_str(), scenes.created_at.as_str()), (8, "scenes", "ready", "t1"));
    assert_eq!(scenes.data, "[{\"value\":1,\"timescale\":600}]");
    assert!(scenes.paths.is_empty());
    assert_eq!(recorded.analysis_artifacts[3].kind, "silence");
    let keyframes = &recorded.analysis_artifacts[4];
    assert_eq!((keyframes.kind.as_str(), keyframes.data.as_str()), ("keyframes", "null"));
    assert_eq!(keyframes.paths, vec!["/k/scene-0001.jpg".to_string()]);
    assert_eq!((recorded.revision, recorded.updated_at.as_str()), (1, "t1"));
}

#[test]
fn analyses_now_get_fresh_identifiers() {
    let recorded = record_analysis_now(project(), 9, "[]".into(), "[]".into(), Vec::new());
    assert_eq!(recorded.analysis_artifacts.len(), 6);
    for record in &recorded.analysis_artifacts[3..] {
        assert_eq!((record.id >> 76) & 0xf, 4);
        assert_eq!(record.asset_id, 9);
        assert!(record.created_at.ends_with("+00:00"));
    }
    assert_eq!(recorded.updated_at, recorded.analysis_artifacts[5].created_at);
}

#[test]
fn retaining_keeps_order() {
    let p = project();
    let all = retain_artifacts(&p.analysis_artifacts, 8, false);
    assert_eq!(all.iter().map(|a| a.id).collect::<Vec<_>>(), vec![21]);
    let analysis = retain_artifacts(&p.analysis_artifacts, 8, true);
    assert_eq!(analysis.iter().map(|a| a.id).collect::<Vec<_>>(), vec![21, 22]);
}

#[test]
fn proxies_are_recorded_and_relinking_clears_them() {
    let recorded = record_proxy(project(), 9, "/p/9.mp4".into(), "t2".into());
    assert_eq!(recorded.media[1].proxy_path.as_deref(), Some("/p/9.mp4"));
    assert_eq!(recorded.media[0].proxy_path, None);
    assert_eq!((recorded.revision, recorded.updated_at.as_str()), (1, "t2"));
    let inspection = MediaInspection {
        path: "/here/new.mov".into(),
        name: "new.mov".into(),
        kind: "video".into(),
        duration: RationalTime { value: 1200, timescale: 600 },
        width: Some(1280),
        height: Some(720),
        codec: None,
        has_audio: false,
        bookmark: None,
        thumbnail_path: None,
        waveform_path: None,
    };
    let relinked = relink_asset(recorded, 9, inspection, "t3".into()).unwrap();
    assert_eq!(relinked.media[1].proxy_path, None);
    assert_eq!(ids(&relinked), vec![20, 22, 23]);
    assert_eq!(relinked.revision, 2);
}
