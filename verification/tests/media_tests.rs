use open_editor_lib::command::{copy_asset};
use open_editor_lib::media::{
    inspection_duration, media_kind, pair_silence, proxy_arguments, relink_asset, relink_would_commit, scene_arguments, silence_arguments,
    token_after, MediaInspection, SilenceMark, SilenceRange,
};
use open_editor_lib::native::{create_security_bookmark, resolve_security_bookmark};
use open_editor_lib::project::{MediaAsset, ProjectDocument, ProjectError};
use open_editor_lib::time::RationalTime;

fn t(ticks: i64) -> RationalTime {
    RationalTime { value: ticks, timescale: 600 }
}

#[test]
fn kinds_of_probed_files() {
    assert_eq!(media_kind(true, true, "MP4").as_deref(), Some("video"));
    assert_eq!(media_kind(true, false, "JPG").as_deref(), Some("image"));
    assert_eq!(media_kind(true, false, "heic").as_deref(), Some("image"));
    assert_eq!(media_kind(false, true, "png").as_deref(), Some("audio"));
    assert_eq!(media_kind(false, false, "mov"), None);
    assert_eq!(inspection_duration(None, true), t(3000));
    assert_eq!(inspection_duration(None, false), t(0));
    assert_eq!(inspection_duration(Some(t(7)), true), t(7));
}

#[test]
fn silence_pairs() {
    let marks = vec![
        SilenceMark { start: None, end: Some(t(5)) },
        SilenceMark { start: Some(t(10)), end: None },
        SilenceMark { start: None, end: Some(t(20)) },
        SilenceMark { start: Some(t(30)), end: None },
        SilenceMark { start: Some(t(40)), end: Some(t(50)) },
        SilenceMark { start: Some(t(60)), end: None },
    ];
    assert_eq!(
        pair_silence(&marks),
        vec![SilenceRange { start: t(10), end: t(20) }, SilenceRange { start: t(40), end: t(50) }]
    );
}

#[test]
fn words_after_markers() {
    let line = "[Parsed_showinfo_1 @ 0x1] n:0 pts:1234 pts_time:2.0567 duration:1";
    assert_eq!(token_after(line, "pts_time:").as_deref(), Some("2.0567"));
    assert_eq!(token_after("[silencedetect] silence_end: 4.5 | silence_duration: 1", "silence_end:").as_deref(), Some("4.5"));
    assert_eq!(token_after("nothing here", "pts_time:"), None);
    assert_eq!(token_after("ends with pts_time:   ", "pts_time:"), None);
    assert_eq!(token_after("a:1 a:2", "a:").as_deref(), Some("1"));
}

#[test]
fn an_empty_marker_splits_between_characters() {
    for line in ["abc def", " x", "", "7"] {
        let expected = line.split("").nth(1).and_then(|piece| piece.split_whitespace().next());
        assert_eq!(token_after(line, "").as_deref(), expected);
    }
    assert_eq!(token_after("abc def", "").as_deref(), Some("a"));
}

#[test]
fn encoder_arguments() {
    let hw = proxy_arguments("/in.mov", "/out.mp4", true);
    assert_eq!(hw.len(), 19);
    assert_eq!(hw[5], "/in.mov");
    assert_eq!(hw[15], "h264_videotoolbox");
    assert_eq!(hw[18], "/out.mp4");
    let sw = proxy_arguments("/in.mov", "/out.mp4", false);
    assert_eq!(sw[15], "mpeg4");
    assert_eq!(sw[17], "4");
    let scene = scene_arguments("/in.mov", "/cache/scene-%04d.jpg");
    assert_eq!(scene[5], "select=gt(scene\\,0.32),showinfo,scale=480:-2");
    assert_eq!(scene.last().unwrap(), "/cache/scene-%04d.jpg");
    let silence = silence_arguments("/in.mov");
    assert_eq!(silence, vec!["-hide_banner", "-i", "/in.mov", "-af", "silencedetect=noise=-35dB:d=0.35", "-f", "null", "-"]);
}

#[test]
fn bookmarks_only_exist_on_macos() {
    assert_eq!(create_security_bookmark("/tmp/a.mov"), None);
    assert_eq!(resolve_security_bookmark("Ym9va21hcms="), None);
}

fn asset(id: u128) -> MediaAsset {
    MediaAsset {
        id,
        name: "old.mov".into(),
        kind: "video".into(),
        path: "/gone/old.mov".into(),
        duration: t(600),
        width: Some(1),
        height: Some(1),
        status: "missing".into(),
        bookmark: None,
        color: Some("#123456".into()),
        thumbnail_path: None,
        waveform_path: None,
        codec: None,
        has_audio: None,
        proxy_path: None,
    }
}

fn inspection(kind: &str) -> MediaInspection {
    MediaInspection {
        path: "/here/new.mov".into(),
        name: "new.mov".into(),
        kind: kind.into(),
        duration: t(1200),
        width: Some(1920),
        height: Some(1080),
        codec: Some("hevc".into()),
        has_audio: true,
        bookmark: None,
        thumbnail_path: Some("/t.jpg".into()),
        waveform_path: None,
    }
}

#[test]
fn relinking() {
    let mut project = ProjectDocument::new("Relink".into());
    project.media.push(asset(8));
    let relinked = relink_asset(project, 8, inspection("video"), "later".into()).unwrap();
    let a = &relinked.media[0];
    assert_eq!(a.path, "/here/new.mov");
    assert_eq!(a.status, "ready");
    assert_eq!(a.has_audio, Some(true));
    assert_eq!(a.color.as_deref(), Some("#123456"));
    assert_eq!(relinked.revision, 1);
    assert_eq!(relinked.updated_at, "later");

    let mut project = ProjectDocument::new("Relink".into());
    project.media.push(copy_asset(&asset(8)));
    match relink_asset(project, 8, inspection("audio"), "later".into()) {
        Err(ProjectError::Invalid(m)) => assert_eq!(m, "replacement must be video media"),
        other => panic!("unexpected {:?}", other),
    }
    let project = ProjectDocument::new("Relink".into());
    match relink_asset(project, 8, inspection("video"), "later".into()) {
        Err(ProjectError::Invalid(m)) => assert_eq!(m, "media asset does not exist"),
        other => panic!("unexpected {:?}", other),
    }
}

#[test]
fn relinks_at_a_full_revision_counter_are_only_the_refused_ones() {
    let mut project = ProjectDocument::new("Relink".into());
    project.media.push(asset(8));
    assert!(relink_would_commit(&project, 8, &"video".to_string()));
    assert!(!relink_would_commit(&project, 8, &"audio".to_string()));
    assert!(!relink_would_commit(&project, 9, &"video".to_string()));
    project.revision = u64::MAX;
    match relink_asset(project, 8, inspection("image"), "later".into()) {
        Err(ProjectError::Invalid(m)) => assert_eq!(m, "replacement must be video media"),
        other => panic!("unexpected {:?}", other),
    }
}
