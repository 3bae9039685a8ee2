use open_editor_lib::command::{check_envelope, dispatch, dispatch_with, refusal_before_commit, CommandEnvelope, CommandResult, EditorCommand};
use open_editor_lib::ids::fresh_id;
use open_editor_lib::project::{MediaAsset, ProjectDocument, ProjectError, FIXED_ONE};
use open_editor_lib::time::RationalTime;

fn from_seconds(seconds: i64) -> RationalTime {
    RationalTime { value: seconds * 600, timescale: 600 }
}

fn asset(id: u128, name: &str, seconds: i64) -> MediaAsset {
    MediaAsset {
        id,
        name: name.into(),
        kind: "video".into(),
        path: format!("/tmp/{name}"),
        duration: from_seconds(seconds),
        width: Some(320),
        height: Some(180),
        status: "ready".into(),
        bookmark: None,
        color: None,
        thumbnail_path: None,
        waveform_path: None,
        codec: Some("h264".into()),
        has_audio: Some(false),
        proxy_path: None,
    }
}

fn envelope(project: &ProjectDocument, source: &str, payload: EditorCommand) -> CommandEnvelope {
    CommandEnvelope {
        command_id: fresh_id(),
        project_id: project.id,
        source: source.into(),
        conversation_id: None,
        batch_id: fresh_id(),
        expected_project_revision: project.revision,
        payload,
    }
}

fn message(r: Result<CommandResult, ProjectError>) -> String {
    match r {
        Err(ProjectError::Invalid(m)) => m,
        Err(other) => panic!("unexpected error {:?}", other),
        Ok(_) => panic!("command was accepted"),
    }
}

/// A project with one ten-second video on its first track, as clip 500.
fn project_with_clip() -> ProjectDocument {
    let project = ProjectDocument::with_identifiers("Edit".into(), 1, 2, [3, 4, 5, 6], "t0".into());
    let add = envelope(&project, "manual", EditorCommand::AddMedia { asset: Box::new(asset(100, "beach.take2.mp4", 10)) });
    let project = dispatch_with(project, &add, 999, "t1".into()).unwrap().project;
    let place = envelope(&project, "manual", EditorCommand::AddClip { track_id: 3, asset_id: 100, timeline_start: from_seconds(0) });
    dispatch_with(project, &place, 500, "t2".into()).unwrap().project
}

#[test]
fn rejects_stale_provider_commands() {
    let project = ProjectDocument::new("Test".into());
    let envelope = CommandEnvelope {
        command_id: fresh_id(),
        project_id: project.id,
        source: "codex".into(),
        conversation_id: None,
        batch_id: fresh_id(),
        expected_project_revision: 99,
        payload: EditorCommand::RemoveMedia { asset_id: fresh_id() },
    };
    assert!(dispatch(project, &envelope).is_err());
}

#[test]
fn manual_import_uses_the_dispatcher() {
    let source = "manual";
    let project = ProjectDocument::new("Test".into());
    let asset_id = fresh_id();
    let asset = MediaAsset {
        id: asset_id,
        name: "clip.mp4".into(),
        kind: "video".into(),
        path: "/tmp/clip.mp4".into(),
        duration: from_seconds(1),
        width: Some(320),
        height: Some(180),
        status: "ready".into(),
        bookmark: None,
        color: None,
        thumbnail_path: None,
        waveform_path: None,
        codec: Some("h264".into()),
        has_audio: Some(false),
        proxy_path: None,
    };
    let envelope = CommandEnvelope {
        command_id: fresh_id(),
        project_id: project.id,
        source: source.into(),
        conversation_id: None,
        batch_id: fresh_id(),
        expected_project_revision: 0,
        payload: EditorCommand::AddMedia { asset: Box::new(asset) },
    };
    let result = dispatch(project, &envelope).unwrap();
    assert_eq!(result.project.media[0].id, asset_id);
}

#[test]
fn providers_cannot_expand_approved_media_scope() {
    let project = ProjectDocument::new("Test".into());
    let asset = MediaAsset {
        id: fresh_id(),
        name: "outside.mp4".into(),
        kind: "video".into(),
        path: "/tmp/outside.mp4".into(),
        duration: from_seconds(1),
        width: None,
        height: None,
        status: "ready".into(),
        bookmark: None,
        color: None,
        thumbnail_path: None,
        waveform_path: None,
        codec: None,
        has_audio: None,
        proxy_path: None,
    };
    let envelope = CommandEnvelope {
        command_id: fresh_id(),
        project_id: project.id,
        source: "codex".into(),
        conversation_id: None,
        batch_id: fresh_id(),
        expected_project_revision: 0,
        payload: EditorCommand::AddMedia { asset: Box::new(asset) },
    };
    assert!(dispatch(project, &envelope).is_err());
}

#[test]
fn stale_and_foreign_commands_say_why() {
    let project = ProjectDocument::new("Test".into());
    let mut stale = envelope(&project, "manual", EditorCommand::RemoveMedia { asset_id: 1 });
    stale.expected_project_revision = 99;
    assert_eq!(message(dispatch(project, &stale)), "stale revision: expected 99, current 0");

    let project = ProjectDocument::new("Test".into());
    let mut foreign = envelope(&project, "manual", EditorCommand::RemoveMedia { asset_id: 1 });
    foreign.project_id = project.id ^ 1;
    assert_eq!(message(dispatch(project, &foreign)), "command targets a different project");

    let project = ProjectDocument::new("Test".into());
    let unknown = envelope(&project, "robot", EditorCommand::RemoveMedia { asset_id: 1 });
    assert_eq!(message(dispatch(project, &unknown)), "invalid command source");

    let project = ProjectDocument::new("Test".into());
    let removal = envelope(&project, "ollama", EditorCommand::RemoveMedia { asset_id: 1 });
    assert_eq!(message(dispatch(project, &removal)), "providers cannot change the project's approved media scope");
}

#[test]
fn add_clip_builds_the_clip() {
    let project = project_with_clip();
    assert_eq!(project.revision, 2);
    assert_eq!(project.updated_at, "t2");
    let clip = &project.sequences[0].tracks[0].clips[0];
    assert_eq!(clip.id, 500);
    assert_eq!(clip.asset_id, 100);
    assert_eq!(clip.name, "beach.take2.");
    assert_eq!(clip.source_in, RationalTime { value: 0, timescale: 600 });
    assert_eq!(clip.source_out, from_seconds(10));
    assert_eq!(clip.playback_rate, FIXED_ONE);
    assert_eq!(clip.transform.opacity, FIXED_ONE);
    assert_eq!(clip.audio.volume, FIXED_ONE);
    assert_eq!(clip.color, "#6f7fc4");
}

#[test]
fn add_clip_of_timeless_media_lasts_five_seconds() {
    let project = ProjectDocument::with_identifiers("Still".into(), 1, 2, [3, 4, 5, 6], "t0".into());
    let mut still = asset(100, "poster", 0);
    still.kind = "image".into();
    still.color = Some("#ffffff".into());
    let add = envelope(&project, "manual", EditorCommand::AddMedia { asset: Box::new(still) });
    let project = dispatch_with(project, &add, 1, "t1".into()).unwrap().project;
    let place = envelope(&project, "codex", EditorCommand::AddClip { track_id: 4, asset_id: 100, timeline_start: from_seconds(2) });
    let result = dispatch_with(project, &place, 501, "t2".into()).unwrap();
    assert_eq!(result.affected_entity_ids, vec![501]);
    let clip = &result.project.sequences[0].tracks[1].clips[0];
    assert_eq!(clip.source_out, RationalTime { value: 3000, timescale: 600 });
    assert_eq!(clip.name, "");
    assert_eq!(clip.color, "#ffffff");
}

#[test]
fn add_clip_errors() {
    let project = project_with_clip();
    let missing = envelope(&project, "manual", EditorCommand::AddClip { track_id: 3, asset_id: 7, timeline_start: from_seconds(0) });
    assert_eq!(message(dispatch_with(project, &missing, 1, "t".into())), "media does not exist");

    let project = project_with_clip();
    let no_track = envelope(&project, "manual", EditorCommand::AddClip { track_id: 77, asset_id: 100, timeline_start: from_seconds(0) });
    assert_eq!(message(dispatch_with(project, &no_track, 1, "t".into())), "track does not exist");

    let mut project = project_with_clip();
    project.sequences[0].tracks[0].locked = true;
    let locked = envelope(&project, "manual", EditorCommand::AddClip { track_id: 3, asset_id: 100, timeline_start: from_seconds(0) });
    assert_eq!(message(dispatch_with(project, &locked, 1, "t".into())), "track is locked");

    let project = project_with_clip();
    let clash = envelope(&project, "manual", EditorCommand::AddClip { track_id: 3, asset_id: 100, timeline_start: from_seconds(0) });
    assert_eq!(message(dispatch_with(project, &clash, 500, "t".into())), "duplicate clip identifier");
}

#[test]
fn media_in_use_stays() {
    let project = project_with_clip();
    let remove = envelope(&project, "manual", EditorCommand::RemoveMedia { asset_id: 100 });
    assert_eq!(message(dispatch_with(project, &remove, 1, "t".into())), "media is in use");

    let project = project_with_clip();
    let add = envelope(&project, "manual", EditorCommand::AddMedia { asset: Box::new(asset(100, "again.mp4", 1)) });
    assert_eq!(message(dispatch_with(project, &add, 1, "t".into())), "media identifier already exists");
}

#[test]
fn import_then_removal_restores_media() {
    let project = project_with_clip();
    let add = envelope(&project, "manual", EditorCommand::AddMedia { asset: Box::new(asset(200, "b.mp4", 3)) });
    let project = dispatch_with(project, &add, 1, "t3".into()).unwrap().project;
    assert_eq!(project.media.len(), 2);
    let remove = envelope(&project, "manual", EditorCommand::RemoveMedia { asset_id: 200 });
    let result = dispatch_with(project, &remove, 1, "t4".into()).unwrap();
    assert_eq!(result.affected_entity_ids, vec![200]);
    assert_eq!(result.project.media.len(), 1);
    assert_eq!(result.project.media[0].id, 100);
    assert_eq!(result.new_project_revision, 4);
}

#[test]
fn move_and_move_back() {
    let project = project_with_clip();
    let forward = envelope(&project, "codex", EditorCommand::MoveClip { track_id: 3, clip_id: 500, timeline_start: from_seconds(7) });
    let project = dispatch_with(project, &forward, 1, "t3".into()).unwrap().project;
    assert_eq!(project.sequences[0].tracks[0].clips[0].timeline_start, from_seconds(7));
    let back = envelope(&project, "codex", EditorCommand::MoveClip { track_id: 3, clip_id: 500, timeline_start: from_seconds(0) });
    let project = dispatch_with(project, &back, 1, "t4".into()).unwrap().project;
    assert_eq!(project.sequences[0].tracks[0].clips[0].timeline_start, from_seconds(0));
    assert_eq!(project.revision, 4);

    let before = envelope(&project, "manual", EditorCommand::MoveClip { track_id: 3, clip_id: 500, timeline_start: RationalTime { value: -1, timescale: 600 } });
    assert_eq!(message(dispatch_with(project, &before, 1, "t".into())), "clip cannot start before timeline");

    let project = project_with_clip();
    let nowhere = envelope(&project, "manual", EditorCommand::MoveClip { track_id: 3, clip_id: 77, timeline_start: from_seconds(1) });
    assert_eq!(message(dispatch_with(project, &nowhere, 1, "t".into())), "clip does not exist");
}

#[test]
fn trim_checks_order() {
    let project = project_with_clip();
    let trim = envelope(&project, "manual", EditorCommand::TrimClip { track_id: 3, clip_id: 500, source_in: from_seconds(1), source_out: RationalTime { value: 3, timescale: 1 } });
    let project = dispatch_with(project, &trim, 1, "t".into()).unwrap().project;
    let clip = &project.sequences[0].tracks[0].clips[0];
    assert_eq!(clip.source_in, from_seconds(1));
    assert_eq!(clip.source_out, RationalTime { value: 3, timescale: 1 });

    let backwards = envelope(&project, "manual", EditorCommand::TrimClip { track_id: 3, clip_id: 500, source_in: from_seconds(2), source_out: RationalTime { value: 2, timescale: 1 } });
    assert_eq!(message(dispatch_with(project, &backwards, 1, "t".into())), "trim end must follow trim start");

    let project = project_with_clip();
    let infinite_start = envelope(&project, "manual", EditorCommand::TrimClip { track_id: 3, clip_id: 500, source_in: RationalTime { value: 1, timescale: 0 }, source_out: from_seconds(2) });
    assert_eq!(message(dispatch_with(project, &infinite_start, 1, "t".into())), "trim end must follow trim start");
}

#[test]
fn split_in_the_middle() {
    let project = project_with_clip();
    let split = envelope(&project, "manual", EditorCommand::SplitClip { track_id: 3, clip_id: 500, at: from_seconds(4) });
    let result = dispatch_with(project, &split, 501, "t3".into()).unwrap();
    assert_eq!(result.affected_entity_ids, vec![500, 501]);
    let clips = &result.project.sequences[0].tracks[0].clips;
    assert_eq!(clips.len(), 2);
    assert_eq!(clips[0].id, 500);
    assert_eq!(clips[0].source_out, RationalTime { value: 2400, timescale: 600 });
    assert_eq!(clips[1].id, 501);
    assert_eq!(clips[1].name, "beach.take2. B");
    assert_eq!(clips[1].source_in, RationalTime { value: 2400, timescale: 600 });
    assert_eq!(clips[1].source_out, from_seconds(10));
    assert_eq!(clips[1].timeline_start, from_seconds(4));
}

#[test]
fn split_honours_rate_and_rounds() {
    let project = project_with_clip();
    let faster = envelope(&project, "manual", EditorCommand::ChangeSpeed { track_id: 3, clip_id: 500, playback_rate: 2 * FIXED_ONE });
    let project = dispatch_with(project, &faster, 1, "t".into()).unwrap().project;
    let split = envelope(&project, "manual", EditorCommand::SplitClip { track_id: 3, clip_id: 500, at: RationalTime { value: 1, timescale: 3 } });
    let project = dispatch_with(project, &split, 502, "t".into()).unwrap().project;
    let clips = &project.sequences[0].tracks[0].clips;
    assert_eq!(clips[0].source_out, RationalTime { value: 400, timescale: 600 });
    assert_eq!(clips[1].source_in, RationalTime { value: 400, timescale: 600 });

    let late = envelope(&project, "manual", EditorCommand::SplitClip { track_id: 3, clip_id: 500, at: RationalTime { value: 5, timescale: 1 } });
    assert_eq!(message(dispatch_with(project, &late, 503, "t".into())), "split point must be inside clip");
}

#[test]
fn split_near_edges_is_refused() {
    let project = project_with_clip();
    let early = envelope(&project, "manual", EditorCommand::SplitClip { track_id: 3, clip_id: 500, at: RationalTime { value: 1, timescale: 30 } });
    assert_eq!(message(dispatch_with(project, &early, 501, "t".into())), "split point must be inside clip");
    let project = project_with_clip();
    let late = envelope(&project, "manual", EditorCommand::SplitClip { track_id: 3, clip_id: 500, at: RationalTime { value: 299, timescale: 30 } });
    assert_eq!(message(dispatch_with(project, &late, 501, "t".into())), "split point must be inside clip");
    let project = project_with_clip();
    let just_inside = envelope(&project, "manual", EditorCommand::SplitClip { track_id: 3, clip_id: 500, at: RationalTime { value: 2, timescale: 30 } });
    assert!(dispatch_with(project, &just_inside, 501, "t".into()).is_ok());
    let project = project_with_clip();
    let huge = envelope(&project, "manual", EditorCommand::SplitClip { track_id: 3, clip_id: 500, at: RationalTime { value: i64::MAX, timescale: i32::MAX } });
    assert!(dispatch_with(project, &huge, 501, "t".into()).is_err());
}

#[test]
fn duplicate_appends_a_copy() {
    let project = project_with_clip();
    let dup = envelope(&project, "manual", EditorCommand::DuplicateClip { track_id: 3, clip_id: 500, timeline_start: from_seconds(10) });
    let result = dispatch_with(project, &dup, 600, "t".into()).unwrap();
    assert_eq!(result.affected_entity_ids, vec![600]);
    let clips = &result.project.sequences[0].tracks[0].clips;
    assert_eq!(clips[1].id, 600);
    assert_eq!(clips[1].name, "beach.take2. copy");
    assert_eq!(clips[1].timeline_start, from_seconds(10));
    assert_eq!(clips[1].source_out, clips[0].source_out);
}

#[test]
fn remove_clip_removes_it() {
    let project = project_with_clip();
    let remove = envelope(&project, "codex", EditorCommand::RemoveClip { track_id: 3, clip_id: 500 });
    let result = dispatch_with(project, &remove, 1, "t".into()).unwrap();
    assert!(result.project.sequences[0].tracks[0].clips.is_empty());
    assert_eq!(result.affected_entity_ids, vec![500]);
}

#[test]
fn ranges_of_speed_opacity_volume() {
    let cases: Vec<(EditorCommand, Option<&str>)> = vec![
        (EditorCommand::ChangeSpeed { track_id: 3, clip_id: 500, playback_rate: FIXED_ONE / 10 }, None),
        (EditorCommand::ChangeSpeed { track_id: 3, clip_id: 500, playback_rate: FIXED_ONE / 10 - 1 }, Some("speed must be between 0.1 and 8")),
        (EditorCommand::ChangeSpeed { track_id: 3, clip_id: 500, playback_rate: 8 * FIXED_ONE + 1 }, Some("speed must be between 0.1 and 8")),
        (EditorCommand::SetOpacity { track_id: 3, clip_id: 500, opacity: 0 }, None),
        (EditorCommand::SetOpacity { track_id: 3, clip_id: 500, opacity: FIXED_ONE + 1 }, Some("opacity must be between 0 and 1")),
        (EditorCommand::SetVolume { track_id: 3, clip_id: 500, volume: 4 * FIXED_ONE }, None),
        (EditorCommand::SetVolume { track_id: 3, clip_id: 500, volume: -1 }, Some("volume must be between 0 and 4")),
    ];
    for (payload, expected) in cases {
        let project = project_with_clip();
        let env = envelope(&project, "ollama", payload);
        let r = dispatch_with(project, &env, 1, "t".into());
        match expected {
            None => {
                assert!(r.is_ok());
            }
            Some(m) => assert_eq!(message(r), m),
        }
    }
    let project = project_with_clip();
    let env = envelope(&project, "ollama", EditorCommand::SetOpacity { track_id: 3, clip_id: 500, opacity: FIXED_ONE / 2 });
    let project = dispatch_with(project, &env, 1, "t".into()).unwrap().project;
    assert_eq!(project.sequences[0].tracks[0].clips[0].transform.opacity, FIXED_ONE / 2);
}

#[test]
fn provider_commands_keep_media() {
    let project = project_with_clip();
    let media_before = project.media.len();
    let env = envelope(&project, "codex", EditorCommand::DuplicateClip { track_id: 3, clip_id: 500, timeline_start: from_seconds(1) });
    let result = dispatch_with(project, &env, 9, "t".into()).unwrap();
    assert_eq!(result.project.media.len(), media_before);
    assert_eq!(result.project.media[0].id, 100);
    result.project.validate().unwrap();
}

#[test]
fn duplicate_then_removal_restores_the_track() {
    let project = project_with_clip();
    let dup = envelope(&project, "codex", EditorCommand::DuplicateClip { track_id: 3, clip_id: 500, timeline_start: from_seconds(12) });
    let project = dispatch_with(project, &dup, 777, "t3".into()).unwrap().project;
    assert_eq!(project.sequences[0].tracks[0].clips.len(), 2);
    let remove = envelope(&project, "codex", EditorCommand::RemoveClip { track_id: 3, clip_id: 777 });
    let project = dispatch_with(project, &remove, 1, "t4".into()).unwrap().project;
    let clips = &project.sequences[0].tracks[0].clips;
    assert_eq!(clips.len(), 1);
    assert_eq!(clips[0].id, 500);
    assert_eq!(clips[0].timeline_start, from_seconds(0));
}

#[test]
fn commands_on_another_sequence_state() {
    let mut project = project_with_clip();
    project.active_sequence_id = 42;
    let env = envelope(&project, "manual", EditorCommand::RemoveClip { track_id: 3, clip_id: 500 });
    assert_eq!(message(dispatch_with(project, &env, 1, "t".into())), "active sequence does not exist");
}

#[test]
fn split_beyond_exact_range_is_refused() {
    let mut project = project_with_clip();
    let clip = &mut project.sequences[0].tracks[0].clips[0];
    clip.source_in = RationalTime { value: 0, timescale: i32::MAX };
    clip.source_out = RationalTime { value: 10 * i32::MAX as i64, timescale: i32::MAX };
    let split = envelope(&project, "manual", EditorCommand::SplitClip { track_id: 3, clip_id: 500, at: RationalTime { value: i64::MAX, timescale: 1 } });
    assert_eq!(message(dispatch_with(project, &split, 501, "t".into())), "split point is outside the supported numeric range");
}

#[test]
fn a_full_revision_counter_admits_only_refused_commands() {
    let mut project = project_with_clip();
    project.revision = u64::MAX;
    let stale = CommandEnvelope { expected_project_revision: 3, ..envelope(&project, "manual", EditorCommand::RemoveClip { track_id: 3, clip_id: 500 }) };
    match check_envelope(&project, &stale) {
        Some(ProjectError::Invalid(m)) => assert_eq!(m, format!("stale revision: expected 3, current {}", u64::MAX)),
        other => panic!("unexpected {:?}", other),
    }
    let missing = envelope(&project, "manual", EditorCommand::MoveClip { track_id: 3, clip_id: 777, timeline_start: from_seconds(1) });
    match refusal_before_commit(project, &missing) {
        Some(ProjectError::Invalid(m)) => assert_eq!(m, "clip does not exist"),
        other => panic!("unexpected {:?}", other),
    }
    let mut project = project_with_clip();
    project.revision = u64::MAX;
    let missing = envelope(&project, "manual", EditorCommand::MoveClip { track_id: 3, clip_id: 777, timeline_start: from_seconds(1) });
    assert_eq!(message(dispatch(project, &missing)), "clip does not exist");
    let mut project = project_with_clip();
    project.revision = u64::MAX;
    let fine = envelope(&project, "manual", EditorCommand::RemoveClip { track_id: 3, clip_id: 500 });
    assert!(refusal_before_commit(project, &fine).is_none());
}

#[test]
fn split_points_with_negative_timescales_read_as_their_quotient() {
    let project = project_with_clip();
    let flipped = envelope(&project, "manual", EditorCommand::SplitClip { track_id: 3, clip_id: 500, at: RationalTime { value: -1800, timescale: -600 } });
    assert_eq!(message(dispatch_with(project, &flipped, 501, "t3".into())), "time timescale must be positive");
    let project = project_with_clip();
    let before = envelope(&project, "manual", EditorCommand::SplitClip { track_id: 3, clip_id: 500, at: RationalTime { value: 1800, timescale: -600 } });
    assert_eq!(message(dispatch_with(project, &before, 501, "t3".into())), "split point must be inside clip");
    let project = project_with_clip();
    let unbounded = envelope(&project, "manual", EditorCommand::SplitClip { track_id: 3, clip_id: 500, at: RationalTime { value: 5, timescale: 0 } });
    assert_eq!(message(dispatch_with(project, &unbounded, 501, "t3".into())), "split point must be inside clip");
}

#[test]
fn a_split_at_zero_over_zero_fails_validation_like_a_cut_at_the_start() {
    let project = project_with_clip();
    let nothing = envelope(&project, "manual", EditorCommand::SplitClip { track_id: 3, clip_id: 500, at: RationalTime { value: 0, timescale: 0 } });
    assert_eq!(message(dispatch_with(project, &nothing, 501, "t3".into())), "clip 00000000-0000-0000-0000-0000000001f4 has invalid playback or opacity");
}
