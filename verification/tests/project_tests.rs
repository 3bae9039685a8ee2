use open_editor_lib::ids::fresh_id;
use open_editor_lib::project::{
    check_save, mark_missing, Clip, MediaAsset, ProjectDocument, ProjectError, Transform, AudioMix, CURRENT_SCHEMA_VERSION,
    FIXED_ONE,
};
use open_editor_lib::time::RationalTime;

fn asset(id: u128, kind: &str, duration: RationalTime) -> MediaAsset {
    MediaAsset {
        id,
        name: "clip.mp4".into(),
        kind: kind.into(),
        path: "/tmp/clip.mp4".into(),
        duration,
        width: Some(320),
        height: Some(180),
        status: "ready".into(),
        bookmark: None,
        color: None,
        thumbnail_path: None,
        waveform_path: None,
        codec: Some("h264".into()),
        has_audio: Some(false),
        proxy_path: None,
    }
}

fn clip(id: u128, asset_id: u128) -> Clip {
    Clip {
        id,
        asset_id,
        name: "clip.".into(),
        source_in: RationalTime { value: 0, timescale: 600 },
        source_out: RationalTime { value: 600, timescale: 600 },
        timeline_start: RationalTime { value: 0, timescale: 600 },
        playback_rate: FIXED_ONE,
        transform: Transform { x: 0, y: 0, scale: FIXED_ONE, rotation: 0, opacity: FIXED_ONE },
        audio: AudioMix {
            volume: FIXED_ONE,
            fade_in: RationalTime { value: 0, timescale: 600 },
            fade_out: RationalTime { value: 0, timescale: 600 },
            ducking: false,
        },
        color: "#6f7fc4".into(),
    }
}

fn invalid_text(r: Result<(), ProjectError>) -> String {
    match r {
        Err(ProjectError::Invalid(m)) => m,
        other => panic!("expected an invalid-project error, got {:?}", other),
    }
}

#[test]
fn rejects_invalid_timescale() {
    assert!(RationalTime { value: 10, timescale: 0 }.validate().is_err());
}

#[test]
fn accepts_positive_timescale_and_rejects_negative() {
    assert!(RationalTime { value: -5, timescale: 1 }.validate().is_ok());
    assert_eq!(
        invalid_text(RationalTime { value: 1, timescale: -600 }.validate()),
        "time timescale must be positive"
    );
}

#[test]
fn creates_a_valid_empty_project() {
    let project = ProjectDocument::new("First project".into());
    project.validate().unwrap();
    assert_eq!(project.sequences[0].tracks.len(), 4);
}

#[test]
fn new_project_layout() {
    let project = ProjectDocument::with_identifiers("Mine".into(), 1, 2, [3, 4, 5, 6], "2024-01-01T00:00:00+00:00".into());
    assert_eq!(project.schema_version, CURRENT_SCHEMA_VERSION);
    assert_eq!(project.revision, 0);
    assert_eq!(project.active_sequence_id, 2);
    let sequence = &project.sequences[0];
    assert_eq!(sequence.name, "Main sequence");
    assert_eq!((sequence.width, sequence.height), (1080, 1920));
    assert_eq!(sequence.frame_rate, RationalTime { value: 30, timescale: 1 });
    let kinds: Vec<&str> = sequence.tracks.iter().map(|t| t.kind.as_str()).collect();
    assert_eq!(kinds, vec!["video", "overlay", "caption", "audio"]);
    let names: Vec<&str> = sequence.tracks.iter().map(|t| t.name.as_str()).collect();
    assert_eq!(names, vec!["Video 1", "Overlay 1", "Captions", "Audio 1"]);
    assert_eq!(project.created_at, project.updated_at);
    assert!(!project.hosted_context_consent);
    project.validate().unwrap();
}

#[test]
fn new_project_with_repeated_identifier_is_invalid() {
    let project = ProjectDocument::with_identifiers("Mine".into(), 1, 2, [3, 3, 5, 6], "now".into());
    assert_eq!(invalid_text(project.validate()), "duplicate track identifier");
    let project = ProjectDocument::with_identifiers("Mine".into(), 2, 2, [3, 4, 5, 6], "now".into());
    assert_eq!(invalid_text(project.validate()), "duplicate sequence identifier");
}

#[test]
fn rejects_newer_schema() {
    let mut project = ProjectDocument::new("Future".into());
    project.schema_version = CURRENT_SCHEMA_VERSION + 1;
    match project.validate() {
        Err(ProjectError::UnsupportedSchema { found, supported }) => {
            assert_eq!(found, 2);
            assert_eq!(supported, 1);
        }
        other => panic!("unexpected {:?}", other),
    }
}

#[test]
fn rejects_missing_active_sequence() {
    let mut project = ProjectDocument::new("Lost".into());
    project.active_sequence_id = 77;
    assert_eq!(invalid_text(project.validate()), "active sequence does not exist");
}

#[test]
fn rejects_duplicate_media() {
    let mut project = ProjectDocument::new("Twice".into());
    let d = RationalTime { value: 600, timescale: 600 };
    project.media.push(asset(9, "video", d));
    project.media.push(asset(9, "audio", d));
    assert_eq!(invalid_text(project.validate()), "duplicate media identifier");
}

#[test]
fn rejects_media_of_unknown_kind_naming_it() {
    let mut project = ProjectDocument::new("Odd".into());
    project.media.push(asset(0x0123_4567_89ab_cdef_0123_4567_89ab_cdef, "text", RationalTime { value: 1, timescale: 1 }));
    assert_eq!(
        invalid_text(project.validate()),
        "media 01234567-89ab-cdef-0123-456789abcdef is invalid"
    );
}

#[test]
fn rejects_sequence_without_size() {
    let mut project = ProjectDocument::new("Flat".into());
    project.sequences[0].width = 0;
    assert_eq!(invalid_text(project.validate()), "sequence dimensions must be positive");
}

#[test]
fn rejects_track_of_unknown_kind() {
    let mut project = ProjectDocument::with_identifiers("Odd".into(), 1, 2, [3, 4, 5, 0xff], "now".into());
    project.sequences[0].tracks[3].kind = "music".into();
    assert_eq!(
        invalid_text(project.validate()),
        "track 00000000-0000-0000-0000-0000000000ff has invalid kind"
    );
}

#[test]
fn clip_checks() {
    let mut project = ProjectDocument::with_identifiers("Clips".into(), 1, 2, [3, 4, 5, 6], "now".into());
    project.media.push(asset(100, "video", RationalTime { value: 600, timescale: 600 }));
    project.sequences[0].tracks[0].clips.push(clip(10, 100));
    project.validate().unwrap();

    let mut unknown_media = project.clone_for_test();
    unknown_media.sequences[0].tracks[0].clips[0].asset_id = 101;
    assert_eq!(
        invalid_text(unknown_media.validate()),
        "clip 00000000-0000-0000-0000-00000000000a has invalid playback or opacity"
    );

    let mut empty_range = project.clone_for_test();
    empty_range.sequences[0].tracks[0].clips[0].source_out = RationalTime { value: 0, timescale: 1 };
    assert!(empty_range.validate().is_err());

    let mut loud = project.clone_for_test();
    loud.sequences[0].tracks[0].clips[0].audio.volume = 4 * FIXED_ONE + 1;
    assert!(loud.validate().is_err());

    let mut bad_scale = project.clone_for_test();
    bad_scale.sequences[0].tracks[0].clips[0].timeline_start.timescale = 0;
    assert_eq!(invalid_text(bad_scale.validate()), "time timescale must be positive");

    let mut repeated = project.clone_for_test();
    repeated.sequences[0].tracks[0].clips[0].id = 2;
    assert_eq!(invalid_text(repeated.validate()), "duplicate clip identifier");

    let mut shared = project.clone_for_test();
    shared.sequences[0].tracks[0].clips[0].id = 100;
    shared.validate().unwrap();
}

trait CloneForTest {
    fn clone_for_test(&self) -> Self;
}

impl CloneForTest for ProjectDocument {
    fn clone_for_test(&self) -> Self {
        let mut copy = ProjectDocument::with_identifiers(self.name.clone(), self.id, self.active_sequence_id, [0, 0, 0, 0], self.created_at.clone());
        copy.schema_version = self.schema_version;
        copy.revision = self.revision;
        copy.updated_at = self.updated_at.clone();
        copy.media = self.media.iter().map(open_editor_lib::command::copy_asset).collect();
        copy.sequences = self
            .sequences
            .iter()
            .map(|s| open_editor_lib::project::Sequence {
                id: s.id,
                name: s.name.clone(),
                width: s.width,
                height: s.height,
                frame_rate: s.frame_rate,
                tracks: s
                    .tracks
                    .iter()
                    .map(|t| open_editor_lib::project::Track {
                        id: t.id,
                        name: t.name.clone(),
                        kind: t.kind.clone(),
                        locked: t.locked,
                        muted: t.muted,
                        clips: t.clips.iter().map(open_editor_lib::command::copy_clip).collect(),
                    })
                    .collect(),
            })
            .collect();
        copy
    }
}

#[test]
fn fresh_identifiers_are_version_four() {
    let id = fresh_id();
    assert_eq!((id >> 76) & 0xf, 4);
    assert_ne!(fresh_id(), id);
}

#[test]
fn marks_absent_media_missing() {
    let mut project = ProjectDocument::new("Gone".into());
    let d = RationalTime { value: 600, timescale: 600 };
    project.media.push(asset(1, "video", d));
    project.media.push(asset(2, "audio", d));
    mark_missing(&mut project, &vec![true, false]);
    assert_eq!(project.media[0].status, "ready");
    assert_eq!(project.media[1].status, "missing");
    assert_eq!(project.media[1].kind, "audio");
}

#[test]
fn new_projects_get_version_four_identifiers() {
    let project = ProjectDocument::new("Fresh".into());
    assert_eq!((project.id >> 76) & 0xf, 4);
    assert_eq!((project.active_sequence_id >> 76) & 0xf, 4);
    for track in &project.sequences[0].tracks {
        assert_eq!((track.id >> 76) & 0xf, 4);
    }
}

#[test]
fn stale_and_conflicting_saves_are_refused() {
    let mut project = ProjectDocument::with_identifiers("Saved".into(), 1, 2, [3, 4, 5, 6], "t0".into());
    project.revision = 4;
    assert!(check_save(None, false, &project).is_ok());
    assert!(check_save(Some(3), false, &project).is_ok());
    assert!(check_save(Some(4), true, &project).is_ok());
    match check_save(Some(5), true, &project) {
        Err(ProjectError::Invalid(m)) => assert_eq!(m, "stale save: revision 4 is older than the saved revision 5"),
        other => panic!("unexpected {:?}", other),
    }
    match check_save(Some(4), false, &project) {
        Err(ProjectError::Invalid(m)) => assert_eq!(m, "conflicting save: the saved project differs at revision 4"),
        other => panic!("unexpected {:?}", other),
    }
}
