use vstd::prelude::*;
use vstd::string::*;

use crate::ids::{current_timestamp, fresh_id, is_v4};
use crate::text::{decimal, decimal_string};
use crate::time::RationalTime;

verus! {

/// Name of the project file inside a project folder.
pub const PROJECT_FILE: &'static str = "open-editor.project.json";

/// Newest schema version this build reads and writes.
pub const CURRENT_SCHEMA_VERSION: u32 = 1;

/// Fixed-point scale of the dimensionless quantities of a clip (playback
/// rate, opacity, volume and the transform): the number `1.0` is stored as
/// one million.
pub const FIXED_ONE: i64 = 1_000_000;

/// Why a project or a command was refused.
#[derive(Debug)]
pub enum ProjectError {
    NotFound,
    AlreadyExists,
    UnsupportedSchema { found: u32, supported: u32 },
    Invalid(String),
}

/// A refusal as the contracts speak of it.
pub enum ProjectErrorView {
    NotFound,
    AlreadyExists,
    UnsupportedSchema { found: u32, supported: u32 },
    Invalid(Seq<char>),
}

impl View for ProjectError {
    type V = ProjectErrorView;

    open spec fn view(&self) -> ProjectErrorView {
        match self {
            ProjectError::NotFound => ProjectErrorView::NotFound,
            ProjectError::AlreadyExists => ProjectErrorView::AlreadyExists,
            ProjectError::UnsupportedSchema { found, supported } => ProjectErrorView::UnsupportedSchema {
                found: *found,
                supported: *supported,
            },
            ProjectError::Invalid(s) => ProjectErrorView::Invalid(s@),
        }
    }
}

/// Placement of a clip on the canvas; every field is fixed-point (see `FIXED_ONE`).
#[derive(Clone, Copy, Debug, PartialEq, Eq, Structural)]
pub struct Transform {
    pub x: i64,
    pub y: i64,
    pub scale: i64,
    pub rotation: i64,
    pub opacity: i64,
}

/// Audio settings of a clip; `volume` is fixed-point (see `FIXED_ONE`).
#[derive(Clone, Copy, Debug, PartialEq, Eq, Structural)]
pub struct AudioMix {
    pub volume: i64,
    pub fade_in: RationalTime,
    pub fade_out: RationalTime,
    pub ducking: bool,
}

/// A stretch of one media asset placed on a track.
#[derive(Debug)]
pub struct Clip {
    pub id: u128,
    pub asset_id: u128,
    pub name: String,
    pub source_in: RationalTime,
    pub source_out: RationalTime,
    pub timeline_start: RationalTime,
    /// Fixed-point (see `FIXED_ONE`).
    pub playback_rate: i64,
    pub transform: Transform,
    pub audio: AudioMix,
    pub color: String,
}

#[verifier::ext_equal]
pub struct ClipView {
    pub id: u128,
    pub asset_id: u128,
    pub name: Seq<char>,
    pub source_in: RationalTime,
    pub source_out: RationalTime,
    pub timeline_start: RationalTime,
    pub playback_rate: i64,
    pub transform: Transform,
    pub audio: AudioMix,
    pub color: Seq<char>,
}

impl View for Clip {
    type V = ClipView;

    open spec fn view(&self) -> ClipView {
        ClipView {
            id: self.id,
            asset_id: self.asset_id,
            name: self.name@,
            source_in: self.source_in,
            source_out: self.source_out,
            timeline_start: self.timeline_start,
            playback_rate: self.playback_rate,
            transform: self.transform,
            audio: self.audio,
            color: self.color@,
        }
    }
}

pub open spec fn clip_views(clips: Seq<Clip>) -> Seq<ClipView> {
    clips.map_values(|c: Clip| c@)
}

#[derive(Debug)]
pub struct Track {
    pub id: u128,
    pub name: String,
    pub kind: String,
    pub locked: bool,
    pub muted: bool,
    pub clips: Vec<Clip>,
}

#[verifier::ext_equal]
pub struct TrackView {
    pub id: u128,
    pub name: Seq<char>,
    pub kind: Seq<char>,
    pub locked: bool,
    pub muted: bool,
    pub clips: Seq<ClipView>,
}

impl View for Track {
    type V = TrackView;

    open spec fn view(&self) -> TrackView {
        TrackView {
            id: self.id,
            name: self.name@,
            kind: self.kind@,
            locked: self.locked,
            muted: self.muted,
            clips: clip_views(self.clips@),
        }
    }
}

pub open spec fn track_views(tracks: Seq<Track>) -> Seq<TrackView> {
    tracks.map_values(|t: Track| t@)
}

#[derive(Debug)]
pub struct Sequence {
    pub id: u128,
    pub name: String,
    pub width: u32,
    pub height: u32,
    pub frame_rate: RationalTime,
    pub tracks: Vec<Track>,
}

#[verifier::ext_equal]
pub struct SequenceView {
    pub id: u128,
    pub name: Seq<char>,
    pub width: u32,
    pub height: u32,
    pub frame_rate: RationalTime,
    pub tracks: Seq<TrackView>,
}

impl View for Sequence {
    type V = SequenceView;

    open spec fn view(&self) -> SequenceView {
        SequenceView {
            id: self.id,
            name: self.name@,
            width: self.width,
            height: self.height,
            frame_rate: self.frame_rate,
            tracks: track_views(self.tracks@),
        }
    }
}

pub open spec fn sequence_views(sequences: Seq<Sequence>) -> Seq<SequenceView> {
    sequences.map_values(|s: Sequence| s@)
}

/// A media file the user approved for the project.
#[derive(Debug)]
pub struct MediaAsset {
    pub id: u128,
    pub name: String,
    pub kind: String,
    pub path: String,
    pub duration: RationalTime,
    pub width: Option<u32>,
    pub height: Option<u32>,
    pub status: String,
    pub bookmark: Option<String>,
    pub color: Option<String>,
    pub thumbnail_path: Option<String>,
    pub waveform_path: Option<String>,
    pub codec: Option<String>,
    pub has_audio: Option<bool>,
    /// The playback proxy made for the file, once there is one.
    pub proxy_path: Option<String>,
}

#[derive(Debug)]
pub struct ConversationRecord {
    pub id: u128,
    pub provider: String,
    pub title: String,
    pub external_thread_id: Option<String>,
    pub created_at: String,
    pub updated_at: String,
}

/// What local analysis of a media file produced: its scene changes, its
/// silences or its keyframe images. `data` is the JSON text of the
/// findings; `paths` lists the files written.
#[derive(Debug)]
pub struct AnalysisArtifact {
    pub id: u128,
    pub asset_id: u128,
    pub kind: String,
    pub status: String,
    pub created_at: String,
    pub paths: Vec<String>,
    pub data: String,
}

#[verifier::ext_equal]
pub struct AnalysisArtifactView {
    pub id: u128,
    pub asset_id: u128,
    pub kind: Seq<char>,
    pub status: Seq<char>,
    pub created_at: Seq<char>,
    pub paths: Seq<Seq<char>>,
    pub data: Seq<char>,
}

pub open spec fn path_views(v: Seq<String>) -> Seq<Seq<char>> {
    v.map_values(|s: String| s@)
}

impl View for AnalysisArtifact {
    type V = AnalysisArtifactView;

    open spec fn view(&self) -> AnalysisArtifactView {
        AnalysisArtifactView {
            id: self.id,
            asset_id: self.asset_id,
            kind: self.kind@,
            status: self.status@,
            created_at: self.created_at@,
            paths: path_views(self.paths@),
            data: self.data@,
        }
    }
}

pub open spec fn artifact_views(v: Seq<AnalysisArtifact>) -> Seq<AnalysisArtifactView> {
    v.map_values(|a: AnalysisArtifact| a@)
}

/// The whole project, as stored in the project file.
#[derive(Debug)]
pub struct ProjectDocument {
    pub schema_version: u32,
    pub id: u128,
    pub revision: u64,
    pub name: String,
    pub created_at: String,
    pub updated_at: String,
    pub media: Vec<MediaAsset>,
    pub sequences: Vec<Sequence>,
    pub active_sequence_id: u128,
    pub conversations: Vec<ConversationRecord>,
    pub hosted_context_consent: bool,
    pub analysis_artifacts: Vec<AnalysisArtifact>,
}

#[verifier::ext_equal]
pub struct ProjectView {
    pub schema_version: u32,
    pub id: u128,
    pub revision: u64,
    pub name: Seq<char>,
    pub created_at: Seq<char>,
    pub updated_at: Seq<char>,
    pub media: Seq<MediaAsset>,
    pub sequences: Seq<SequenceView>,
    pub active_sequence_id: u128,
    pub conversations: Seq<ConversationRecord>,
    pub hosted_context_consent: bool,
    pub analysis_artifacts: Seq<AnalysisArtifactView>,
}

impl View for ProjectDocument {
    type V = ProjectView;

    open spec fn view(&self) -> ProjectView {
        ProjectView {
            schema_version: self.schema_version,
            id: self.id,
            revision: self.revision,
            name: self.name@,
            created_at: self.created_at@,
            updated_at: self.updated_at@,
            media: self.media@,
            sequences: sequence_views(self.sequences@),
            active_sequence_id: self.active_sequence_id,
            conversations: self.conversations@,
            hosted_context_consent: self.hosted_context_consent,
            analysis_artifacts: artifact_views(self.analysis_artifacts@),
        }
    }
}

pub open spec fn empty_track(id: u128, name: Seq<char>, kind: Seq<char>) -> TrackView {
    TrackView { id, name, kind, locked: false, muted: false, clips: Seq::empty() }
}

/// The document a new project starts as: one vertical 1080x1920 sequence at
/// 30 frames per second with an empty video, overlay, caption and audio track.
pub open spec fn new_document(
    name: Seq<char>,
    project_id: u128,
    sequence_id: u128,
    track_ids: Seq<u128>,
    now: Seq<char>,
) -> ProjectView {
    ProjectView {
        schema_version: CURRENT_SCHEMA_VERSION,
        id: project_id,
        revision: 0,
        name,
        created_at: now,
        updated_at: now,
        media: Seq::empty(),
        sequences: seq![
            SequenceView {
                id: sequence_id,
                name: "Main sequence"@,
                width: 1080,
                height: 1920,
                frame_rate: RationalTime { value: 30, timescale: 1 },
                tracks: seq![
                    empty_track(track_ids[0], "Video 1"@, "video"@),
                    empty_track(track_ids[1], "Overlay 1"@, "overlay"@),
                    empty_track(track_ids[2], "Captions"@, "caption"@),
                    empty_track(track_ids[3], "Audio 1"@, "audio"@),
                ],
            },
        ],
        active_sequence_id: sequence_id,
        conversations: Seq::empty(),
        analysis_artifacts: Seq::empty(),
        hosted_context_consent: false,
    }
}

fn empty_track_of(id: u128, name: &str, kind: &str) -> (t: Track)
    ensures
        t@ == empty_track(id, name@, kind@),
{
    let t = Track {
        id,
        name: String::from_str(name),
        kind: String::from_str(kind),
        locked: false,
        muted: false,
        clips: Vec::new(),
    };
    assert(t@.clips =~= Seq::<ClipView>::empty());
    t
}

impl ProjectDocument {
    /// A new project with fresh identifiers, created now.
    pub fn new(name: String) -> (p: ProjectDocument)
        ensures
            exists|project_id: u128, sequence_id: u128, track_ids: Seq<u128>, now: Seq<char>| {
                &&& track_ids.len() == 4
                &&& is_v4(project_id) && is_v4(sequence_id)
                &&& forall|i: int| 0 <= i < 4 ==> is_v4(#[trigger] track_ids[i])
                &&& p@ == new_document(name@, project_id, sequence_id, track_ids, now)
            },
    {
        let now = current_timestamp();
        let sequence_id = fresh_id();
        let t0 = fresh_id();
        let t1 = fresh_id();
        let t2 = fresh_id();
        let t3 = fresh_id();
        let project_id = fresh_id();
        let ids = [t0, t1, t2, t3];
        assert(forall|i: int| 0 <= i < 4 ==> is_v4(#[trigger] ids@[i]));
        Self::with_identifiers(name, project_id, sequence_id, ids, now)
    }

    /// The new-project document built from the given identifiers and creation time.
    pub fn with_identifiers(
        name: String,
        project_id: u128,
        sequence_id: u128,
        track_ids: [u128; 4],
        now: String,
    ) -> (p: ProjectDocument)
        ensures
            p@ == new_document(name@, project_id, sequence_id, track_ids@, now@),
    {
        let mut tracks: Vec<Track> = Vec::new();
        tracks.push(empty_track_of(track_ids[0], "Video 1", "video"));
        tracks.push(empty_track_of(track_ids[1], "Overlay 1", "overlay"));
        tracks.push(empty_track_of(track_ids[2], "Captions", "caption"));
        tracks.push(empty_track_of(track_ids[3], "Audio 1", "audio"));
        let sequence = Sequence {
            id: sequence_id,
            name: String::from_str("Main sequence"),
            width: 1080,
            height: 1920,
            frame_rate: RationalTime { value: 30, timescale: 1 },
            tracks,
        };
        let mut sequences: Vec<Sequence> = Vec::new();
        sequences.push(sequence);
        let created_at = now.clone();
        let p = ProjectDocument {
            schema_version: CURRENT_SCHEMA_VERSION,
            id: project_id,
            revision: 0,
            name,
            created_at,
            updated_at: now,
            media: Vec::new(),
            sequences,
            active_sequence_id: sequence_id,
            conversations: Vec::new(),
            hosted_context_consent: false,
            analysis_artifacts: Vec::new(),
        };
        assert(p@.sequences[0].tracks =~= new_document(name@, project_id, sequence_id, track_ids@, now@).sequences[0].tracks);
        assert(p@.sequences =~= new_document(name@, project_id, sequence_id, track_ids@, now@).sequences);
        assert(p@.media =~= Seq::<MediaAsset>::empty());
        assert(p@.conversations =~= Seq::<ConversationRecord>::empty());
        assert(p@.analysis_artifacts =~= Seq::<AnalysisArtifactView>::empty());
        p
    }
}

} // verus!

verus! {

/// Marks as missing every media record whose file is absent (`present[j]`
/// tells whether the file of the `j`-th record exists); nothing else changes.
pub fn mark_missing(project: &mut ProjectDocument, present: &Vec<bool>)
    requires
        present@.len() == old(project).media@.len(),
    ensures
        final(project).media@.len() == old(project).media@.len(),
        forall|j: int| 0 <= j < present@.len() && present@[j] ==> final(project).media@[j] == old(project).media@[j],
        forall|j: int| 0 <= j < present@.len() && !present@[j] ==> {
            &&& crate::media::same_but_status(final(project).media@[j], old(project).media@[j])
            &&& final(project).media@[j].status@ == "missing"@
        },
        final(project)@ == (ProjectView { media: final(project)@.media, ..old(project)@ }),
{
    let mut i: usize = 0;
    while i < present.len()
        invariant
            0 <= i <= present.len(),
            present@.len() == old(project).media@.len(),
            project.media@.len() == old(project).media@.len(),
            forall|j: int| i <= j < present@.len() ==> project.media@[j] == old(project).media@[j],
            forall|j: int| 0 <= j < i && present@[j] ==> project.media@[j] == old(project).media@[j],
            forall|j: int| 0 <= j < i && !present@[j] ==> {
                &&& crate::media::same_but_status(project.media@[j], old(project).media@[j])
                &&& project.media@[j].status@ == "missing"@
            },
            project@ == (ProjectView { media: project@.media, ..old(project)@ }),
        decreases present.len() - i,
    {
        if !present[i] {
            project.media[i].status = String::from_str("missing");
        }
        i += 1;
    }
}

pub open spec fn msg_stale_save(revision: u64, saved: u64) -> Seq<char> {
    "stale save: revision "@ + decimal(revision as nat) + " is older than the saved revision "@ + decimal(saved as nat)
}

pub open spec fn msg_conflicting_save(revision: u64) -> Seq<char> {
    "conflicting save: the saved project differs at revision "@ + decimal(revision as nat)
}

/// Whether a save of a project at `revision` over the project file on disk
/// is refused: one older than the saved revision is stale, and one at the
/// saved revision with different contents conflicts. With no saved project
/// every save goes through.
pub open spec fn save_refusal(saved: Option<u64>, same_contents: bool, revision: u64) -> Option<ProjectErrorView> {
    match saved {
        None => None,
        Some(d) => if revision < d {
            Some(ProjectErrorView::Invalid(msg_stale_save(revision, d)))
        } else if revision == d && !same_contents {
            Some(ProjectErrorView::Invalid(msg_conflicting_save(revision)))
        } else {
            None
        },
    }
}

/// Checks a save against the saved revision; see `save_refusal`.
/// `same_contents` says whether the saved file already holds exactly this
/// project.
pub fn check_save(saved_revision: Option<u64>, same_contents: bool, project: &ProjectDocument) -> (r: Result<(), ProjectError>)
    ensures
        match save_refusal(saved_revision, same_contents, project.revision) {
            None => r is Ok,
            Some(e) => r matches Err(x) && x@ == e,
        },
{
    match saved_revision {
        None => Ok(()),
        Some(d) => {
            if project.revision < d {
                let mut m = String::from_str("stale save: revision ");
                let a = decimal_string(project.revision);
                m.append(a.as_str());
                m.append(" is older than the saved revision ");
                let b = decimal_string(d);
                m.append(b.as_str());
                Err(ProjectError::Invalid(m))
            } else if project.revision == d && !same_contents {
                let mut m = String::from_str("conflicting save: the saved project differs at revision ");
                let a = decimal_string(project.revision);
                m.append(a.as_str());
                Err(ProjectError::Invalid(m))
            } else {
                Ok(())
            }
        },
    }
}

} // verus!
