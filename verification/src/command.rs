use vstd::prelude::*;
use vstd::string::*;

use crate::ids::{is_v4, utc_stamp};
use crate::lookup::{drop_id, find_id, lemma_find_id, lemma_find_id_at, lemma_find_id_none, Keyed};
use crate::project::{
    clip_views, sequence_views, track_views, AudioMix, Clip, ClipView, MediaAsset, ProjectDocument,
    ProjectError, ProjectErrorView, ProjectView, Sequence, SequenceView, Track, TrackView, Transform,
    FIXED_ONE,
};
use crate::split::{split_plan, split_source};
use crate::text::{decimal, decimal_string, text_eq, through_last_dot, trim_after_last_dot};
use crate::time::{at_ticks, extended_le, from_ticks, is_positive, seconds_le, RationalTime};
use crate::validation::{invalid, msg_active_missing, unit_view, validation};

verus! {

/// A request to change a project: who sends it, which project and
/// revision it was written against, and the edit itself.
#[derive(Debug)]
pub struct CommandEnvelope {
    pub command_id: u128,
    pub project_id: u128,
    /// `manual`, `codex` or `ollama`.
    pub source: String,
    pub conversation_id: Option<u128>,
    pub batch_id: u128,
    pub expected_project_revision: u64,
    pub payload: EditorCommand,
}

/// The edits a command can make. Rates, opacity and volume are
/// fixed-point (see `FIXED_ONE`).
#[derive(Debug)]
pub enum EditorCommand {
    AddMedia { asset: Box<MediaAsset> },
    RemoveMedia { asset_id: u128 },
    AddClip { track_id: u128, asset_id: u128, timeline_start: RationalTime },
    RemoveClip { track_id: u128, clip_id: u128 },
    MoveClip { track_id: u128, clip_id: u128, timeline_start: RationalTime },
    TrimClip { track_id: u128, clip_id: u128, source_in: RationalTime, source_out: RationalTime },
    SplitClip { track_id: u128, clip_id: u128, at: RationalTime },
    DuplicateClip { track_id: u128, clip_id: u128, timeline_start: RationalTime },
    ChangeSpeed { track_id: u128, clip_id: u128, playback_rate: i64 },
    SetOpacity { track_id: u128, clip_id: u128, opacity: i64 },
    SetVolume { track_id: u128, clip_id: u128, volume: i64 },
}

/// What an accepted command produced.
#[derive(Debug)]
pub struct CommandResult {
    pub new_project_revision: u64,
    pub affected_entity_ids: Vec<u128>,
    pub project: ProjectDocument,
    pub warnings: Vec<String>,
}

/// A change to one field group of a clip.
#[derive(Clone, Copy, Debug)]
pub enum ClipEdit {
    Start(RationalTime),
    Trim(RationalTime, RationalTime),
    Rate(i64),
    Opacity(i64),
    Volume(i64),
}

pub open spec fn msg_other_project() -> Seq<char> {
    "command targets a different project"@
}

pub open spec fn msg_stale(expected: u64, current: u64) -> Seq<char> {
    "stale revision: expected "@ + decimal(expected as nat) + ", current "@ + decimal(current as nat)
}

pub open spec fn msg_source() -> Seq<char> {
    "invalid command source"@
}

pub open spec fn msg_scope() -> Seq<char> {
    "providers cannot change the project's approved media scope"@
}

pub open spec fn msg_media_exists() -> Seq<char> {
    "media identifier already exists"@
}

pub open spec fn msg_media_in_use() -> Seq<char> {
    "media is in use"@
}

pub open spec fn msg_media_missing() -> Seq<char> {
    "media does not exist"@
}

pub open spec fn msg_track_missing() -> Seq<char> {
    "track does not exist"@
}

pub open spec fn msg_track_locked() -> Seq<char> {
    "track is locked"@
}

pub open spec fn msg_clip_missing() -> Seq<char> {
    "clip does not exist"@
}

pub open spec fn msg_before_timeline() -> Seq<char> {
    "clip cannot start before timeline"@
}

pub open spec fn msg_trim() -> Seq<char> {
    "trim end must follow trim start"@
}

pub open spec fn msg_speed() -> Seq<char> {
    "speed must be between 0.1 and 8"@
}

pub open spec fn msg_opacity() -> Seq<char> {
    "opacity must be between 0 and 1"@
}

pub open spec fn msg_volume() -> Seq<char> {
    "volume must be between 0 and 4"@
}

/// The color a clip gets when its media has none.
pub open spec fn default_clip_color() -> Seq<char> {
    "#6f7fc4"@
}

pub open spec fn apply_edit(c: ClipView, e: ClipEdit) -> ClipView {
    match e {
        ClipEdit::Start(t) => ClipView { timeline_start: t, ..c },
        ClipEdit::Trim(i, o) => ClipView { source_in: i, source_out: o, ..c },
        ClipEdit::Rate(r) => ClipView { playback_rate: r, ..c },
        ClipEdit::Opacity(x) => ClipView { transform: Transform { opacity: x, ..c.transform }, ..c },
        ClipEdit::Volume(v) => ClipView { audio: AudioMix { volume: v, ..c.audio }, ..c },
    }
}

/// The sequence and track a command edits: the active sequence and the
/// first track in it with the identifier, which must not be locked.
pub open spec fn locate_track(p: ProjectView, track_id: u128) -> Result<(int, int), ProjectErrorView> {
    match find_id(p.sequences, p.active_sequence_id) {
        None => Err(invalid(msg_active_missing())),
        Some(si) => match find_id(p.sequences[si].tracks, track_id) {
            None => Err(invalid(msg_track_missing())),
            Some(ti) => if p.sequences[si].tracks[ti].locked {
                Err(invalid(msg_track_locked()))
            } else {
                Ok((si, ti))
            },
        },
    }
}

pub open spec fn replace_track(p: ProjectView, si: int, ti: int, t: TrackView) -> ProjectView {
    ProjectView {
        sequences: p.sequences.update(si, SequenceView { tracks: p.sequences[si].tracks.update(ti, t), ..p.sequences[si] }),
        ..p
    }
}

pub open spec fn with_clips(t: TrackView, clips: Seq<ClipView>) -> TrackView {
    TrackView { clips, ..t }
}

/// Applies an edit to the first clip with the identifier on the located track.
pub open spec fn edit_clip(p: ProjectView, track_id: u128, clip_id: u128, e: ClipEdit) -> Result<(ProjectView, Seq<u128>), ProjectErrorView> {
    match locate_track(p, track_id) {
        Err(e) => Err(e),
        Ok((si, ti)) => {
            let t = p.sequences[si].tracks[ti];
            match find_id(t.clips, clip_id) {
                None => Err(invalid(msg_clip_missing())),
                Some(ci) => Ok((replace_track(p, si, ti, with_clips(t, t.clips.update(ci, apply_edit(t.clips[ci], e)))), seq![clip_id])),
            }
        },
    }
}

/// Some clip of some track of some sequence uses the media.
pub open spec fn media_in_use(p: ProjectView, asset_id: u128) -> bool {
    exists|si: int, ti: int, ci: int|
        0 <= si < p.sequences.len() && 0 <= ti < p.sequences[si].tracks.len()
            && 0 <= ci < p.sequences[si].tracks[ti].clips.len()
            && #[trigger] p.sequences[si].tracks[ti].clips[ci].asset_id == asset_id
}

/// The clip that adding media to a track creates: the whole media (five
/// seconds when the media has no positive duration), from the given
/// timeline point, at normal speed, full opacity and volume, named after
/// the media up to its last dot.
pub open spec fn new_clip(asset: MediaAsset, id: u128, start: RationalTime) -> ClipView {
    ClipView {
        id,
        asset_id: asset.id,
        name: through_last_dot(asset.name@),
        source_in: at_ticks(0),
        source_out: if is_positive(asset.duration) { asset.duration } else { at_ticks(3000) },
        timeline_start: start,
        playback_rate: FIXED_ONE,
        transform: Transform { x: 0, y: 0, scale: FIXED_ONE, rotation: 0, opacity: FIXED_ONE },
        audio: AudioMix { volume: FIXED_ONE, fade_in: at_ticks(0), fade_out: at_ticks(0), ducking: false },
        color: match asset.color {
            Some(c) => c@,
            None => default_clip_color(),
        },
    }
}

pub open spec fn add_media_effect(p: ProjectView, asset: MediaAsset) -> Result<(ProjectView, Seq<u128>), ProjectErrorView> {
    if exists|i: int| 0 <= i < p.media.len() && p.media[i].id == asset.id {
        Err(invalid(msg_media_exists()))
    } else {
        Ok((ProjectView { media: p.media.push(asset), ..p }, seq![asset.id]))
    }
}

pub open spec fn remove_media_effect(p: ProjectView, asset_id: u128) -> Result<(ProjectView, Seq<u128>), ProjectErrorView> {
    if media_in_use(p, asset_id) {
        Err(invalid(msg_media_in_use()))
    } else {
        Ok((ProjectView { media: drop_id(p.media, asset_id), ..p }, seq![asset_id]))
    }
}

pub open spec fn add_clip_effect(p: ProjectView, track_id: u128, asset_id: u128, start: RationalTime, fresh: u128) -> Result<(ProjectView, Seq<u128>), ProjectErrorView> {
    match find_id(p.media, asset_id) {
        None => Err(invalid(msg_media_missing())),
        Some(mi) => match locate_track(p, track_id) {
            Err(e) => Err(e),
            Ok((si, ti)) => {
                let t = p.sequences[si].tracks[ti];
                Ok((replace_track(p, si, ti, with_clips(t, t.clips.push(new_clip(p.media[mi], fresh, start)))), seq![fresh]))
            },
        },
    }
}

pub open spec fn remove_clip_effect(p: ProjectView, track_id: u128, clip_id: u128) -> Result<(ProjectView, Seq<u128>), ProjectErrorView> {
    match locate_track(p, track_id) {
        Err(e) => Err(e),
        Ok((si, ti)) => {
            let t = p.sequences[si].tracks[ti];
            Ok((replace_track(p, si, ti, with_clips(t, drop_id(t.clips, clip_id))), seq![clip_id]))
        },
    }
}

/// Splitting keeps the clip as the left part, ending at the cut, and
/// inserts right after it a copy with a fresh identifier, named with a
/// trailing " B", that starts at the cut in the source and at the split
/// point on the timeline.
pub open spec fn split_clip_effect(p: ProjectView, track_id: u128, clip_id: u128, at: RationalTime, fresh: u128) -> Result<(ProjectView, Seq<u128>), ProjectErrorView> {
    match locate_track(p, track_id) {
        Err(e) => Err(e),
        Ok((si, ti)) => {
            let t = p.sequences[si].tracks[ti];
            match find_id(t.clips, clip_id) {
                None => Err(invalid(msg_clip_missing())),
                Some(ci) => {
                    let c = t.clips[ci];
                    match split_plan(c, at) {
                        Err(m) => Err(invalid(m)),
                        Ok(ticks) => {
                            let cut = at_ticks(ticks);
                            let left = ClipView { source_out: cut, ..c };
                            let right = ClipView { id: fresh, name: c.name + " B"@, source_in: cut, timeline_start: at, ..c };
                            Ok((replace_track(p, si, ti, with_clips(t, t.clips.update(ci, left).insert(ci + 1, right))), seq![clip_id, fresh]))
                        },
                    }
                },
            }
        },
    }
}

pub open spec fn duplicate_clip_effect(p: ProjectView, track_id: u128, clip_id: u128, start: RationalTime, fresh: u128) -> Result<(ProjectView, Seq<u128>), ProjectErrorView> {
    match locate_track(p, track_id) {
        Err(e) => Err(e),
        Ok((si, ti)) => {
            let t = p.sequences[si].tracks[ti];
            match find_id(t.clips, clip_id) {
                None => Err(invalid(msg_clip_missing())),
                Some(ci) => {
                    let c = t.clips[ci];
                    let copy = ClipView { id: fresh, name: c.name + " copy"@, timeline_start: start, ..c };
                    Ok((replace_track(p, si, ti, with_clips(t, t.clips.push(copy))), seq![fresh]))
                },
            }
        },
    }
}

/// What a command does to a project, before the revision is bumped and the
/// result validated: the changed project and the identifiers it touched.
/// `fresh` is the identifier a created clip receives.
pub open spec fn command_effect(p: ProjectView, cmd: EditorCommand, fresh: u128) -> Result<(ProjectView, Seq<u128>), ProjectErrorView> {
    match cmd {
        EditorCommand::AddMedia { asset } => add_media_effect(p, *asset),
        EditorCommand::RemoveMedia { asset_id } => remove_media_effect(p, asset_id),
        EditorCommand::AddClip { track_id, asset_id, timeline_start } => add_clip_effect(p, track_id, asset_id, timeline_start, fresh),
        EditorCommand::RemoveClip { track_id, clip_id } => remove_clip_effect(p, track_id, clip_id),
        EditorCommand::MoveClip { track_id, clip_id, timeline_start } => if timeline_start.value < 0 {
            Err(invalid(msg_before_timeline()))
        } else {
            edit_clip(p, track_id, clip_id, ClipEdit::Start(timeline_start))
        },
        EditorCommand::TrimClip { track_id, clip_id, source_in, source_out } => if extended_le(source_out, source_in) {
            Err(invalid(msg_trim()))
        } else {
            edit_clip(p, track_id, clip_id, ClipEdit::Trim(source_in, source_out))
        },
        EditorCommand::SplitClip { track_id, clip_id, at } => split_clip_effect(p, track_id, clip_id, at, fresh),
        EditorCommand::DuplicateClip { track_id, clip_id, timeline_start } => duplicate_clip_effect(p, track_id, clip_id, timeline_start, fresh),
        EditorCommand::ChangeSpeed { track_id, clip_id, playback_rate } => if !(FIXED_ONE / 10 <= playback_rate <= 8 * FIXED_ONE) {
            Err(invalid(msg_speed()))
        } else {
            edit_clip(p, track_id, clip_id, ClipEdit::Rate(playback_rate))
        },
        EditorCommand::SetOpacity { track_id, clip_id, opacity } => if !(0 <= opacity <= FIXED_ONE) {
            Err(invalid(msg_opacity()))
        } else {
            edit_clip(p, track_id, clip_id, ClipEdit::Opacity(opacity))
        },
        EditorCommand::SetVolume { track_id, clip_id, volume } => if !(0 <= volume <= 4 * FIXED_ONE) {
            Err(invalid(msg_volume()))
        } else {
            edit_clip(p, track_id, clip_id, ClipEdit::Volume(volume))
        },
    }
}

pub open spec fn source_known(s: Seq<char>) -> bool {
    s == "manual"@ || s == "codex"@ || s == "ollama"@
}

pub open spec fn changes_media(cmd: EditorCommand) -> bool {
    cmd is AddMedia || cmd is RemoveMedia
}

/// The checks a command passes before it is applied: it targets this
/// project at its current revision, comes from a known source, and only a
/// manual command may add or remove media.
pub open spec fn precheck(p: ProjectView, env: CommandEnvelope) -> Option<ProjectErrorView> {
    if env.project_id != p.id {
        Some(invalid(msg_other_project()))
    } else if env.expected_project_revision != p.revision {
        Some(invalid(msg_stale(env.expected_project_revision, p.revision)))
    } else if !source_known(env.source@) {
        Some(invalid(msg_source()))
    } else if env.source@ != "manual"@ && changes_media(env.payload) {
        Some(invalid(msg_scope()))
    } else {
        None
    }
}

/// The project after a change: one revision later, updated at `now`.
pub open spec fn committed(q: ProjectView, now: Seq<char>) -> ProjectView {
    ProjectView { revision: (q.revision + 1) as u64, updated_at: now, ..q }
}

/// What dispatching a command to a project yields: the new project and the
/// affected identifiers, or the first reason for refusal. A change that
/// leaves the project invalid is refused with the validation's reason.
pub open spec fn dispatch_outcome(p: ProjectView, env: CommandEnvelope, fresh: u128, now: Seq<char>) -> Result<(ProjectView, Seq<u128>), ProjectErrorView> {
    match precheck(p, env) {
        Some(e) => Err(e),
        None => match command_effect(p, env.payload, fresh) {
            Err(e) => Err(e),
            Ok((q, affected)) => match validation(committed(q, now)) {
                Err(e) => Err(e),
                Ok(()) => Ok((committed(q, now), affected)),
            },
        },
    }
}

pub open spec fn outcome_of(r: Result<CommandResult, ProjectError>) -> Result<(ProjectView, Seq<u128>), ProjectErrorView> {
    match r {
        Ok(res) => Ok((res.project@, res.affected_entity_ids@)),
        Err(e) => Err(e@),
    }
}

/// A step's exec result agrees with its specified outcome.
pub open spec fn effect_holds(r: Result<Vec<u128>, ProjectError>, after: ProjectView, expected: Result<(ProjectView, Seq<u128>), ProjectErrorView>) -> bool {
    match expected {
        Ok((q, a)) => r matches Ok(v) && v@ == a && after == q,
        Err(e) => r matches Err(x) && x@ == e,
    }
}

pub open spec fn opt_index(r: Option<usize>) -> Option<int> {
    match r {
        Some(i) => Some(i as int),
        None => None,
    }
}

fn find_sequence(v: &Vec<Sequence>, id: u128) -> (r: Option<usize>)
    ensures
        opt_index(r) == find_id(sequence_views(v@), id),
        r matches Some(i) ==> i < v.len(),
{
    let ghost s = sequence_views(v@);
    let mut i: usize = 0;
    while i < v.len()
        invariant
            0 <= i <= v.len(),
            s == sequence_views(v@),
            forall|j: int| 0 <= j < i ==> s[j].key() != id,
        decreases v.len() - i,
    {
        assert(s[i as int] == v@[i as int]@);
        if v[i].id == id {
            proof { lemma_find_id_at(s, id, i as int); }
            return Some(i);
        }
        i += 1;
    }
    proof { lemma_find_id_none(s, id); }
    None
}

fn find_track(v: &Vec<Track>, id: u128) -> (r: Option<usize>)
    ensures
        opt_index(r) == find_id(track_views(v@), id),
        r matches Some(i) ==> i < v.len(),
{
    let ghost s = track_views(v@);
    let mut i: usize = 0;
    while i < v.len()
        invariant
            0 <= i <= v.len(),
            s == track_views(v@),
            forall|j: int| 0 <= j < i ==> s[j].key() != id,
        decreases v.len() - i,
    {
        assert(s[i as int] == v@[i as int]@);
        if v[i].id == id {
            proof { lemma_find_id_at(s, id, i as int); }
            return Some(i);
        }
        i += 1;
    }
    proof { lemma_find_id_none(s, id); }
    None
}

fn find_clip(v: &Vec<Clip>, id: u128) -> (r: Option<usize>)
    ensures
        opt_index(r) == find_id(clip_views(v@), id),
        r matches Some(i) ==> i < v.len(),
{
    let ghost s = clip_views(v@);
    let mut i: usize = 0;
    while i < v.len()
        invariant
            0 <= i <= v.len(),
            s == clip_views(v@),
            forall|j: int| 0 <= j < i ==> s[j].key() != id,
        decreases v.len() - i,
    {
        assert(s[i as int] == v@[i as int]@);
        if v[i].id == id {
            proof { lemma_find_id_at(s, id, i as int); }
            return Some(i);
        }
        i += 1;
    }
    proof { lemma_find_id_none(s, id); }
    None
}

/// The position of the media record with the given identifier, if any.
pub fn find_media(v: &Vec<MediaAsset>, id: u128) -> (r: Option<usize>)
    ensures
        opt_index(r) == find_id(v@, id),
        r matches Some(i) ==> i < v.len(),
{
    let mut i: usize = 0;
    while i < v.len()
        invariant
            0 <= i <= v.len(),
            forall|j: int| 0 <= j < i ==> v@[j].key() != id,
        decreases v.len() - i,
    {
        if v[i].id == id {
            proof { lemma_find_id_at(v@, id, i as int); }
            return Some(i);
        }
        i += 1;
    }
    proof { lemma_find_id_none(v@, id); }
    None
}

fn locate(project: &ProjectDocument, track_id: u128) -> (r: Result<(usize, usize), ProjectError>)
    ensures
        match locate_track(project@, track_id) {
            Ok((si, ti)) => r matches Ok((a, b)) && a == si && b == ti && a < project.sequences.len()
                && b < project.sequences@[a as int].tracks.len(),
            Err(e) => r matches Err(x) && x@ == e,
        },
{
    let si = match find_sequence(&project.sequences, project.active_sequence_id) {
        Some(si) => si,
        None => {
            return Err(ProjectError::Invalid(String::from_str("active sequence does not exist")));
        },
    };
    let ghost sv = project@.sequences[si as int];
    assert(sv == project.sequences@[si as int]@);
    let ti = match find_track(&project.sequences[si].tracks, track_id) {
        Some(ti) => ti,
        None => {
            return Err(ProjectError::Invalid(String::from_str("track does not exist")));
        },
    };
    assert(sv.tracks[ti as int] == project.sequences@[si as int].tracks@[ti as int]@);
    if project.sequences[si].tracks[ti].locked {
        return Err(ProjectError::Invalid(String::from_str("track is locked")));
    }
    Ok((si, ti))
}

/// An empty, unlocked, unnamed track with identifier zero, held while its
/// slot's real track is edited.
fn placeholder_track() -> (t: Track)
    ensures
        t@ == crate::project::empty_track(0, Seq::empty(), Seq::empty()),
{
    let t = Track { id: 0, name: String::new(), kind: String::new(), locked: false, muted: false, clips: Vec::new() };
    assert(t@.clips =~= Seq::<ClipView>::empty());
    t
}

/// Exchanges the track at a position for another; returns the one taken out.
fn swap_track(project: &mut ProjectDocument, si: usize, ti: usize, incoming: Track) -> (taken: Track)
    requires
        si < old(project).sequences.len(),
        ti < old(project).sequences@[si as int].tracks.len(),
    ensures
        taken@ == old(project)@.sequences[si as int].tracks[ti as int],
        final(project)@ == replace_track(old(project)@, si as int, ti as int, incoming@),
        final(project).sequences.len() == old(project).sequences.len(),
        final(project).sequences@[si as int].tracks.len() == old(project).sequences@[si as int].tracks.len(),
{
    let ghost before = project@;
    let ghost old_seqs = project.sequences@;
    let ghost in_view = incoming@;
    let mut t = incoming;
    std::mem::swap(&mut project.sequences[si].tracks[ti], &mut t);
    proof {
        let seqs = project.sequences@;
        assert(before.sequences[si as int] == old_seqs[si as int]@);
        assert(before.sequences[si as int].tracks[ti as int] == old_seqs[si as int].tracks@[ti as int]@);
        assert(track_views(seqs[si as int].tracks@) =~= before.sequences[si as int].tracks.update(ti as int, in_view));
        assert(sequence_views(seqs) =~= replace_track(before, si as int, ti as int, in_view).sequences);
    }
    t
}

} // verus!

verus! {

/// Replacing a track twice keeps only the second replacement.
pub proof fn lemma_replace_twice(p: ProjectView, si: int, ti: int, a: TrackView, b: TrackView)
    requires
        0 <= si < p.sequences.len(),
        0 <= ti < p.sequences[si].tracks.len(),
    ensures
        replace_track(replace_track(p, si, ti, a), si, ti, b) == replace_track(p, si, ti, b),
{
    let q = replace_track(p, si, ti, a);
    assert(q.sequences[si].tracks.update(ti, b) =~= p.sequences[si].tracks.update(ti, b));
    assert(replace_track(q, si, ti, b).sequences =~= replace_track(p, si, ti, b).sequences);
    assert(replace_track(q, si, ti, b) =~= replace_track(p, si, ti, b));
}

pub(crate) fn copy_text(o: &Option<String>) -> (r: Option<String>)
    ensures
        r == *o,
{
    match o {
        Some(s) => Some(s.clone()),
        None => None,
    }
}

/// An exact copy of a media record.
pub fn copy_asset(a: &MediaAsset) -> (r: MediaAsset)
    ensures
        r == *a,
{
    MediaAsset {
        id: a.id,
        name: a.name.clone(),
        kind: a.kind.clone(),
        path: a.path.clone(),
        duration: a.duration,
        width: a.width,
        height: a.height,
        status: a.status.clone(),
        bookmark: copy_text(&a.bookmark),
        color: copy_text(&a.color),
        thumbnail_path: copy_text(&a.thumbnail_path),
        waveform_path: copy_text(&a.waveform_path),
        codec: copy_text(&a.codec),
        has_audio: a.has_audio,
        proxy_path: copy_text(&a.proxy_path),
    }
}

/// A copy of a clip.
pub fn copy_clip(c: &Clip) -> (r: Clip)
    ensures
        r@ == c@,
{
    Clip {
        id: c.id,
        asset_id: c.asset_id,
        name: c.name.clone(),
        source_in: c.source_in,
        source_out: c.source_out,
        timeline_start: c.timeline_start,
        playback_rate: c.playback_rate,
        transform: c.transform,
        audio: c.audio,
        color: c.color.clone(),
    }
}

fn one_id(id: u128) -> (v: Vec<u128>)
    ensures
        v@ == seq![id],
{
    let mut v = Vec::new();
    v.push(id);
    v
}

fn add_media(project: &mut ProjectDocument, asset: &MediaAsset) -> (r: Result<Vec<u128>, ProjectError>)
    ensures
        effect_holds(r, final(project)@, add_media_effect(old(project)@, *asset)),
{
    let mut i: usize = 0;
    while i < project.media.len()
        invariant
            0 <= i <= project.media.len(),
            forall|j: int| 0 <= j < i ==> project.media@[j].id != asset.id,
        decreases project.media.len() - i,
    {
        if project.media[i].id == asset.id {
            return Err(ProjectError::Invalid(String::from_str("media identifier already exists")));
        }
        i += 1;
    }
    let ghost before = project@;
    project.media.push(copy_asset(asset));
    assert(project@ =~= ProjectView { media: before.media.push(*asset), ..before });
    Ok(one_id(asset.id))
}

fn track_uses_media(t: &Track, asset_id: u128) -> (r: bool)
    ensures
        r == exists|ci: int| 0 <= ci < t@.clips.len() && #[trigger] t@.clips[ci].asset_id == asset_id,
{
    let mut i: usize = 0;
    while i < t.clips.len()
        invariant
            0 <= i <= t.clips.len(),
            forall|j: int| 0 <= j < i ==> #[trigger] t@.clips[j].asset_id != asset_id,
        decreases t.clips.len() - i,
    {
        assert(t@.clips[i as int] == t.clips@[i as int]@);
        if t.clips[i].asset_id == asset_id {
            assert(t@.clips[i as int].asset_id == asset_id);
            return true;
        }
        i += 1;
    }
    false
}

fn sequence_uses_media(s: &Sequence, asset_id: u128) -> (r: bool)
    ensures
        r == exists|ti: int, ci: int|
            0 <= ti < s@.tracks.len() && 0 <= ci < s@.tracks[ti].clips.len()
                && #[trigger] s@.tracks[ti].clips[ci].asset_id == asset_id,
{
    let mut i: usize = 0;
    while i < s.tracks.len()
        invariant
            0 <= i <= s.tracks.len(),
            forall|ti: int, ci: int|
                0 <= ti < i && 0 <= ci < s@.tracks[ti].clips.len() ==> #[trigger] s@.tracks[ti].clips[ci].asset_id != asset_id,
        decreases s.tracks.len() - i,
    {
        assert(s@.tracks[i as int] == s.tracks@[i as int]@);
        if track_uses_media(&s.tracks[i], asset_id) {
            return true;
        }
        i += 1;
    }
    false
}

fn project_uses_media(project: &ProjectDocument, asset_id: u128) -> (r: bool)
    ensures
        r == media_in_use(project@, asset_id),
{
    let mut i: usize = 0;
    while i < project.sequences.len()
        invariant
            0 <= i <= project.sequences.len(),
            forall|si: int, ti: int, ci: int|
                0 <= si < i && 0 <= ti < project@.sequences[si].tracks.len()
                    && 0 <= ci < project@.sequences[si].tracks[ti].clips.len()
                    ==> #[trigger] project@.sequences[si].tracks[ti].clips[ci].asset_id != asset_id,
        decreases project.sequences.len() - i,
    {
        assert(project@.sequences[i as int] == project.sequences@[i as int]@);
        if sequence_uses_media(&project.sequences[i], asset_id) {
            return true;
        }
        i += 1;
    }
    false
}

fn without_media(v: &Vec<MediaAsset>, id: u128) -> (r: Vec<MediaAsset>)
    ensures
        r@ == drop_id(v@, id),
{
    let mut r: Vec<MediaAsset> = Vec::new();
    let mut i: usize = 0;
    assert(v@.skip(0) =~= v@);
    assert(r@ + drop_id(v@, id) =~= drop_id(v@, id));
    while i < v.len()
        invariant
            0 <= i <= v.len(),
            drop_id(v@, id) == r@ + drop_id(v@.skip(i as int), id),
        decreases v.len() - i,
    {
        let ghost rest = v@.skip(i as int);
        assert(rest[0] == v@[i as int]);
        assert(rest.drop_first() =~= v@.skip(i + 1));
        if v[i].id != id {
            let ghost before = r@;
            r.push(copy_asset(&v[i]));
            assert(before + (seq![v@[i as int]] + drop_id(v@.skip(i + 1), id)) =~= r@ + drop_id(v@.skip(i + 1), id));
        }
        i += 1;
    }
    assert(v@.skip(i as int) =~= Seq::<MediaAsset>::empty());
    assert(r@ + Seq::<MediaAsset>::empty() =~= r@);
    r
}

fn without_clip(v: &Vec<Clip>, id: u128) -> (r: Vec<Clip>)
    ensures
        clip_views(r@) == drop_id(clip_views(v@), id),
{
    let ghost s = clip_views(v@);
    let mut r: Vec<Clip> = Vec::new();
    let mut i: usize = 0;
    assert(s.skip(0) =~= s);
    assert(clip_views(r@) + drop_id(s, id) =~= drop_id(s, id));
    while i < v.len()
        invariant
            0 <= i <= v.len(),
            s == clip_views(v@),
            drop_id(s, id) == clip_views(r@) + drop_id(s.skip(i as int), id),
        decreases v.len() - i,
    {
        let ghost rest = s.skip(i as int);
        assert(rest[0] == v@[i as int]@);
        assert(rest.drop_first() =~= s.skip(i + 1));
        if v[i].id != id {
            let ghost before = clip_views(r@);
            r.push(copy_clip(&v[i]));
            assert(clip_views(r@) =~= before.push(v@[i as int]@));
            assert(before + (seq![v@[i as int]@] + drop_id(s.skip(i + 1), id)) =~= clip_views(r@) + drop_id(s.skip(i + 1), id));
        }
        i += 1;
    }
    assert(s.skip(i as int) =~= Seq::<ClipView>::empty());
    assert(clip_views(r@) + Seq::<ClipView>::empty() =~= clip_views(r@));
    r
}

fn remove_media(project: &mut ProjectDocument, asset_id: u128) -> (r: Result<Vec<u128>, ProjectError>)
    ensures
        effect_holds(r, final(project)@, remove_media_effect(old(project)@, asset_id)),
{
    if project_uses_media(project, asset_id) {
        return Err(ProjectError::Invalid(String::from_str("media is in use")));
    }
    let ghost before = project@;
    let kept = without_media(&project.media, asset_id);
    project.media = kept;
    assert(project@ =~= ProjectView { media: drop_id(before.media, asset_id), ..before });
    Ok(one_id(asset_id))
}

fn build_clip(asset: &MediaAsset, id: u128, start: RationalTime) -> (c: Clip)
    ensures
        c@ == new_clip(*asset, id, start),
{
    let d = asset.duration;
    let positive = (d.value > 0 && d.timescale >= 0) || (d.value < 0 && d.timescale < 0);
    let color = match &asset.color {
        Some(c) => c.clone(),
        None => String::from_str("#6f7fc4"),
    };
    Clip {
        id,
        asset_id: asset.id,
        name: trim_after_last_dot(asset.name.as_str()),
        source_in: from_ticks(0),
        source_out: if positive { d } else { from_ticks(3000) },
        timeline_start: start,
        playback_rate: FIXED_ONE,
        transform: Transform { x: 0, y: 0, scale: FIXED_ONE, rotation: 0, opacity: FIXED_ONE },
        audio: AudioMix { volume: FIXED_ONE, fade_in: from_ticks(0), fade_out: from_ticks(0), ducking: false },
        color,
    }
}

fn add_clip(project: &mut ProjectDocument, track_id: u128, asset_id: u128, start: RationalTime, fresh: u128) -> (r: Result<Vec<u128>, ProjectError>)
    ensures
        effect_holds(r, final(project)@, add_clip_effect(old(project)@, track_id, asset_id, start, fresh)),
{
    let mi = match find_media(&project.media, asset_id) {
        Some(mi) => mi,
        None => {
            return Err(ProjectError::Invalid(String::from_str("media does not exist")));
        },
    };
    let clip = build_clip(&project.media[mi], fresh, start);
    let (si, ti) = match locate(project, track_id) {
        Ok(x) => x,
        Err(e) => {
            return Err(e);
        },
    };
    let ghost before = project@;
    let mut t = swap_track(project, si, ti, placeholder_track());
    let ghost tv = t@;
    t.clips.push(clip);
    assert(clip_views(t.clips@) =~= tv.clips.push(clip@));
    assert(t@ =~= with_clips(tv, tv.clips.push(clip@)));
    let ghost mid = project@;
    swap_track(project, si, ti, t);
    proof {
        lemma_replace_twice(before, si as int, ti as int, mid.sequences[si as int].tracks[ti as int], t@);
    }
    Ok(one_id(fresh))
}

fn remove_clip(project: &mut ProjectDocument, track_id: u128, clip_id: u128) -> (r: Result<Vec<u128>, ProjectError>)
    ensures
        effect_holds(r, final(project)@, remove_clip_effect(old(project)@, track_id, clip_id)),
{
    let (si, ti) = match locate(project, track_id) {
        Ok(x) => x,
        Err(e) => {
            return Err(e);
        },
    };
    let ghost before = project@;
    let mut t = swap_track(project, si, ti, placeholder_track());
    let ghost tv = t@;
    let kept = without_clip(&t.clips, clip_id);
    t.clips = kept;
    assert(t@ =~= with_clips(tv, drop_id(tv.clips, clip_id)));
    let ghost mid = project@;
    swap_track(project, si, ti, t);
    proof {
        lemma_replace_twice(before, si as int, ti as int, mid.sequences[si as int].tracks[ti as int], t@);
    }
    Ok(one_id(clip_id))
}

fn edit_clip_in(project: &mut ProjectDocument, track_id: u128, clip_id: u128, e: ClipEdit) -> (r: Result<Vec<u128>, ProjectError>)
    ensures
        effect_holds(r, final(project)@, edit_clip(old(project)@, track_id, clip_id, e)),
{
    let (si, ti) = match locate(project, track_id) {
        Ok(x) => x,
        Err(e) => {
            return Err(e);
        },
    };
    let ghost before = project@;
    let mut t = swap_track(project, si, ti, placeholder_track());
    let ghost tv = t@;
    let ci = match find_clip(&t.clips, clip_id) {
        Some(ci) => ci,
        None => {
            return Err(ProjectError::Invalid(String::from_str("clip does not exist")));
        },
    };
    assert(tv.clips[ci as int] == t.clips@[ci as int]@);
    match e {
        ClipEdit::Start(x) => {
            t.clips[ci].timeline_start = x;
        },
        ClipEdit::Trim(a, b) => {
            t.clips[ci].source_in = a;
            t.clips[ci].source_out = b;
        },
        ClipEdit::Rate(x) => {
            t.clips[ci].playback_rate = x;
        },
        ClipEdit::Opacity(x) => {
            t.clips[ci].transform.opacity = x;
        },
        ClipEdit::Volume(x) => {
            t.clips[ci].audio.volume = x;
        },
    }
    assert(clip_views(t.clips@) =~= tv.clips.update(ci as int, apply_edit(tv.clips[ci as int], e)));
    assert(t@ =~= with_clips(tv, tv.clips.update(ci as int, apply_edit(tv.clips[ci as int], e))));
    let ghost mid = project@;
    swap_track(project, si, ti, t);
    proof {
        lemma_replace_twice(before, si as int, ti as int, mid.sequences[si as int].tracks[ti as int], t@);
    }
    Ok(one_id(clip_id))
}

fn split_clip(project: &mut ProjectDocument, track_id: u128, clip_id: u128, at: RationalTime, fresh: u128) -> (r: Result<Vec<u128>, ProjectError>)
    ensures
        effect_holds(r, final(project)@, split_clip_effect(old(project)@, track_id, clip_id, at, fresh)),
{
    let (si, ti) = match locate(project, track_id) {
        Ok(x) => x,
        Err(e) => {
            return Err(e);
        },
    };
    let ghost before = project@;
    let mut t = swap_track(project, si, ti, placeholder_track());
    let ghost tv = t@;
    let ci = match find_clip(&t.clips, clip_id) {
        Some(ci) => ci,
        None => {
            return Err(ProjectError::Invalid(String::from_str("clip does not exist")));
        },
    };
    let ghost c = tv.clips[ci as int];
    assert(c == t.clips@[ci as int]@);
    let ticks = match split_source(&t.clips[ci], at) {
        Ok(x) => x,
        Err(m) => {
            return Err(ProjectError::Invalid(m));
        },
    };
    let cut = from_ticks(ticks);
    let mut right = copy_clip(&t.clips[ci]);
    t.clips[ci].source_out = cut;
    right.id = fresh;
    right.name.append(" B");
    right.source_in = cut;
    right.timeline_start = at;
    let ghost left_view = ClipView { source_out: cut, ..c };
    let ghost right_view = ClipView { id: fresh, name: c.name + " B"@, source_in: cut, timeline_start: at, ..c };
    assert(right@ =~= right_view);
    assert(clip_views(t.clips@) =~= tv.clips.update(ci as int, left_view));
    let ghost updated = t.clips@;
    t.clips.insert(ci + 1, right);
    assert(clip_views(t.clips@) =~= clip_views(updated).insert(ci + 1, right_view));
    assert(t@ =~= with_clips(tv, tv.clips.update(ci as int, left_view).insert(ci + 1, right_view)));
    let ghost mid = project@;
    swap_track(project, si, ti, t);
    proof {
        lemma_replace_twice(before, si as int, ti as int, mid.sequences[si as int].tracks[ti as int], t@);
    }
    let mut affected = Vec::new();
    affected.push(clip_id);
    affected.push(fresh);
    assert(affected@ =~= seq![clip_id, fresh]);
    Ok(affected)
}

fn duplicate_clip(project: &mut ProjectDocument, track_id: u128, clip_id: u128, start: RationalTime, fresh: u128) -> (r: Result<Vec<u128>, ProjectError>)
    ensures
        effect_holds(r, final(project)@, duplicate_clip_effect(old(project)@, track_id, clip_id, start, fresh)),
{
    let (si, ti) = match locate(project, track_id) {
        Ok(x) => x,
        Err(e) => {
            return Err(e);
        },
    };
    let ghost before = project@;
    let mut t = swap_track(project, si, ti, placeholder_track());
    let ghost tv = t@;
    let ci = match find_clip(&t.clips, clip_id) {
        Some(ci) => ci,
        None => {
            return Err(ProjectError::Invalid(String::from_str("clip does not exist")));
        },
    };
    let ghost c = tv.clips[ci as int];
    assert(c == t.clips@[ci as int]@);
    let mut copy = copy_clip(&t.clips[ci]);
    copy.id = fresh;
    copy.name.append(" copy");
    copy.timeline_start = start;
    let ghost copy_view = ClipView { id: fresh, name: c.name + " copy"@, timeline_start: start, ..c };
    assert(copy@ =~= copy_view);
    t.clips.push(copy);
    assert(clip_views(t.clips@) =~= tv.clips.push(copy_view));
    assert(t@ =~= with_clips(tv, tv.clips.push(copy_view)));
    let ghost mid = project@;
    swap_track(project, si, ti, t);
    proof {
        lemma_replace_twice(before, si as int, ti as int, mid.sequences[si as int].tracks[ti as int], t@);
    }
    Ok(one_id(fresh))
}

} // verus!

verus! {

/// A command changes only the media and the sequences of a project.
pub proof fn lemma_effect_frame(p: ProjectView, cmd: EditorCommand, fresh: u128)
    ensures
        command_effect(p, cmd, fresh) matches Ok((q, _)) ==> {
            &&& q.revision == p.revision
            &&& q.id == p.id
            &&& q.schema_version == p.schema_version
            &&& q.name == p.name
            &&& q.created_at == p.created_at
            &&& q.updated_at == p.updated_at
            &&& q.active_sequence_id == p.active_sequence_id
            &&& q.conversations == p.conversations
            &&& q.hosted_context_consent == p.hosted_context_consent
        },
{
}

fn apply_command(project: &mut ProjectDocument, cmd: &EditorCommand, fresh: u128) -> (r: Result<Vec<u128>, ProjectError>)
    ensures
        effect_holds(r, final(project)@, command_effect(old(project)@, *cmd, fresh)),
{
    match cmd {
        EditorCommand::AddMedia { asset } => add_media(project, &**asset),
        EditorCommand::RemoveMedia { asset_id } => remove_media(project, *asset_id),
        EditorCommand::AddClip { track_id, asset_id, timeline_start } => add_clip(project, *track_id, *asset_id, *timeline_start, fresh),
        EditorCommand::RemoveClip { track_id, clip_id } => remove_clip(project, *track_id, *clip_id),
        EditorCommand::MoveClip { track_id, clip_id, timeline_start } => {
            if timeline_start.value < 0 {
                return Err(ProjectError::Invalid(String::from_str("clip cannot start before timeline")));
            }
            edit_clip_in(project, *track_id, *clip_id, ClipEdit::Start(*timeline_start))
        },
        EditorCommand::TrimClip { track_id, clip_id, source_in, source_out } => {
            if seconds_le(*source_out, *source_in) {
                return Err(ProjectError::Invalid(String::from_str("trim end must follow trim start")));
            }
            edit_clip_in(project, *track_id, *clip_id, ClipEdit::Trim(*source_in, *source_out))
        },
        EditorCommand::SplitClip { track_id, clip_id, at } => split_clip(project, *track_id, *clip_id, *at, fresh),
        EditorCommand::DuplicateClip { track_id, clip_id, timeline_start } => duplicate_clip(project, *track_id, *clip_id, *timeline_start, fresh),
        EditorCommand::ChangeSpeed { track_id, clip_id, playback_rate } => {
            if !(FIXED_ONE / 10 <= *playback_rate && *playback_rate <= 8 * FIXED_ONE) {
                return Err(ProjectError::Invalid(String::from_str("speed must be between 0.1 and 8")));
            }
            edit_clip_in(project, *track_id, *clip_id, ClipEdit::Rate(*playback_rate))
        },
        EditorCommand::SetOpacity { track_id, clip_id, opacity } => {
            if !(0 <= *opacity && *opacity <= FIXED_ONE) {
                return Err(ProjectError::Invalid(String::from_str("opacity must be between 0 and 1")));
            }
            edit_clip_in(project, *track_id, *clip_id, ClipEdit::Opacity(*opacity))
        },
        EditorCommand::SetVolume { track_id, clip_id, volume } => {
            if !(0 <= *volume && *volume <= 4 * FIXED_ONE) {
                return Err(ProjectError::Invalid(String::from_str("volume must be between 0 and 4")));
            }
            edit_clip_in(project, *track_id, *clip_id, ClipEdit::Volume(*volume))
        },
    }
}

fn stale_message(expected: u64, current: u64) -> (s: String)
    ensures
        s@ == msg_stale(expected, current),
{
    let mut s = String::from_str("stale revision: expected ");
    let e = decimal_string(expected);
    s.append(e.as_str());
    s.append(", current ");
    let c = decimal_string(current);
    s.append(c.as_str());
    s
}

pub open spec fn refusal_view(r: Option<ProjectError>) -> Option<ProjectErrorView> {
    match r {
        Some(e) => Some(e@),
        None => None,
    }
}

/// Checks an envelope against the project; see `precheck`.
pub fn check_envelope(project: &ProjectDocument, envelope: &CommandEnvelope) -> (r: Option<ProjectError>)
    ensures
        refusal_view(r) == precheck(project@, *envelope),
{
    if envelope.project_id != project.id {
        return Some(ProjectError::Invalid(String::from_str("command targets a different project")));
    }
    if envelope.expected_project_revision != project.revision {
        return Some(ProjectError::Invalid(stale_message(envelope.expected_project_revision, project.revision)));
    }
    let manual = text_eq(&envelope.source, "manual");
    let codex = text_eq(&envelope.source, "codex");
    let ollama = text_eq(&envelope.source, "ollama");
    if !(manual || codex || ollama) {
        return Some(ProjectError::Invalid(String::from_str("invalid command source")));
    }
    let media_change = match &envelope.payload {
        EditorCommand::AddMedia { .. } => true,
        EditorCommand::RemoveMedia { .. } => true,
        _ => false,
    };
    if !manual && media_change {
        return Some(ProjectError::Invalid(String::from_str("providers cannot change the project's approved media scope")));
    }
    None
}

/// Whether a command's own checks refuse it, and with which error, does not
/// depend on the identifier a created clip would receive.
pub proof fn lemma_effect_error_ignores_fresh(p: ProjectView, cmd: EditorCommand, f1: u128, f2: u128)
    ensures
        command_effect(p, cmd, f1) is Err <==> command_effect(p, cmd, f2) is Err,
        command_effect(p, cmd, f1) matches Err(e) ==> command_effect(p, cmd, f2) == Err::<(ProjectView, Seq<u128>), ProjectErrorView>(e),
{
}

/// What a command is refused with before anything is committed, if at all:
/// the envelope's checks first, then the command's own (which do not depend
/// on the identifier a created clip would get).
pub open spec fn pre_commit_refusal(p: ProjectView, env: CommandEnvelope) -> Option<ProjectErrorView> {
    match precheck(p, env) {
        Some(e) => Some(e),
        None => match command_effect(p, env.payload, 0) {
            Err(e) => Some(e),
            Ok(_) => None,
        },
    }
}

/// Runs the checks that come before a commit on a project that is then
/// dropped; see `pre_commit_refusal`. A project whose revision counter is
/// full can take only commands refused here.
pub fn refusal_before_commit(project: ProjectDocument, envelope: &CommandEnvelope) -> (r: Option<ProjectError>)
    ensures
        refusal_view(r) == pre_commit_refusal(project@, *envelope),
{
    let mut project = project;
    if let Some(e) = check_envelope(&project, envelope) {
        return Some(e);
    }
    match apply_command(&mut project, &envelope.payload, 0) {
        Ok(_) => None,
        Err(e) => Some(e),
    }
}

/// Applies a command to a project, with the identifier a created clip
/// receives and the time the change is recorded at given by the caller.
/// The revision counter must have room for the commit, unless the command
/// is refused before it.
pub fn dispatch_with(project: ProjectDocument, envelope: &CommandEnvelope, fresh: u128, now: String) -> (r: Result<CommandResult, ProjectError>)
    requires
        project.revision < u64::MAX || pre_commit_refusal(project@, *envelope) is Some,
    ensures
        outcome_of(r) == dispatch_outcome(project@, *envelope, fresh, now@),
        r matches Ok(res) ==> res.new_project_revision == res.project.revision && res.warnings@.len() == 0,
        r matches Ok(res) ==> res.project.revision == project.revision + 1,
        r matches Ok(res) ==> res.project.id == project.id && validation(res.project@) == Ok::<(), ProjectErrorView>(()),
{
    let mut project = project;
    if let Some(e) = check_envelope(&project, envelope) {
        return Err(e);
    }
    let ghost p = project@;
    let affected = match apply_command(&mut project, &envelope.payload, fresh) {
        Ok(a) => a,
        Err(e) => {
            return Err(e);
        },
    };
    proof {
        lemma_effect_frame(p, envelope.payload, fresh);
        lemma_effect_error_ignores_fresh(p, envelope.payload, fresh, 0);
    }
    let ghost q = project@;
    project.revision = project.revision + 1;
    project.updated_at = now;
    assert(project@ =~= committed(q, now@));
    match project.validate() {
        Ok(()) => {},
        Err(e) => {
            return Err(e);
        },
    }
    let revision = project.revision;
    Ok(CommandResult { new_project_revision: revision, affected_entity_ids: affected, project, warnings: Vec::new() })
}

/// Applies a command to a project: checks the target, the revision and the
/// source, makes the change, bumps the revision, stamps the time and
/// validates the result. A created clip gets a fresh random identifier.
pub fn dispatch(project: ProjectDocument, envelope: &CommandEnvelope) -> (r: Result<CommandResult, ProjectError>)
    requires
        project.revision < u64::MAX || pre_commit_refusal(project@, *envelope) is Some,
    ensures
        exists|fresh: u128, now: Seq<char>| is_v4(fresh) && utc_stamp(now) && outcome_of(r) == dispatch_outcome(project@, *envelope, fresh, now),
        r matches Ok(res) ==> res.new_project_revision == res.project.revision && res.warnings@.len() == 0,
        r matches Ok(res) ==> res.project.revision == project.revision + 1,
        r matches Ok(res) ==> res.project.id == project.id && validation(res.project@) == Ok::<(), ProjectErrorView>(()),
{
    let fresh = crate::ids::fresh_id();
    let now = crate::ids::current_timestamp();
    let ghost now_view = now@;
    let r = dispatch_with(project, envelope, fresh, now);
    assert(outcome_of(r) == dispatch_outcome(project@, *envelope, fresh, now_view));
    r
}

} // verus!
