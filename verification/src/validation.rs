use std::collections::HashSet;
use vstd::prelude::*;
use vstd::string::*;

use crate::project::{
    clip_views, sequence_views, track_views, Clip, ClipView, MediaAsset, ProjectDocument, ProjectError,
    ProjectErrorView, ProjectView, Sequence, SequenceView, Track, TrackView, CURRENT_SCHEMA_VERSION,
    FIXED_ONE,
};
use crate::text::{text_eq, id_message, msg_timescale, timescale_message, uuid_text};
use crate::time::{seconds_lt, time_lt};

verus! {

broadcast use vstd::std_specs::hash::group_hash_axioms;

pub open spec fn msg_active_missing() -> Seq<char> {
    "active sequence does not exist"@
}

pub open spec fn msg_duplicate_media() -> Seq<char> {
    "duplicate media identifier"@
}

pub open spec fn msg_duplicate_sequence() -> Seq<char> {
    "duplicate sequence identifier"@
}

pub open spec fn msg_duplicate_track() -> Seq<char> {
    "duplicate track identifier"@
}

pub open spec fn msg_duplicate_clip() -> Seq<char> {
    "duplicate clip identifier"@
}

pub open spec fn msg_dimensions() -> Seq<char> {
    "sequence dimensions must be positive"@
}

pub open spec fn msg_media_invalid(id: u128) -> Seq<char> {
    "media "@ + uuid_text(id) + " is invalid"@
}

pub open spec fn msg_track_kind(id: u128) -> Seq<char> {
    "track "@ + uuid_text(id) + " has invalid kind"@
}

pub open spec fn msg_clip_invalid(id: u128) -> Seq<char> {
    "clip "@ + uuid_text(id) + " has invalid playback or opacity"@
}

/// The kinds of media a project can hold.
pub open spec fn media_kind_valid(k: Seq<char>) -> bool {
    k == "video"@ || k == "audio"@ || k == "image"@
}

/// The kinds of track a sequence can hold.
pub open spec fn track_kind_valid(k: Seq<char>) -> bool {
    k == "video"@ || k == "overlay"@ || k == "caption"@ || k == "audio"@
}

pub open spec fn invalid(m: Seq<char>) -> ProjectErrorView {
    ProjectErrorView::Invalid(m)
}

/// The identifiers of the media, in order.
pub open spec fn media_ids(media: Seq<MediaAsset>) -> Seq<u128> {
    media.map_values(|a: MediaAsset| a.id)
}

/// What a clip with valid timescales must satisfy: its media is in the
/// project, it starts at or after zero both in the source and on the
/// timeline, its source range is non-empty, and its rate, scale, opacity
/// (0 to 1) and volume (0 to 4) are in range.
pub open spec fn clip_settings_valid(c: ClipView, media: Set<u128>) -> bool {
    &&& media.contains(c.asset_id)
    &&& c.source_in.value >= 0
    &&& time_lt(c.source_in, c.source_out)
    &&& c.timeline_start.value >= 0
    &&& c.playback_rate > 0
    &&& c.transform.scale > 0
    &&& 0 <= c.transform.opacity <= FIXED_ONE
    &&& 0 <= c.audio.volume <= 4 * FIXED_ONE
}

/// Checks one clip against the identifiers seen so far; on success the
/// clip's identifier joins them.
pub open spec fn check_clip(c: ClipView, seen: Set<u128>, media: Set<u128>) -> Result<Set<u128>, ProjectErrorView> {
    if seen.contains(c.id) {
        Err(invalid(msg_duplicate_clip()))
    } else if c.source_in.timescale <= 0 || c.source_out.timescale <= 0 || c.timeline_start.timescale <= 0 {
        Err(invalid(msg_timescale()))
    } else if !clip_settings_valid(c, media) {
        Err(invalid(msg_clip_invalid(c.id)))
    } else {
        Ok(seen.insert(c.id))
    }
}

/// Checks clips in order; the first refusal wins.
pub open spec fn check_clips(cs: Seq<ClipView>, seen: Set<u128>, media: Set<u128>) -> Result<Set<u128>, ProjectErrorView>
    decreases cs.len(),
{
    if cs.len() == 0 {
        Ok(seen)
    } else {
        match check_clip(cs[0], seen, media) {
            Ok(s) => check_clips(cs.drop_first(), s, media),
            Err(e) => Err(e),
        }
    }
}

pub open spec fn check_track(t: TrackView, seen: Set<u128>, media: Set<u128>) -> Result<Set<u128>, ProjectErrorView> {
    if seen.contains(t.id) {
        Err(invalid(msg_duplicate_track()))
    } else if !track_kind_valid(t.kind) {
        Err(invalid(msg_track_kind(t.id)))
    } else {
        check_clips(t.clips, seen.insert(t.id), media)
    }
}

pub open spec fn check_tracks(ts: Seq<TrackView>, seen: Set<u128>, media: Set<u128>) -> Result<Set<u128>, ProjectErrorView>
    decreases ts.len(),
{
    if ts.len() == 0 {
        Ok(seen)
    } else {
        match check_track(ts[0], seen, media) {
            Ok(s) => check_tracks(ts.drop_first(), s, media),
            Err(e) => Err(e),
        }
    }
}

pub open spec fn check_sequence(s: SequenceView, seen: Set<u128>, media: Set<u128>) -> Result<Set<u128>, ProjectErrorView> {
    if seen.contains(s.id) {
        Err(invalid(msg_duplicate_sequence()))
    } else if s.frame_rate.timescale <= 0 {
        Err(invalid(msg_timescale()))
    } else if s.width == 0 || s.height == 0 {
        Err(invalid(msg_dimensions()))
    } else {
        check_tracks(s.tracks, seen.insert(s.id), media)
    }
}

pub open spec fn check_sequences(ss: Seq<SequenceView>, seen: Set<u128>, media: Set<u128>) -> Result<Set<u128>, ProjectErrorView>
    decreases ss.len(),
{
    if ss.len() == 0 {
        Ok(seen)
    } else {
        match check_sequence(ss[0], seen, media) {
            Ok(s) => check_sequences(ss.drop_first(), s, media),
            Err(e) => Err(e),
        }
    }
}

/// Checks each media asset: a positive timescale, a duration not before
/// zero and a known kind.
pub open spec fn check_assets(ms: Seq<MediaAsset>) -> Result<(), ProjectErrorView>
    decreases ms.len(),
{
    if ms.len() == 0 {
        Ok(())
    } else if ms[0].duration.timescale <= 0 {
        Err(invalid(msg_timescale()))
    } else if ms[0].duration.value < 0 || !media_kind_valid(ms[0].kind@) {
        Err(invalid(msg_media_invalid(ms[0].id)))
    } else {
        check_assets(ms.drop_first())
    }
}

/// When a project is valid, and the first reason it is not.
/// The project, its sequences, tracks and clips share one identifier space
/// that must hold no repetition; media identifiers must be distinct among
/// themselves.
pub open spec fn validation(p: ProjectView) -> Result<(), ProjectErrorView> {
    if p.schema_version > CURRENT_SCHEMA_VERSION {
        Err(ProjectErrorView::UnsupportedSchema { found: p.schema_version, supported: CURRENT_SCHEMA_VERSION })
    } else if !(exists|i: int| 0 <= i < p.sequences.len() && p.sequences[i].id == p.active_sequence_id) {
        Err(invalid(msg_active_missing()))
    } else if !media_ids(p.media).no_duplicates() {
        Err(invalid(msg_duplicate_media()))
    } else {
        match check_assets(p.media) {
            Err(e) => Err(e),
            Ok(()) => match check_sequences(p.sequences, set![p.id], media_ids(p.media).to_set()) {
                Err(e) => Err(e),
                Ok(_) => Ok(()),
            },
        }
    }
}

/// A unit result as the contracts speak of it.
pub open spec fn unit_view(r: Result<(), ProjectError>) -> Result<(), ProjectErrorView> {
    match r {
        Ok(()) => Ok(()),
        Err(e) => Err(e@),
    }
}

/// A result carrying the identifiers seen, as the contracts speak of it.
pub open spec fn seen_result(r: Result<(), ProjectError>, ids: Set<u128>) -> Result<Set<u128>, ProjectErrorView> {
    match r {
        Ok(()) => Ok(ids),
        Err(e) => Err(e@),
    }
}

fn clip_settings_ok(c: &Clip, media: &HashSet<u128>) -> (r: bool)
    requires
        c.source_in.timescale > 0,
        c.source_out.timescale > 0,
    ensures
        r == clip_settings_valid(c@, media@),
{
    media.contains(&c.asset_id) && c.source_in.value >= 0 && seconds_lt(c.source_in, c.source_out)
        && c.timeline_start.value >= 0 && c.playback_rate > 0 && c.transform.scale > 0
        && 0 <= c.transform.opacity && c.transform.opacity <= FIXED_ONE && 0 <= c.audio.volume
        && c.audio.volume <= 4 * FIXED_ONE
}

fn validate_clips(clips: &Vec<Clip>, ids: &mut HashSet<u128>, media: &HashSet<u128>) -> (r: Result<(), ProjectError>)
    ensures
        seen_result(r, final(ids)@) == check_clips(clip_views(clips@), old(ids)@, media@),
{
    let ghost whole = clip_views(clips@);
    let mut i: usize = 0;
    assert(whole.skip(0) =~= whole);
    while i < clips.len()
        invariant
            0 <= i <= clips.len(),
            whole == clip_views(clips@),
            check_clips(whole, old(ids)@, media@) == check_clips(whole.skip(i as int), ids@, media@),
        decreases clips.len() - i,
    {
        let c = &clips[i];
        assert(whole.skip(i as int)[0] == c@);
        assert(whole.skip(i as int).drop_first() =~= whole.skip(i + 1));
        if ids.contains(&c.id) {
            return Err(ProjectError::Invalid(String::from_str("duplicate clip identifier")));
        }
        if c.source_in.timescale <= 0 || c.source_out.timescale <= 0 || c.timeline_start.timescale <= 0 {
            return Err(ProjectError::Invalid(timescale_message()));
        }
        if !clip_settings_ok(c, media) {
            return Err(ProjectError::Invalid(id_message("clip ", c.id, " has invalid playback or opacity")));
        }
        ids.insert(c.id);
        i += 1;
    }
    assert(whole.skip(i as int) =~= Seq::<ClipView>::empty());
    Ok(())
}

fn validate_tracks(tracks: &Vec<Track>, ids: &mut HashSet<u128>, media: &HashSet<u128>) -> (r: Result<(), ProjectError>)
    ensures
        seen_result(r, final(ids)@) == check_tracks(track_views(tracks@), old(ids)@, media@),
{
    let ghost whole = track_views(tracks@);
    let mut i: usize = 0;
    assert(whole.skip(0) =~= whole);
    while i < tracks.len()
        invariant
            0 <= i <= tracks.len(),
            whole == track_views(tracks@),
            check_tracks(whole, old(ids)@, media@) == check_tracks(whole.skip(i as int), ids@, media@),
        decreases tracks.len() - i,
    {
        let t = &tracks[i];
        assert(whole.skip(i as int)[0] == t@);
        assert(whole.skip(i as int).drop_first() =~= whole.skip(i + 1));
        if ids.contains(&t.id) {
            return Err(ProjectError::Invalid(String::from_str("duplicate track identifier")));
        }
        let video = text_eq(&t.kind, "video");
        let overlay = text_eq(&t.kind, "overlay");
        let caption = text_eq(&t.kind, "caption");
        let audio = text_eq(&t.kind, "audio");
        if !(video || overlay || caption || audio) {
            return Err(ProjectError::Invalid(id_message("track ", t.id, " has invalid kind")));
        }
        ids.insert(t.id);
        let r = validate_clips(&t.clips, ids, media);
        if r.is_err() {
            return r;
        }
        i += 1;
    }
    assert(whole.skip(i as int) =~= Seq::<TrackView>::empty());
    Ok(())
}

fn validate_sequences(sequences: &Vec<Sequence>, ids: &mut HashSet<u128>, media: &HashSet<u128>) -> (r: Result<(), ProjectError>)
    ensures
        seen_result(r, final(ids)@) == check_sequences(sequence_views(sequences@), old(ids)@, media@),
{
    let ghost whole = sequence_views(sequences@);
    let mut i: usize = 0;
    assert(whole.skip(0) =~= whole);
    while i < sequences.len()
        invariant
            0 <= i <= sequences.len(),
            whole == sequence_views(sequences@),
            check_sequences(whole, old(ids)@, media@) == check_sequences(whole.skip(i as int), ids@, media@),
        decreases sequences.len() - i,
    {
        let s = &sequences[i];
        assert(whole.skip(i as int)[0] == s@);
        assert(whole.skip(i as int).drop_first() =~= whole.skip(i + 1));
        if ids.contains(&s.id) {
            return Err(ProjectError::Invalid(String::from_str("duplicate sequence identifier")));
        }
        let fr = s.frame_rate.validate();
        if fr.is_err() {
            return fr;
        }
        if s.width == 0 || s.height == 0 {
            return Err(ProjectError::Invalid(String::from_str("sequence dimensions must be positive")));
        }
        ids.insert(s.id);
        let r = validate_tracks(&s.tracks, ids, media);
        if r.is_err() {
            return r;
        }
        i += 1;
    }
    assert(whole.skip(i as int) =~= Seq::<SequenceView>::empty());
    Ok(())
}

fn validate_assets(media: &Vec<MediaAsset>) -> (r: Result<(), ProjectError>)
    ensures
        unit_view(r) == check_assets(media@),
{
    let mut i: usize = 0;
    assert(media@.skip(0) =~= media@);
    while i < media.len()
        invariant
            0 <= i <= media.len(),
            check_assets(media@) == check_assets(media@.skip(i as int)),
        decreases media.len() - i,
    {
        let a = &media[i];
        assert(media@.skip(i as int)[0] == *a);
        assert(media@.skip(i as int).drop_first() =~= media@.skip(i + 1));
        let d = a.duration.validate();
        if d.is_err() {
            return d;
        }
        let video = text_eq(&a.kind, "video");
        let audio = text_eq(&a.kind, "audio");
        let image = text_eq(&a.kind, "image");
        if a.duration.value < 0 || !(video || audio || image) {
            return Err(ProjectError::Invalid(id_message("media ", a.id, " is invalid")));
        }
        i += 1;
    }
    assert(media@.skip(i as int) =~= Seq::<MediaAsset>::empty());
    Ok(())
}

/// Collects the media identifiers; `false` when one repeats.
fn collect_media_ids(media: &Vec<MediaAsset>, set: &mut HashSet<u128>) -> (distinct: bool)
    requires
        old(set)@ == Set::<u128>::empty(),
    ensures
        distinct == media_ids(media@).no_duplicates(),
        distinct ==> final(set)@ == media_ids(media@).to_set(),
{
    let ghost ids = media_ids(media@);
    let mut i: usize = 0;
    while i < media.len()
        invariant
            0 <= i <= media.len(),
            ids == media_ids(media@),
            ids.take(i as int).no_duplicates(),
            set@ == ids.take(i as int).to_set(),
        decreases media.len() - i,
    {
        let id = media[i].id;
        assert(ids[i as int] == id);
        if !set.insert(id) {
            proof {
                assert(ids.take(i as int).to_set().contains(id));
                assert(ids.take(i as int).contains(id));
                let j = choose|j: int| 0 <= j < i && ids.take(i as int)[j] == id;
                assert(ids[j] == ids[i as int]);
            }
            return false;
        }
        assert(ids.take(i + 1) =~= ids.take(i as int).push(id));
        proof {
            vstd::seq_lib::lemma_seq_contains_after_push(ids.take(i as int), id, id);
        }
        assert(set@ =~= ids.take(i + 1).to_set()) by {
            assert forall|x: u128| set@.contains(x) <==> ids.take(i + 1).to_set().contains(x) by {
                assert(ids.take(i + 1).contains(x) <==> (ids.take(i as int).contains(x) || x == id));
            }
        }
        i += 1;
    }
    assert(ids.take(i as int) =~= ids);
    true
}

impl ProjectDocument {
    /// Checks the project's invariants; the contract is `validation`.
    pub fn validate(&self) -> (r: Result<(), ProjectError>)
        ensures
            unit_view(r) == validation(self@),
    {
        if self.schema_version > CURRENT_SCHEMA_VERSION {
            return Err(ProjectError::UnsupportedSchema {
                found: self.schema_version,
                supported: CURRENT_SCHEMA_VERSION,
            });
        }
        let ghost views = self@.sequences;
        let mut found = false;
        let mut i: usize = 0;
        while i < self.sequences.len()
            invariant
                0 <= i <= self.sequences.len(),
                views == sequence_views(self.sequences@),
                found <==> exists|j: int| 0 <= j < i && views[j].id == self.active_sequence_id,
            decreases self.sequences.len() - i,
        {
            assert(views[i as int] == self.sequences@[i as int]@);
            if self.sequences[i].id == self.active_sequence_id {
                found = true;
            }
            i += 1;
        }
        if !found {
            return Err(ProjectError::Invalid(String::from_str("active sequence does not exist")));
        }
        let mut ids: HashSet<u128> = HashSet::new();
        ids.insert(self.id);
        assert(ids@ =~= set![self.id]);
        let mut media_set: HashSet<u128> = HashSet::new();
        if !collect_media_ids(&self.media, &mut media_set) {
            return Err(ProjectError::Invalid(String::from_str("duplicate media identifier")));
        }
        let a = validate_assets(&self.media);
        if a.is_err() {
            return a;
        }
        let s = validate_sequences(&self.sequences, &mut ids, &media_set);
        if s.is_err() {
            return s;
        }
        Ok(())
    }
}

} // verus!

verus! {

/// A new project is valid whenever the identifiers it is given — project,
/// sequence and the four tracks — are pairwise distinct.
pub proof fn lemma_new_document_valid(
    name: Seq<char>,
    project_id: u128,
    sequence_id: u128,
    track_ids: Seq<u128>,
    now: Seq<char>,
)
    requires
        track_ids.len() == 4,
        seq![project_id, sequence_id].add(track_ids).no_duplicates(),
    ensures
        validation(crate::project::new_document(name, project_id, sequence_id, track_ids, now)) == Ok::<(), ProjectErrorView>(()),
{
    let p = crate::project::new_document(name, project_id, sequence_id, track_ids, now);
    let all = seq![project_id, sequence_id].add(track_ids);
    assert(all[0] == project_id && all[1] == sequence_id);
    assert(forall|k: int| 0 <= k < 4 ==> all[k + 2] == track_ids[k]);
    assert(p.sequences[0].id == p.active_sequence_id);
    assert(media_ids(p.media) =~= Seq::<u128>::empty());
    assert(p.sequences.drop_first() =~= Seq::<SequenceView>::empty());
    let s = p.sequences[0];
    let t = s.tracks;
    let s0 = set![project_id, sequence_id];
    let s1 = s0.insert(track_ids[0]);
    let s2 = s1.insert(track_ids[1]);
    let s3 = s2.insert(track_ids[2]);
    assert(t[0].clips =~= Seq::<ClipView>::empty());
    assert(t.drop_first()[0] == t[1]);
    assert(t.drop_first().drop_first()[0] == t[2]);
    assert(t.drop_first().drop_first().drop_first()[0] == t[3]);
    assert(t.drop_first().drop_first().drop_first().drop_first() =~= Seq::<TrackView>::empty());
    assert(!s0.contains(track_ids[0]));
    assert(!s1.contains(track_ids[1]));
    assert(!s2.contains(track_ids[2]));
    assert(!s3.contains(track_ids[3]));
    assert(check_assets(p.media) == Ok::<(), ProjectErrorView>(()));
    assert(check_sequences(p.sequences, set![p.id], media_ids(p.media).to_set()) is Ok) by {
        reveal_with_fuel(check_tracks, 5);
        reveal_with_fuel(check_sequences, 2);
        assert(set![p.id].insert(sequence_id) =~= s0);
    }
}

/// A media record the validator accepts on its own: its duration has a
/// positive timescale and is not negative, and its kind is video, audio or
/// image.
pub open spec fn asset_acceptable(a: MediaAsset) -> bool {
    &&& a.duration.timescale > 0
    &&& a.duration.value >= 0
    &&& (a.kind@ == "video"@ || a.kind@ == "audio"@ || a.kind@ == "image"@)
}

/// The media records pass exactly when every one of them is acceptable:
/// video, audio and image media with a sound duration are all accepted,
/// and nothing else is.
pub proof fn lemma_assets_checked(ms: Seq<MediaAsset>)
    ensures
        check_assets(ms) is Ok <==> forall|i: int| 0 <= i < ms.len() ==> asset_acceptable(#[trigger] ms[i]),
    decreases ms.len(),
{
    if ms.len() > 0 {
        lemma_assets_checked(ms.drop_first());
        if forall|i: int| 0 <= i < ms.len() ==> asset_acceptable(#[trigger] ms[i]) {
            assert forall|i: int| 0 <= i < ms.drop_first().len() implies asset_acceptable(#[trigger] ms.drop_first()[i]) by {
                assert(ms.drop_first()[i] == ms[i + 1]);
            }
        } else if check_assets(ms) is Ok {
            assert forall|i: int| 0 <= i < ms.len() implies asset_acceptable(#[trigger] ms[i]) by {
                if i > 0 {
                    assert(ms[i] == ms.drop_first()[i - 1]);
                }
            }
        }
    }
}

/// A new project stays valid with any media of distinct identifiers that
/// are each acceptable: in particular, with one video, one audio or one
/// image record.
pub proof fn lemma_new_document_with_media_valid(
    name: Seq<char>,
    project_id: u128,
    sequence_id: u128,
    track_ids: Seq<u128>,
    now: Seq<char>,
    media: Seq<MediaAsset>,
)
    requires
        track_ids.len() == 4,
        seq![project_id, sequence_id].add(track_ids).no_duplicates(),
        media_ids(media).no_duplicates(),
        forall|i: int| 0 <= i < media.len() ==> asset_acceptable(#[trigger] media[i]),
    ensures
        validation(ProjectView { media, ..crate::project::new_document(name, project_id, sequence_id, track_ids, now) })
            == Ok::<(), ProjectErrorView>(()),
{
    let p = ProjectView { media, ..crate::project::new_document(name, project_id, sequence_id, track_ids, now) };
    let all = seq![project_id, sequence_id].add(track_ids);
    assert(all[0] == project_id && all[1] == sequence_id);
    assert(forall|k: int| 0 <= k < 4 ==> all[k + 2] == track_ids[k]);
    assert(p.sequences[0].id == p.active_sequence_id);
    assert(p.sequences.drop_first() =~= Seq::<SequenceView>::empty());
    let s = p.sequences[0];
    let t = s.tracks;
    let s0 = set![project_id, sequence_id];
    let s1 = s0.insert(track_ids[0]);
    let s2 = s1.insert(track_ids[1]);
    let s3 = s2.insert(track_ids[2]);
    assert(t[0].clips =~= Seq::<ClipView>::empty());
    assert(t.drop_first()[0] == t[1]);
    assert(t.drop_first().drop_first()[0] == t[2]);
    assert(t.drop_first().drop_first().drop_first()[0] == t[3]);
    assert(t.drop_first().drop_first().drop_first().drop_first() =~= Seq::<TrackView>::empty());
    assert(!s0.contains(track_ids[0]));
    assert(!s1.contains(track_ids[1]));
    assert(!s2.contains(track_ids[2]));
    assert(!s3.contains(track_ids[3]));
    lemma_assets_checked(media);
    assert(check_sequences(p.sequences, set![p.id], media_ids(p.media).to_set()) is Ok) by {
        reveal_with_fuel(check_tracks, 5);
        reveal_with_fuel(check_sequences, 2);
        assert(set![p.id].insert(sequence_id) =~= s0);
    }
}

} // verus!
