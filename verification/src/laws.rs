use vstd::prelude::*;

use crate::command::{
    apply_edit, changes_media, command_effect, committed, dispatch_outcome, edit_clip, locate_track,
    msg_other_project, msg_stale, pre_commit_refusal, precheck, replace_track, source_known, with_clips, ClipEdit,
    CommandEnvelope, EditorCommand,
};
use crate::split::split_plan;
use crate::time::RationalTime;
use crate::lookup::{drop_id, find_id, lemma_drop_pushed, lemma_find_id, lemma_find_id_at, Keyed};
use crate::project::{FIXED_ONE, ClipView, MediaAsset, ProjectErrorView, ProjectView, SequenceView, TrackView};
use crate::validation::{
    check_clip, check_clips, check_sequence, check_sequences, check_track, check_tracks, invalid, media_ids,
    validation,
};

verus! {

/// Commands from a provider never change the project's media: whatever a
/// non-manual command does, an accepted one leaves the media list as it was.
pub proof fn lemma_providers_keep_media(p: ProjectView, env: CommandEnvelope, fresh: u128, now: Seq<char>)
    requires
        env.source@ != "manual"@,
    ensures
        dispatch_outcome(p, env, fresh, now) matches Ok((q, _)) ==> q.media == p.media,
{
    if precheck(p, env) is None {
        assert(!changes_media(env.payload));
    }
}

/// An accepted command leaves a valid project, one revision later, with the
/// same identity, name, creation time, active sequence, conversations,
/// consent and analysis records, stamped with the time of the change. An accepted command is
/// never one refused before the commit, so wherever the dispatcher admits
/// it the revision counter had room for the step.
pub proof fn lemma_accepted_is_valid(p: ProjectView, env: CommandEnvelope, fresh: u128, now: Seq<char>)
    ensures
        dispatch_outcome(p, env, fresh, now) is Ok ==> pre_commit_refusal(p, env) is None,
        dispatch_outcome(p, env, fresh, now) is Ok && (p.revision < u64::MAX || pre_commit_refusal(p, env) is Some)
            ==> dispatch_outcome(p, env, fresh, now)->Ok_0.0.revision == p.revision + 1,
        dispatch_outcome(p, env, fresh, now) matches Ok((q, _)) ==> {
            &&& validation(q) == Ok::<(), ProjectErrorView>(())
            &&& q.revision == (p.revision + 1) as u64
            &&& q.id == p.id
            &&& q.updated_at == now
            &&& q.schema_version == p.schema_version
            &&& q.name == p.name
            &&& q.created_at == p.created_at
            &&& q.active_sequence_id == p.active_sequence_id
            &&& q.conversations == p.conversations
            &&& q.hosted_context_consent == p.hosted_context_consent
            &&& q.analysis_artifacts == p.analysis_artifacts
        },
{
    crate::command::lemma_effect_frame(p, env.payload, fresh);
    crate::command::lemma_effect_error_ignores_fresh(p, env.payload, fresh, 0);
}

/// A command written against another project, or against another revision
/// of this one, is refused and changes nothing.
pub proof fn lemma_mismatch_refused(p: ProjectView, env: CommandEnvelope, fresh: u128, now: Seq<char>)
    ensures
        env.project_id != p.id ==> dispatch_outcome(p, env, fresh, now) == Err::<(ProjectView, Seq<u128>), ProjectErrorView>(invalid(msg_other_project())),
        env.project_id == p.id && env.expected_project_revision != p.revision
            ==> dispatch_outcome(p, env, fresh, now) == Err::<(ProjectView, Seq<u128>), ProjectErrorView>(
                invalid(msg_stale(env.expected_project_revision, p.revision)),
            ),
{
}

/// Replacing an element by one with the same identifier keeps every lookup.
pub proof fn lemma_find_after_update<A: Keyed>(s: Seq<A>, i: int, x: A, id: u128)
    requires
        0 <= i < s.len(),
        x.key() == s[i].key(),
    ensures
        find_id(s.update(i, x), id) == find_id(s, id),
{
    lemma_find_id(s, id);
    lemma_find_id(s.update(i, x), id);
    match find_id(s, id) {
        Some(k) => {
            assert forall|j: int| 0 <= j < k implies s.update(i, x)[j].key() != id by {
                if j == i {
                } else {
                }
            }
            lemma_find_id_at(s.update(i, x), id, k);
        },
        None => {
            assert forall|j: int| 0 <= j < s.len() implies s.update(i, x)[j].key() != id by {}
            crate::lookup::lemma_find_id_none(s.update(i, x), id);
        },
    }
}

/// Replacing a track by one with the same identifier and lock keeps where
/// every command's track is found.
pub proof fn lemma_locate_after_replace(p: ProjectView, si: int, ti: int, t: TrackView, track_id: u128)
    requires
        0 <= si < p.sequences.len(),
        0 <= ti < p.sequences[si].tracks.len(),
        t.id == p.sequences[si].tracks[ti].id,
        t.locked == p.sequences[si].tracks[ti].locked,
    ensures
        locate_track(replace_track(p, si, ti, t), track_id) == locate_track(p, track_id),
{
    let q = replace_track(p, si, ti, t);
    let s2 = SequenceView { tracks: p.sequences[si].tracks.update(ti, t), ..p.sequences[si] };
    lemma_find_after_update(p.sequences, si, s2, p.active_sequence_id);
    lemma_find_after_update(p.sequences[si].tracks, ti, t, track_id);
    lemma_find_id(p.sequences, p.active_sequence_id);
    match find_id(p.sequences, p.active_sequence_id) {
        Some(k) => {
            if k != si {
                assert(q.sequences[k] == p.sequences[k]);
            } else {
                lemma_find_id(p.sequences[si].tracks, track_id);
            }
        },
        None => {},
    }
}

/// A clip edit is undone by the edit that puts the clip's old values back:
/// the project returns to what it was.
pub proof fn lemma_edit_undone(p: ProjectView, track_id: u128, clip_id: u128, e: ClipEdit, back: ClipEdit)
    requires
        edit_clip(p, track_id, clip_id, e) is Ok,
        locate_track(p, track_id) matches Ok((si, ti))
            && find_id(p.sequences[si].tracks[ti].clips, clip_id) matches Some(ci)
            && apply_edit(apply_edit(p.sequences[si].tracks[ti].clips[ci], e), back) == p.sequences[si].tracks[ti].clips[ci],
    ensures
        edit_clip(edit_clip(p, track_id, clip_id, e)->Ok_0.0, track_id, clip_id, back) matches Ok((r, _))
            && r == p,
{
    let (si, ti) = locate_track(p, track_id)->Ok_0;
    lemma_find_id(p.sequences, p.active_sequence_id);
    lemma_find_id(p.sequences[si].tracks, track_id);
    let t = p.sequences[si].tracks[ti];
    let ci = find_id(t.clips, clip_id)->Some_0;
    lemma_find_id(t.clips, clip_id);
    let c2 = apply_edit(t.clips[ci], e);
    let t2 = with_clips(t, t.clips.update(ci, c2));
    let q = replace_track(p, si, ti, t2);
    assert(c2.id == t.clips[ci].id) by {
        match e {
            ClipEdit::Start(_) => {},
            ClipEdit::Trim(_, _) => {},
            ClipEdit::Rate(_) => {},
            ClipEdit::Opacity(_) => {},
            ClipEdit::Volume(_) => {},
        }
    }
    lemma_locate_after_replace(p, si, ti, t2, track_id);
    assert(q.sequences[si].tracks[ti] == t2);
    lemma_find_after_update(t.clips, ci, c2, clip_id);
    let c3 = apply_edit(c2, back);
    assert(c3 == t.clips[ci]);
    let t3 = with_clips(t2, t2.clips.update(ci, c3));
    assert(t3.clips =~= t.clips);
    assert(t3 =~= t);
    crate::command::lemma_replace_twice(p, si, ti, t2, t3);
    assert(p.sequences[si].tracks.update(ti, t) =~= p.sequences[si].tracks);
    assert(p.sequences.update(si, SequenceView { tracks: p.sequences[si].tracks, ..p.sequences[si] }) =~= p.sequences);
    assert(replace_track(p, si, ti, t) =~= p);
}

/// Validity does not depend on the revision or on when the project was last changed.
pub proof fn lemma_validation_ignores_stamp(p: ProjectView, q: ProjectView)
    requires
        q.schema_version == p.schema_version,
        q.id == p.id,
        q.media == p.media,
        q.sequences == p.sequences,
        q.active_sequence_id == p.active_sequence_id,
    ensures
        validation(q) == validation(p),
{
}

} // verus!

verus! {

pub open spec fn clip_sound(c: ClipView, media: Set<u128>) -> bool {
    &&& c.source_in.timescale > 0
    &&& c.source_out.timescale > 0
    &&& c.timeline_start.timescale > 0
    &&& crate::validation::clip_settings_valid(c, media)
}

proof fn lemma_checked_clips(cs: Seq<ClipView>, seen: Set<u128>, m: Set<u128>)
    requires
        check_clips(cs, seen, m) is Ok,
    ensures
        forall|i: int| 0 <= i < cs.len() ==> clip_sound(#[trigger] cs[i], m),
    decreases cs.len(),
{
    if cs.len() > 0 {
        let s = check_clip(cs[0], seen, m)->Ok_0;
        lemma_checked_clips(cs.drop_first(), s, m);
        assert forall|i: int| 0 <= i < cs.len() implies clip_sound(#[trigger] cs[i], m) by {
            if i > 0 {
                assert(cs[i] == cs.drop_first()[i - 1]);
            }
        }
    }
}

proof fn lemma_checked_tracks(ts: Seq<TrackView>, seen: Set<u128>, m: Set<u128>)
    requires
        check_tracks(ts, seen, m) is Ok,
    ensures
        forall|i: int, j: int| 0 <= i < ts.len() && 0 <= j < ts[i].clips.len() ==> clip_sound(#[trigger] ts[i].clips[j], m),
    decreases ts.len(),
{
    if ts.len() > 0 {
        let s = check_track(ts[0], seen, m)->Ok_0;
        lemma_checked_clips(ts[0].clips, seen.insert(ts[0].id), m);
        lemma_checked_tracks(ts.drop_first(), s, m);
        assert forall|i: int, j: int| 0 <= i < ts.len() && 0 <= j < ts[i].clips.len() implies clip_sound(#[trigger] ts[i].clips[j], m) by {
            if i > 0 {
                assert(ts[i] == ts.drop_first()[i - 1]);
            }
        }
    }
}

proof fn lemma_checked_sequences(ss: Seq<SequenceView>, seen: Set<u128>, m: Set<u128>)
    requires
        check_sequences(ss, seen, m) is Ok,
    ensures
        forall|i: int, j: int, k: int|
            0 <= i < ss.len() && 0 <= j < ss[i].tracks.len() && 0 <= k < ss[i].tracks[j].clips.len()
                ==> clip_sound(#[trigger] ss[i].tracks[j].clips[k], m),
    decreases ss.len(),
{
    if ss.len() > 0 {
        let s = check_sequence(ss[0], seen, m)->Ok_0;
        lemma_checked_tracks(ss[0].tracks, seen.insert(ss[0].id), m);
        lemma_checked_sequences(ss.drop_first(), s, m);
        assert forall|i: int, j: int, k: int|
            0 <= i < ss.len() && 0 <= j < ss[i].tracks.len() && 0 <= k < ss[i].tracks[j].clips.len()
                implies clip_sound(#[trigger] ss[i].tracks[j].clips[k], m) by {
            if i > 0 {
                assert(ss[i] == ss.drop_first()[i - 1]);
            }
        }
    }
}

/// In a valid project every clip has positive timescales, uses media of the
/// project, and has its settings in range.
pub proof fn lemma_valid_clips(p: ProjectView)
    requires
        validation(p) == Ok::<(), ProjectErrorView>(()),
    ensures
        forall|i: int, j: int, k: int|
            0 <= i < p.sequences.len() && 0 <= j < p.sequences[i].tracks.len() && 0 <= k < p.sequences[i].tracks[j].clips.len()
                ==> clip_sound(#[trigger] p.sequences[i].tracks[j].clips[k], media_ids(p.media).to_set()),
{
    lemma_checked_sequences(p.sequences, set![p.id], media_ids(p.media).to_set());
}

/// Moving a clip back to where it was undoes a move: from a valid project,
/// a move followed by the move that restores the clip's start (sent from any
/// known source against the next revision) is accepted, and leaves media and
/// sequences as they were.
pub proof fn lemma_move_undone(
    p: ProjectView,
    first: CommandEnvelope,
    second: CommandEnvelope,
    f1: u128,
    f2: u128,
    n1: Seq<char>,
    n2: Seq<char>,
)
    requires
        validation(p) == Ok::<(), ProjectErrorView>(()),
        p.revision + 2 <= u64::MAX,
        dispatch_outcome(p, first, f1, n1) is Ok,
        first.payload is MoveClip,
        second.project_id == p.id,
        source_known(second.source@),
        second.expected_project_revision == p.revision + 1,
        second.payload is MoveClip,
        second.payload->MoveClip_track_id == first.payload->MoveClip_track_id,
        second.payload->MoveClip_clip_id == first.payload->MoveClip_clip_id,
        locate_track(p, first.payload->MoveClip_track_id) matches Ok((si, ti))
            && find_id(p.sequences[si].tracks[ti].clips, first.payload->MoveClip_clip_id) matches Some(ci)
            && second.payload->MoveClip_timeline_start == p.sequences[si].tracks[ti].clips[ci].timeline_start,
    ensures
        dispatch_outcome(dispatch_outcome(p, first, f1, n1)->Ok_0.0, second, f2, n2) matches Ok((r, _))
            && r.media == p.media && r.sequences == p.sequences,
{
    let track_id = first.payload->MoveClip_track_id;
    let clip_id = first.payload->MoveClip_clip_id;
    let t1 = first.payload->MoveClip_timeline_start;
    let back = second.payload->MoveClip_timeline_start;
    let (si, ti) = locate_track(p, track_id)->Ok_0;
    lemma_find_id(p.sequences, p.active_sequence_id);
    lemma_find_id(p.sequences[si].tracks, track_id);
    let ci = find_id(p.sequences[si].tracks[ti].clips, clip_id)->Some_0;
    lemma_find_id(p.sequences[si].tracks[ti].clips, clip_id);
    let c = p.sequences[si].tracks[ti].clips[ci];
    lemma_valid_clips(p);
    assert(clip_sound(p.sequences[si].tracks[ti].clips[ci], media_ids(p.media).to_set()));
    assert(back.value >= 0);
    crate::command::lemma_effect_frame(p, first.payload, f1);
    let q0 = edit_clip(p, track_id, clip_id, ClipEdit::Start(t1))->Ok_0.0;
    assert(command_effect(p, first.payload, f1) == edit_clip(p, track_id, clip_id, ClipEdit::Start(t1)));
    let q = committed(q0, n1);
    assert(dispatch_outcome(p, first, f1, n1)->Ok_0.0 == q);
    assert(apply_edit(apply_edit(c, ClipEdit::Start(t1)), ClipEdit::Start(back)) =~= c);
    lemma_edit_undone(p, track_id, clip_id, ClipEdit::Start(t1), ClipEdit::Start(back));
    assert(precheck(q, second) is None) by {
        assert(precheck(p, first) is None);
    }
    let r0 = edit_clip(q, track_id, clip_id, ClipEdit::Start(back));
    assert(r0 matches Ok((r1, _)) && r1.sequences == p.sequences && r1.media == p.media);
    assert(command_effect(q, second.payload, f2) == r0);
    let r1 = r0->Ok_0.0;
    lemma_validation_ignores_stamp(p, committed(r1, n2));
}

/// Adding media and then removing it again (both by hand) restores the
/// media list: from a valid project, an accepted media import followed by
/// its removal against the next revision is accepted and leaves media and
/// sequences as they were.
pub proof fn lemma_import_undone(
    p: ProjectView,
    first: CommandEnvelope,
    second: CommandEnvelope,
    f1: u128,
    f2: u128,
    n1: Seq<char>,
    n2: Seq<char>,
)
    requires
        validation(p) == Ok::<(), ProjectErrorView>(()),
        p.revision + 2 <= u64::MAX,
        dispatch_outcome(p, first, f1, n1) is Ok,
        first.payload is AddMedia,
        second.project_id == p.id,
        second.source@ == "manual"@,
        second.expected_project_revision == p.revision + 1,
        second.payload matches EditorCommand::RemoveMedia { asset_id } && asset_id == first.payload->AddMedia_asset.id,
    ensures
        dispatch_outcome(dispatch_outcome(p, first, f1, n1)->Ok_0.0, second, f2, n2) matches Ok((r, _))
            && r.media == p.media && r.sequences == p.sequences,
{
    let asset: MediaAsset = *first.payload->AddMedia_asset;
    let q0 = command_effect(p, first.payload, f1)->Ok_0.0;
    assert(q0.media == p.media.push(asset));
    assert(q0.sequences == p.sequences);
    let q = committed(q0, n1);
    lemma_valid_clips(p);
    assert(!crate::command::media_in_use(q, asset.id)) by {
        if crate::command::media_in_use(q, asset.id) {
            let (i, j, k) = choose|i: int, j: int, k: int|
                0 <= i < q.sequences.len() && 0 <= j < q.sequences[i].tracks.len()
                    && 0 <= k < q.sequences[i].tracks[j].clips.len()
                    && #[trigger] q.sequences[i].tracks[j].clips[k].asset_id == asset.id;
            assert(clip_sound(p.sequences[i].tracks[j].clips[k], media_ids(p.media).to_set()));
            assert(media_ids(p.media).to_set().contains(asset.id));
            assert(media_ids(p.media).contains(asset.id));
            let m = choose|m: int| 0 <= m < media_ids(p.media).len() && media_ids(p.media)[m] == asset.id;
            assert(p.media[m].id == asset.id);
        }
    }
    assert forall|j: int| 0 <= j < p.media.len() implies p.media[j].key() != asset.key() by {}
    lemma_drop_pushed(p.media, asset);
    let r1 = command_effect(q, second.payload, f2)->Ok_0.0;
    assert(r1.media == p.media);
    lemma_validation_ignores_stamp(p, committed(r1, n2));
}

} // verus!

verus! {

/// Commands never alter a media record: after an accepted command every
/// media record of the project was already in it unchanged, or is the one
/// a manual import just added.
pub proof fn lemma_media_records_untouched(p: ProjectView, env: CommandEnvelope, fresh: u128, now: Seq<char>)
    ensures
        dispatch_outcome(p, env, fresh, now) matches Ok((q, _)) ==> forall|i: int|
            0 <= i < q.media.len() ==> p.media.contains(#[trigger] q.media[i])
                || (env.payload matches EditorCommand::AddMedia { asset } && q.media[i] == *asset),
{
    if dispatch_outcome(p, env, fresh, now) is Ok {
        crate::command::lemma_effect_frame(p, env.payload, fresh);
        match env.payload {
            EditorCommand::RemoveMedia { asset_id } => {
                crate::lookup::lemma_drop_subset(p.media, asset_id);
            },
            EditorCommand::AddMedia { asset } => {
                let q = dispatch_outcome(p, env, fresh, now)->Ok_0.0;
                assert(q.media == p.media.push(*asset));
                assert forall|i: int| 0 <= i < q.media.len() implies p.media.contains(#[trigger] q.media[i])
                    || q.media[i] == *asset by {
                    if i < p.media.len() {
                        assert(q.media[i] == p.media[i]);
                    }
                }
            },
            _ => {
                let q = dispatch_outcome(p, env, fresh, now)->Ok_0.0;
                assert(q.media == p.media);
                assert forall|i: int| 0 <= i < q.media.len() implies p.media.contains(#[trigger] q.media[i]) by {
                    assert(p.media[i] == q.media[i]);
                }
            },
        }
    }
}

} // verus!

verus! {

proof fn lemma_clips_distinct(cs: Seq<ClipView>, seen: Set<u128>, m: Set<u128>)
    requires
        check_clips(cs, seen, m) is Ok,
    ensures
        forall|i: int| 0 <= i < cs.len() ==> !seen.contains(#[trigger] cs[i].id),
        forall|i: int, j: int| 0 <= i < j < cs.len() ==> cs[i].id != cs[j].id,
    decreases cs.len(),
{
    if cs.len() > 0 {
        let s = check_clip(cs[0], seen, m)->Ok_0;
        assert(s == seen.insert(cs[0].id));
        lemma_clips_distinct(cs.drop_first(), s, m);
        assert forall|i: int| 0 <= i < cs.len() implies !seen.contains(#[trigger] cs[i].id) by {
            if i > 0 {
                assert(cs[i] == cs.drop_first()[i - 1]);
            }
        }
        assert forall|i: int, j: int| 0 <= i < j < cs.len() implies cs[i].id != cs[j].id by {
            assert(cs[j] == cs.drop_first()[j - 1]);
            if i > 0 {
                assert(cs[i] == cs.drop_first()[i - 1]);
            }
        }
    }
}

proof fn lemma_tracks_distinct(ts: Seq<TrackView>, seen: Set<u128>, m: Set<u128>)
    requires
        check_tracks(ts, seen, m) is Ok,
    ensures
        forall|t: int, i: int, j: int| 0 <= t < ts.len() && 0 <= i < j < ts[t].clips.len() ==> #[trigger] ts[t].clips[i].id != #[trigger] ts[t].clips[j].id,
    decreases ts.len(),
{
    if ts.len() > 0 {
        let s = check_track(ts[0], seen, m)->Ok_0;
        lemma_clips_distinct(ts[0].clips, seen.insert(ts[0].id), m);
        lemma_tracks_distinct(ts.drop_first(), s, m);
        assert forall|t: int, i: int, j: int| 0 <= t < ts.len() && 0 <= i < j < ts[t].clips.len() implies #[trigger] ts[t].clips[i].id != #[trigger] ts[t].clips[j].id by {
            if t > 0 {
                assert(ts[t] == ts.drop_first()[t - 1]);
            }
        }
    }
}

proof fn lemma_sequences_distinct(ss: Seq<SequenceView>, seen: Set<u128>, m: Set<u128>)
    requires
        check_sequences(ss, seen, m) is Ok,
    ensures
        forall|q: int, t: int, i: int, j: int|
            0 <= q < ss.len() && 0 <= t < ss[q].tracks.len() && 0 <= i < j < ss[q].tracks[t].clips.len()
                ==> #[trigger] ss[q].tracks[t].clips[i].id != #[trigger] ss[q].tracks[t].clips[j].id,
    decreases ss.len(),
{
    if ss.len() > 0 {
        let s = check_sequence(ss[0], seen, m)->Ok_0;
        lemma_tracks_distinct(ss[0].tracks, seen.insert(ss[0].id), m);
        lemma_sequences_distinct(ss.drop_first(), s, m);
        assert forall|q: int, t: int, i: int, j: int|
            0 <= q < ss.len() && 0 <= t < ss[q].tracks.len() && 0 <= i < j < ss[q].tracks[t].clips.len()
                implies #[trigger] ss[q].tracks[t].clips[i].id != #[trigger] ss[q].tracks[t].clips[j].id by {
            if q > 0 {
                assert(ss[q] == ss.drop_first()[q - 1]);
            }
        }
    }
}

/// In a valid project no track holds two clips with one identifier.
pub proof fn lemma_valid_clip_ids_distinct(p: ProjectView)
    requires
        validation(p) == Ok::<(), ProjectErrorView>(()),
    ensures
        forall|q: int, t: int, i: int, j: int|
            0 <= q < p.sequences.len() && 0 <= t < p.sequences[q].tracks.len() && 0 <= i < j < p.sequences[q].tracks[t].clips.len()
                ==> #[trigger] p.sequences[q].tracks[t].clips[i].id != #[trigger] p.sequences[q].tracks[t].clips[j].id,
{
    lemma_sequences_distinct(p.sequences, set![p.id], media_ids(p.media).to_set());
}

/// Removing the copy a duplication made undoes it: from a valid project, an
/// accepted duplication followed by the removal of the new clip (from any
/// known source, against the next revision) is accepted and leaves media and sequences as
/// they were.
pub proof fn lemma_duplicate_undone(
    p: ProjectView,
    first: CommandEnvelope,
    second: CommandEnvelope,
    f1: u128,
    f2: u128,
    n1: Seq<char>,
    n2: Seq<char>,
)
    requires
        validation(p) == Ok::<(), ProjectErrorView>(()),
        p.revision + 2 <= u64::MAX,
        dispatch_outcome(p, first, f1, n1) is Ok,
        first.payload is DuplicateClip,
        second.project_id == p.id,
        source_known(second.source@),
        second.expected_project_revision == p.revision + 1,
        second.payload matches EditorCommand::RemoveClip { track_id, clip_id }
            && track_id == first.payload->DuplicateClip_track_id && clip_id == f1,
    ensures
        dispatch_outcome(dispatch_outcome(p, first, f1, n1)->Ok_0.0, second, f2, n2) matches Ok((r, _))
            && r.media == p.media && r.sequences == p.sequences,
{
    let track_id = first.payload->DuplicateClip_track_id;
    let clip_id = first.payload->DuplicateClip_clip_id;
    let start = first.payload->DuplicateClip_timeline_start;
    crate::command::lemma_effect_frame(p, first.payload, f1);
    let (si, ti) = locate_track(p, track_id)->Ok_0;
    lemma_find_id(p.sequences, p.active_sequence_id);
    lemma_find_id(p.sequences[si].tracks, track_id);
    let t = p.sequences[si].tracks[ti];
    let ci = find_id(t.clips, clip_id)->Some_0;
    let c = t.clips[ci];
    let copy = ClipView { id: f1, name: c.name + " copy"@, timeline_start: start, ..c };
    let t2 = with_clips(t, t.clips.push(copy));
    let q0 = replace_track(p, si, ti, t2);
    assert(command_effect(p, first.payload, f1) == Ok::<(ProjectView, Seq<u128>), ProjectErrorView>((q0, seq![f1])));
    let q = committed(q0, n1);
    assert(dispatch_outcome(p, first, f1, n1)->Ok_0.0 == q);
    lemma_valid_clip_ids_distinct(q);
    assert(q.sequences[si].tracks[ti] == t2);
    assert forall|j: int| 0 <= j < t.clips.len() implies t.clips[j].key() != copy.key() by {
        assert(t2.clips[j] == t.clips[j]);
        assert(t2.clips[t.clips.len() as int] == copy);
    }
    lemma_drop_pushed(t.clips, copy);
    lemma_locate_after_replace(p, si, ti, t2, track_id);
    assert(precheck(q, second) is None) by {
        assert(precheck(p, first) is None);
    }
    let t3 = with_clips(t2, drop_id(t2.clips, f1));
    assert(t3 =~= t);
    crate::command::lemma_replace_twice(p, si, ti, t2, t3);
    assert(p.sequences[si].tracks.update(ti, t) =~= p.sequences[si].tracks);
    assert(p.sequences.update(si, SequenceView { tracks: p.sequences[si].tracks, ..p.sequences[si] }) =~= p.sequences);
    let r0 = command_effect(q, second.payload, f2);
    assert(r0 matches Ok((r1, _)) && r1.sequences == p.sequences && r1.media == p.media);
    let r1 = r0->Ok_0.0;
    lemma_validation_ignores_stamp(p, committed(r1, n2));
}

/// An accepted clip addition appends one new clip, with the fresh
/// identifier, to the named track of the active sequence and changes no
/// other clip of it: the new clip shows the requested media from its very
/// start (in-point zero), begins on the timeline exactly where the command
/// asked, and plays at normal speed.
pub proof fn lemma_added_clip(p: ProjectView, env: CommandEnvelope, fresh: u128, now: Seq<char>)
    requires
        env.payload is AddClip,
    ensures
        dispatch_outcome(p, env, fresh, now) matches Ok((q, ids)) ==> {
            let track_id = env.payload->AddClip_track_id;
            &&& ids == seq![fresh]
            &&& locate_track(p, track_id) matches Ok((si, ti)) && {
                let before = p.sequences[si].tracks[ti].clips;
                let after = q.sequences[si].tracks[ti].clips;
                &&& after.len() == before.len() + 1
                &&& after.subrange(0, before.len() as int) == before
                &&& after.last().id == fresh
                &&& after.last().asset_id == env.payload->AddClip_asset_id
                &&& after.last().timeline_start == env.payload->AddClip_timeline_start
                &&& after.last().source_in.value == 0
                &&& after.last().playback_rate == FIXED_ONE
                &&& find_id(p.media, env.payload->AddClip_asset_id) matches Some(mi)
                    && (p.media[mi].duration.value > 0 && p.media[mi].duration.timescale > 0
                        ==> after.last().source_out == p.media[mi].duration)
            }
        },
{
    if dispatch_outcome(p, env, fresh, now) is Ok {
        let track_id = env.payload->AddClip_track_id;
        let asset_id = env.payload->AddClip_asset_id;
        let start = env.payload->AddClip_timeline_start;
        let mi = find_id(p.media, asset_id)->Some_0;
        lemma_find_id(p.media, asset_id);
        let (si, ti) = locate_track(p, track_id)->Ok_0;
        lemma_find_id(p.sequences, p.active_sequence_id);
        lemma_find_id(p.sequences[si].tracks, track_id);
        let t = p.sequences[si].tracks[ti];
        let t2 = with_clips(t, t.clips.push(crate::command::new_clip(p.media[mi], fresh, start)));
        let q0 = replace_track(p, si, ti, t2);
        assert(command_effect(p, env.payload, fresh) == Ok::<(ProjectView, Seq<u128>), ProjectErrorView>((q0, seq![fresh])));
        let q = committed(q0, now);
        assert(q.sequences[si].tracks[ti] == t2);
        assert(t2.clips.subrange(0, t.clips.len() as int) =~= t.clips);
    }
}

/// An accepted split turns the clip into two adjacent clips and changes no
/// other clip of the track: the left part keeps the clip's identifier,
/// start and in-point and now ends at the cut; the right part, with the
/// fresh identifier, starts at the cut in the source and at the split point
/// on the timeline, and ends where the clip ended. The cut is the one
/// `split_plan` computes, which `lemma_split_cut` places in the source.
pub proof fn lemma_split_parts(p: ProjectView, env: CommandEnvelope, fresh: u128, now: Seq<char>)
    requires
        env.payload is SplitClip,
    ensures
        dispatch_outcome(p, env, fresh, now) matches Ok((q, ids)) ==> {
            let track_id = env.payload->SplitClip_track_id;
            let clip_id = env.payload->SplitClip_clip_id;
            let at = env.payload->SplitClip_at;
            &&& ids == seq![clip_id, fresh]
            &&& locate_track(p, track_id) matches Ok((si, ti)) && {
                let before = p.sequences[si].tracks[ti].clips;
                let after = q.sequences[si].tracks[ti].clips;
                find_id(before, clip_id) matches Some(ci) && {
                    let c = before[ci];
                    &&& split_plan(c, at) matches Ok(t) && after[ci].source_out == (RationalTime { value: t as i64, timescale: 600 })
                    &&& after.len() == before.len() + 1
                    &&& after.subrange(0, ci) == before.subrange(0, ci)
                    &&& after.subrange(ci + 2, after.len() as int) == before.subrange(ci + 1, before.len() as int)
                    &&& after[ci].id == clip_id && after[ci].source_in == c.source_in
                    &&& after[ci].timeline_start == c.timeline_start
                    &&& after[ci + 1].id == fresh
                    &&& after[ci + 1].source_in == after[ci].source_out
                    &&& after[ci + 1].source_out == c.source_out
                    &&& after[ci + 1].timeline_start == at
                    &&& after[ci + 1].asset_id == c.asset_id && after[ci + 1].playback_rate == c.playback_rate
                }
            }
        },
{
    if dispatch_outcome(p, env, fresh, now) is Ok {
        let track_id = env.payload->SplitClip_track_id;
        let clip_id = env.payload->SplitClip_clip_id;
        let at = env.payload->SplitClip_at;
        let (si, ti) = locate_track(p, track_id)->Ok_0;
        lemma_find_id(p.sequences, p.active_sequence_id);
        lemma_find_id(p.sequences[si].tracks, track_id);
        let t = p.sequences[si].tracks[ti];
        let ci = find_id(t.clips, clip_id)->Some_0;
        lemma_find_id(t.clips, clip_id);
        let c = t.clips[ci];
        let ticks = split_plan(c, at)->Ok_0;
        let cut = crate::time::at_ticks(ticks);
        let left = ClipView { source_out: cut, ..c };
        let right = ClipView { id: fresh, name: c.name + " B"@, source_in: cut, timeline_start: at, ..c };
        let clips2 = t.clips.update(ci, left).insert(ci + 1, right);
        let q0 = replace_track(p, si, ti, with_clips(t, clips2));
        assert(command_effect(p, env.payload, fresh) == Ok::<(ProjectView, Seq<u128>), ProjectErrorView>((q0, seq![clip_id, fresh])));
        let q = committed(q0, now);
        assert(q.sequences[si].tracks[ti].clips == clips2);
        assert(clips2.subrange(0, ci) =~= t.clips.subrange(0, ci));
        assert(clips2.subrange(ci + 2, clips2.len() as int) =~= t.clips.subrange(ci + 1, t.clips.len() as int));
        assert(clips2[ci] == left && clips2[ci + 1] == right);
    }
}

} // verus!
