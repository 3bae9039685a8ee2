use vstd::prelude::*;
use vstd::string::*;

use crate::command::find_media;
use crate::ids::{current_timestamp, fresh_id, is_v4, utc_stamp};
use crate::lookup::find_id;
use crate::project::{
    artifact_views, path_views, AnalysisArtifact, AnalysisArtifactView, MediaAsset, ProjectDocument, ProjectView,
};

verus! {

/// The kinds of record that local analysis writes.
pub open spec fn analysis_kind(kind: Seq<char>) -> bool {
    kind == "scenes"@ || kind == "silence"@ || kind == "keyframes"@
}

/// Whether a record goes when the records of `asset_id` are cleared: every
/// record of that asset, or with `only_analysis` just its analysis records.
pub open spec fn cleared(a: AnalysisArtifactView, asset_id: u128, only_analysis: bool) -> bool {
    a.asset_id == asset_id && (!only_analysis || analysis_kind(a.kind))
}

/// The records that stay, in their order.
pub open spec fn artifacts_without(s: Seq<AnalysisArtifactView>, asset_id: u128, only_analysis: bool) -> Seq<AnalysisArtifactView>
    decreases s.len(),
{
    if s.len() == 0 {
        Seq::empty()
    } else if cleared(s.last(), asset_id, only_analysis) {
        artifacts_without(s.drop_last(), asset_id, only_analysis)
    } else {
        artifacts_without(s.drop_last(), asset_id, only_analysis).push(s.last())
    }
}

fn copy_paths(v: &Vec<String>) -> (r: Vec<String>)
    ensures
        path_views(r@) == path_views(v@),
{
    let mut out: Vec<String> = Vec::new();
    let mut i: usize = 0;
    while i < v.len()
        invariant
            0 <= i <= v.len(),
            path_views(out@) == path_views(v@).take(i as int),
        decreases v.len() - i,
    {
        let s = v[i].clone();
        let ghost before = out@;
        out.push(s);
        assert(path_views(out@) =~= path_views(before).push(v@[i as int]@));
        assert(path_views(v@).take(i + 1) =~= path_views(v@).take(i as int).push(path_views(v@)[i as int]));
        i += 1;
    }
    assert(path_views(v@).take(i as int) =~= path_views(v@));
    out
}

fn copy_artifact(a: &AnalysisArtifact) -> (r: AnalysisArtifact)
    ensures
        r@ == a@,
{
    AnalysisArtifact {
        id: a.id,
        asset_id: a.asset_id,
        kind: a.kind.clone(),
        status: a.status.clone(),
        created_at: a.created_at.clone(),
        paths: copy_paths(&a.paths),
        data: a.data.clone(),
    }
}

fn is_cleared(a: &AnalysisArtifact, asset_id: u128, only_analysis: bool) -> (r: bool)
    ensures
        r == cleared(a@, asset_id, only_analysis),
{
    if a.asset_id != asset_id {
        return false;
    }
    if !only_analysis {
        return true;
    }
    crate::text::text_eq(&a.kind, "scenes") || crate::text::text_eq(&a.kind, "silence")
        || crate::text::text_eq(&a.kind, "keyframes")
}

/// The records that stay when the records of an asset are cleared; see
/// `artifacts_without`.
pub fn retain_artifacts(v: &Vec<AnalysisArtifact>, asset_id: u128, only_analysis: bool) -> (r: Vec<AnalysisArtifact>)
    ensures
        artifact_views(r@) == artifacts_without(artifact_views(v@), asset_id, only_analysis),
{
    let ghost all = artifact_views(v@);
    let mut out: Vec<AnalysisArtifact> = Vec::new();
    let mut i: usize = 0;
    assert(all.take(0) =~= Seq::<AnalysisArtifactView>::empty());
    assert(artifact_views(out@) =~= Seq::<AnalysisArtifactView>::empty());
    while i < v.len()
        invariant
            0 <= i <= v.len(),
            all == artifact_views(v@),
            artifact_views(out@) == artifacts_without(all.take(i as int), asset_id, only_analysis),
        decreases v.len() - i,
    {
        assert(all.take(i + 1).drop_last() =~= all.take(i as int));
        assert(all.take(i + 1).last() == v@[i as int]@);
        if !is_cleared(&v[i], asset_id, only_analysis) {
            let ghost before = artifact_views(out@);
            out.push(copy_artifact(&v[i]));
            assert(artifact_views(out@) =~= before.push(v@[i as int]@));
        }
        i += 1;
    }
    assert(all.take(i as int) =~= all);
    out
}

/// The three records one analysis writes for an asset, stamped `now`: its
/// scene changes and its silences (JSON text), and its keyframe images.
pub open spec fn three_records(
    ids: Seq<u128>,
    asset_id: u128,
    scenes: Seq<char>,
    silence: Seq<char>,
    keyframes: Seq<Seq<char>>,
    now: Seq<char>,
) -> Seq<AnalysisArtifactView> {
    seq![
        AnalysisArtifactView { id: ids[0], asset_id, kind: "scenes"@, status: "ready"@, created_at: now, paths: Seq::empty(), data: scenes },
        AnalysisArtifactView { id: ids[1], asset_id, kind: "silence"@, status: "ready"@, created_at: now, paths: Seq::empty(), data: silence },
        AnalysisArtifactView { id: ids[2], asset_id, kind: "keyframes"@, status: "ready"@, created_at: now, paths: keyframes, data: "null"@ },
    ]
}

/// The project after recording an analysis of an asset: the asset's earlier
/// analysis records give way to the three new ones, and the project moves
/// one revision on, updated at `now`.
pub open spec fn analysis_recorded(
    p: ProjectView,
    asset_id: u128,
    ids: Seq<u128>,
    scenes: Seq<char>,
    silence: Seq<char>,
    keyframes: Seq<Seq<char>>,
    now: Seq<char>,
) -> ProjectView {
    ProjectView {
        analysis_artifacts: artifacts_without(p.analysis_artifacts, asset_id, true)
            + three_records(ids, asset_id, scenes, silence, keyframes, now),
        revision: (p.revision + 1) as u64,
        updated_at: now,
        ..p
    }
}

fn new_record(id: u128, asset_id: u128, kind: &str, now: &String, paths: Vec<String>, data: String) -> (r: AnalysisArtifact)
    ensures
        r@ == (AnalysisArtifactView {
            id,
            asset_id,
            kind: kind@,
            status: "ready"@,
            created_at: now@,
            paths: path_views(paths@),
            data: data@,
        }),
{
    AnalysisArtifact {
        id,
        asset_id,
        kind: String::from_str(kind),
        status: String::from_str("ready"),
        created_at: now.clone(),
        paths,
        data,
    }
}

/// Records an analysis of an asset with the given record identifiers; see
/// `analysis_recorded`.
pub fn record_analysis(
    project: ProjectDocument,
    asset_id: u128,
    ids: [u128; 3],
    scenes: String,
    silence: String,
    keyframes: Vec<String>,
    now: String,
) -> (r: ProjectDocument)
    requires
        project.revision < u64::MAX,
    ensures
        r@ == analysis_recorded(project@, asset_id, ids@, scenes@, silence@, path_views(keyframes@), now@),
{
    let ghost before = project@;
    let ghost kf = path_views(keyframes@);
    let mut project = project;
    let mut kept = retain_artifacts(&project.analysis_artifacts, asset_id, true);
    let ghost kept_view = artifact_views(kept@);
    let none1: Vec<String> = Vec::new();
    let none2: Vec<String> = Vec::new();
    assert(path_views(none1@) =~= Seq::<Seq<char>>::empty());
    assert(path_views(none2@) =~= Seq::<Seq<char>>::empty());
    kept.push(new_record(ids[0], asset_id, "scenes", &now, none1, scenes));
    kept.push(new_record(ids[1], asset_id, "silence", &now, none2, silence));
    kept.push(new_record(ids[2], asset_id, "keyframes", &now, keyframes, String::from_str("null")));
    proof {
        reveal_strlit("null");
    }
    assert(artifact_views(kept@) =~= kept_view + three_records(ids@, asset_id, scenes@, silence@, kf, now@));
    project.analysis_artifacts = kept;
    project.revision = project.revision + 1;
    project.updated_at = now;
    assert(project@ =~= analysis_recorded(before, asset_id, ids@, scenes@, silence@, kf, now@));
    project
}

/// Records an analysis of an asset with three fresh random record
/// identifiers, now; see `analysis_recorded`.
pub fn record_analysis_now(project: ProjectDocument, asset_id: u128, scenes: String, silence: String, keyframes: Vec<String>) -> (r: ProjectDocument)
    requires
        project.revision < u64::MAX,
    ensures
        exists|ids: Seq<u128>, now: Seq<char>| {
            &&& ids.len() == 3
            &&& forall|i: int| 0 <= i < 3 ==> is_v4(#[trigger] ids[i])
            &&& utc_stamp(now)
            &&& r@ == analysis_recorded(project@, asset_id, ids, scenes@, silence@, path_views(keyframes@), now)
        },
{
    let a = fresh_id();
    let b = fresh_id();
    let c = fresh_id();
    let ids = [a, b, c];
    let now = current_timestamp();
    let ghost now_view = now@;
    assert(forall|i: int| 0 <= i < 3 ==> is_v4(#[trigger] ids@[i]));
    record_analysis(project, asset_id, ids, scenes, silence, keyframes, now)
}

/// The project after recording the proxy made for an asset: the asset's
/// record names the proxy, and the project moves one revision on, updated
/// at `now`.
pub open spec fn proxy_recorded(p: ProjectView, asset_id: u128, path: String, now: Seq<char>) -> ProjectView {
    match find_id(p.media, asset_id) {
        Some(k) => ProjectView {
            media: p.media.update(k, MediaAsset { proxy_path: Some(path), ..p.media[k] }),
            revision: (p.revision + 1) as u64,
            updated_at: now,
            ..p
        },
        None => p,
    }
}

/// Records the proxy made for an asset the project holds; see
/// `proxy_recorded`.
pub fn record_proxy(project: ProjectDocument, asset_id: u128, path: String, now: String) -> (r: ProjectDocument)
    requires
        project.revision < u64::MAX,
        find_id(project.media@, asset_id) is Some,
    ensures
        r@ == proxy_recorded(project@, asset_id, path, now@),
{
    let ghost before = project@;
    let ghost p = path;
    let mut project = project;
    let k = match find_media(&project.media, asset_id) {
        Some(k) => k,
        None => {
            return project;
        },
    };
    project.media[k].proxy_path = Some(path);
    project.revision = project.revision + 1;
    project.updated_at = now;
    assert(project@.media =~= before.media.update(k as int, MediaAsset { proxy_path: Some(p), ..before.media[k as int] }));
    assert(project@ =~= proxy_recorded(before, asset_id, p, now@));
    project
}

/// Whether a record belongs to the asset and, when `only_analysis`, is one
/// of the analysis kinds scenes, silence or keyframes (spelled out).
pub open spec fn goes(a: AnalysisArtifactView, asset_id: u128, only_analysis: bool) -> bool {
    a.asset_id == asset_id && (!only_analysis || a.kind == "scenes"@ || a.kind == "silence"@ || a.kind == "keyframes"@)
}

/// Clearing an asset's records removes exactly the records that go: none
/// of them is left, every other record stays, and nothing new appears.
pub proof fn lemma_clearing(s: Seq<AnalysisArtifactView>, asset_id: u128, only_analysis: bool)
    ensures
        forall|i: int| 0 <= i < artifacts_without(s, asset_id, only_analysis).len()
            ==> !goes(#[trigger] artifacts_without(s, asset_id, only_analysis)[i], asset_id, only_analysis)
                && s.contains(artifacts_without(s, asset_id, only_analysis)[i]),
        forall|j: int| 0 <= j < s.len() && !goes(#[trigger] s[j], asset_id, only_analysis)
            ==> artifacts_without(s, asset_id, only_analysis).contains(s[j]),
    decreases s.len(),
{
    if s.len() > 0 {
        let r = artifacts_without(s, asset_id, only_analysis);
        let rest = s.drop_last();
        let r0 = artifacts_without(rest, asset_id, only_analysis);
        lemma_clearing(rest, asset_id, only_analysis);
        assert forall|i: int| 0 <= i < r.len() implies !goes(#[trigger] r[i], asset_id, only_analysis) && s.contains(r[i]) by {
            if i < r0.len() {
                assert(r[i] == r0[i]);
                let k = choose|k: int| 0 <= k < rest.len() && rest[k] == r0[i];
                assert(s[k] == rest[k]);
            } else {
                assert(r[i] == s.last());
                assert(s[s.len() - 1] == s.last());
            }
        }
        assert forall|j: int| 0 <= j < s.len() && !goes(#[trigger] s[j], asset_id, only_analysis) implies r.contains(s[j]) by {
            if j < s.len() - 1 {
                assert(rest[j] == s[j]);
                let k = choose|k: int| 0 <= k < r0.len() && r0[k] == rest[j];
                assert(r[k] == r0[k]);
            } else {
                assert(r[r.len() - 1] == s.last());
            }
        }
    }
}

/// After an analysis of an asset is recorded, its only records of kind
/// scenes, silence or keyframes are the three new ones, at the end, stamped
/// with the analysis time and holding its findings; every record of another
/// asset or of another kind stays, and no other record appears.
pub proof fn lemma_analysis_replaces(
    p: ProjectView,
    asset_id: u128,
    ids: Seq<u128>,
    scenes: Seq<char>,
    silence: Seq<char>,
    keyframes: Seq<Seq<char>>,
    now: Seq<char>,
)
    requires
        ids.len() == 3,
    ensures
        ({
            let q = analysis_recorded(p, asset_id, ids, scenes, silence, keyframes, now).analysis_artifacts;
            let n = q.len();
            &&& n >= 3
            &&& q[n - 3].id == ids[0] && q[n - 3].asset_id == asset_id && q[n - 3].kind == "scenes"@ && q[n - 3].data == scenes
            &&& q[n - 2].id == ids[1] && q[n - 2].asset_id == asset_id && q[n - 2].kind == "silence"@ && q[n - 2].data == silence
            &&& q[n - 1].id == ids[2] && q[n - 1].asset_id == asset_id && q[n - 1].kind == "keyframes"@ && q[n - 1].paths == keyframes
            &&& forall|i: int| n - 3 <= i < n ==> (#[trigger] q[i]).created_at == now && q[i].status == "ready"@
            &&& forall|i: int| 0 <= i < n - 3 ==> !goes(#[trigger] q[i], asset_id, true) && p.analysis_artifacts.contains(q[i])
            &&& forall|j: int| 0 <= j < p.analysis_artifacts.len() && !goes(#[trigger] p.analysis_artifacts[j], asset_id, true)
                ==> q.subrange(0, n - 3).contains(p.analysis_artifacts[j])
        }),
{
    let kept = artifacts_without(p.analysis_artifacts, asset_id, true);
    let q = analysis_recorded(p, asset_id, ids, scenes, silence, keyframes, now).analysis_artifacts;
    lemma_clearing(p.analysis_artifacts, asset_id, true);
    assert(q.subrange(0, q.len() - 3) =~= kept);
    assert forall|i: int| 0 <= i < q.len() - 3 implies !goes(#[trigger] q[i], asset_id, true) && p.analysis_artifacts.contains(q[i]) by {
        assert(q[i] == kept[i]);
    }
}

/// Relinking clears every record of the asset and keeps every record of
/// the other assets.
pub proof fn lemma_relink_clears(s: Seq<AnalysisArtifactView>, asset_id: u128)
    ensures
        forall|i: int| 0 <= i < artifacts_without(s, asset_id, false).len()
            ==> (#[trigger] artifacts_without(s, asset_id, false)[i]).asset_id != asset_id,
        forall|j: int| 0 <= j < s.len() && (#[trigger] s[j]).asset_id != asset_id
            ==> artifacts_without(s, asset_id, false).contains(s[j]),
{
    lemma_clearing(s, asset_id, false);
    assert forall|i: int| 0 <= i < artifacts_without(s, asset_id, false).len()
        implies (#[trigger] artifacts_without(s, asset_id, false)[i]).asset_id != asset_id by {
        assert(!goes(artifacts_without(s, asset_id, false)[i], asset_id, false));
    }
    assert forall|j: int| 0 <= j < s.len() && (#[trigger] s[j]).asset_id != asset_id
        implies artifacts_without(s, asset_id, false).contains(s[j]) by {
        assert(!goes(s[j], asset_id, false));
    }
}

} // verus!
