use vstd::prelude::*;
use vstd::string::*;

use crate::artifacts::{artifacts_without, retain_artifacts};
use crate::lookup::find_id;
use crate::project::{MediaAsset, ProjectDocument, ProjectError, ProjectErrorView};
use crate::text::text_eq;
use crate::time::{at_ticks, from_ticks, RationalTime};

verus! {

/// A stretch of silence found in a media file.
#[derive(Clone, Copy, Debug, PartialEq, Eq, Structural)]
pub struct SilenceRange {
    pub start: RationalTime,
    pub end: RationalTime,
}

/// What local analysis found in a media file.
#[derive(Debug)]
pub struct LocalAnalysis {
    pub scene_times: Vec<RationalTime>,
    pub silence_ranges: Vec<SilenceRange>,
    pub keyframe_paths: Vec<String>,
}

/// Why a media operation failed.
#[derive(Debug)]
pub enum MediaError {
    ToolMissing(String),
    Failed(String),
    Unsupported(String),
    Decode(String),
    Cancelled,
}

/// A media error with its text as a sequence of characters.
pub enum MediaErrorView {
    ToolMissing(Seq<char>),
    Failed(Seq<char>),
    Unsupported(Seq<char>),
    Decode(Seq<char>),
    Cancelled,
}

impl View for MediaError {
    type V = MediaErrorView;

    open spec fn view(&self) -> MediaErrorView {
        match self {
            MediaError::ToolMissing(s) => MediaErrorView::ToolMissing(s@),
            MediaError::Failed(s) => MediaErrorView::Failed(s@),
            MediaError::Unsupported(s) => MediaErrorView::Unsupported(s@),
            MediaError::Decode(s) => MediaErrorView::Decode(s@),
            MediaError::Cancelled => MediaErrorView::Cancelled,
        }
    }
}

/// What inspecting a media file found.
#[derive(Debug)]
pub struct MediaInspection {
    pub path: String,
    pub name: String,
    pub kind: String,
    pub duration: RationalTime,
    pub width: Option<u32>,
    pub height: Option<u32>,
    pub codec: Option<String>,
    pub has_audio: bool,
    pub bookmark: Option<String>,
    pub thumbnail_path: Option<String>,
    pub waveform_path: Option<String>,
}

/// The character in lower case, for ASCII letters.
pub open spec fn ascii_lower(c: char) -> char {
    if 'A' <= c <= 'Z' {
        ((c as u32) + 32) as char
    } else {
        c
    }
}

pub open spec fn lowercase(s: Seq<char>) -> Seq<char> {
    s.map_values(|c: char| ascii_lower(c))
}

/// File extensions of still images.
pub open spec fn image_extension(ext: Seq<char>) -> bool {
    let e = lowercase(ext);
    e == "jpg"@ || e == "jpeg"@ || e == "png"@ || e == "heic"@ || e == "webp"@
}

/// The kind of a probed file: a file with a video stream is an image when
/// its extension names an image format and a video otherwise; one with only
/// audio is audio; one with neither is not supported.
pub open spec fn kind_of(has_video: bool, has_audio: bool, ext: Seq<char>) -> Option<Seq<char>> {
    if has_video && image_extension(ext) {
        Some("image"@)
    } else if has_video {
        Some("video"@)
    } else if has_audio {
        Some("audio"@)
    } else {
        None
    }
}

fn lower_char(c: char) -> (r: char)
    ensures
        r == ascii_lower(c),
{
    if 'A' <= c && c <= 'Z' {
        let b: u8 = (c as u32 as u8) + 32;
        b as char
    } else {
        c
    }
}

/// Whether the text, in lower case, equals a lowercase literal.
fn lower_eq(s: &str, lit: &str) -> (r: bool)
    ensures
        r == (lowercase(s@) == lit@),
{
    let n = s.unicode_len();
    let m = lit.unicode_len();
    if n != m {
        assert(lowercase(s@).len() != lit@.len());
        return false;
    }
    let mut i: usize = 0;
    while i < n
        invariant
            0 <= i <= n,
            n == s@.len(),
            m == lit@.len(),
            n == m,
            forall|j: int| 0 <= j < i ==> ascii_lower(s@[j]) == lit@[j],
        decreases n - i,
    {
        if lower_char(s.get_char(i)) != lit.get_char(i) {
            assert(lowercase(s@)[i as int] != lit@[i as int]);
            return false;
        }
        i += 1;
    }
    assert(lowercase(s@) =~= lit@);
    true
}

/// Decides the kind of a probed file; see `kind_of`.
pub fn media_kind(has_video: bool, has_audio: bool, extension: &str) -> (r: Option<String>)
    ensures
        match (r, kind_of(has_video, has_audio, extension@)) {
            (Some(k), Some(v)) => k@ == v,
            (None, None) => true,
            _ => false,
        },
{
    let image = lower_eq(extension, "jpg") || lower_eq(extension, "jpeg") || lower_eq(extension, "png")
        || lower_eq(extension, "heic") || lower_eq(extension, "webp");
    if has_video && image {
        Some(String::from_str("image"))
    } else if has_video {
        Some(String::from_str("video"))
    } else if has_audio {
        Some(String::from_str("audio"))
    } else {
        None
    }
}

/// The still-image extensions, in lower case.
pub open spec fn still_image_extension(e: Seq<char>) -> bool {
    ||| e == "png"@
    ||| e == "jpg"@
    ||| e == "jpeg"@
    ||| e == "heic"@
    ||| e == "webp"@
}

/// A file with a video stream is an image exactly when its extension is
/// jpg, jpeg, png, heic or webp in any letter case, and a video otherwise;
/// without a video stream, audio makes it audio, and nothing makes it
/// unsupported.
pub proof fn lemma_kind_by_extension(has_video: bool, has_audio: bool, ext: Seq<char>)
    ensures
        has_video && still_image_extension(lowercase(ext)) ==> kind_of(has_video, has_audio, ext) == Some("image"@),
        has_video && !still_image_extension(lowercase(ext)) ==> kind_of(has_video, has_audio, ext) == Some("video"@),
        !has_video && has_audio ==> kind_of(has_video, has_audio, ext) == Some("audio"@),
        !has_video && !has_audio ==> kind_of(has_video, has_audio, ext) is None,
{
}

/// The duration recorded for a probed file: the probed one, else five
/// seconds for an image and zero for anything else.
pub open spec fn recorded_duration(probed: Option<RationalTime>, is_image: bool) -> RationalTime {
    match probed {
        Some(d) => d,
        None => if is_image { at_ticks(3000) } else { at_ticks(0) },
    }
}

pub fn inspection_duration(probed: Option<RationalTime>, is_image: bool) -> (r: RationalTime)
    ensures
        r == recorded_duration(probed, is_image),
{
    match probed {
        Some(d) => d,
        None => if is_image { from_ticks(3000) } else { from_ticks(0) },
    }
}

/// The silence markers found on one line of the analyser's log.
#[derive(Clone, Copy, Debug)]
pub struct SilenceMark {
    pub start: Option<RationalTime>,
    pub end: Option<RationalTime>,
}

/// Pairs silence starts with the ends that follow them, line by line: a
/// start opens a range (replacing an open one), an end closes the open
/// range; an end with no open range is ignored.
pub open spec fn pair_marks(marks: Seq<SilenceMark>, open: Option<RationalTime>) -> Seq<SilenceRange>
    decreases marks.len(),
{
    if marks.len() == 0 {
        Seq::empty()
    } else {
        let m = marks[0];
        let open1 = match m.start {
            Some(s) => Some(s),
            None => open,
        };
        match (open1, m.end) {
            (Some(s), Some(e)) => seq![SilenceRange { start: s, end: e }] + pair_marks(marks.drop_first(), None),
            _ => pair_marks(marks.drop_first(), open1),
        }
    }
}

/// Collects the silence ranges of a log; see `pair_marks`.
pub fn pair_silence(marks: &Vec<SilenceMark>) -> (r: Vec<SilenceRange>)
    ensures
        r@ == pair_marks(marks@, None),
{
    let mut out: Vec<SilenceRange> = Vec::new();
    let mut open: Option<RationalTime> = None;
    let mut i: usize = 0;
    assert(marks@.skip(0) =~= marks@);
    assert(out@ + pair_marks(marks@, None) =~= pair_marks(marks@, None));
    while i < marks.len()
        invariant
            0 <= i <= marks.len(),
            pair_marks(marks@, None) == out@ + pair_marks(marks@.skip(i as int), open),
        decreases marks.len() - i,
    {
        let ghost rest = marks@.skip(i as int);
        assert(rest[0] == marks@[i as int]);
        assert(rest.drop_first() =~= marks@.skip(i + 1));
        let m = marks[i];
        if let Some(s) = m.start {
            open = Some(s);
        }
        match (open, m.end) {
            (Some(s), Some(e)) => {
                let ghost before = out@;
                out.push(SilenceRange { start: s, end: e });
                assert(before + (seq![SilenceRange { start: s, end: e }] + pair_marks(marks@.skip(i + 1), None))
                    =~= out@ + pair_marks(marks@.skip(i + 1), None));
                open = None;
            },
            _ => {},
        }
        i += 1;
    }
    assert(marks@.skip(i as int) =~= Seq::<SilenceMark>::empty());
    assert(out@ + Seq::<SilenceRange>::empty() =~= out@);
    out
}

pub open spec fn texts(v: Seq<String>) -> Seq<Seq<char>> {
    v.map_values(|s: String| s@)
}

fn push_text(v: &mut Vec<String>, s: &str)
    ensures
        texts(final(v)@) == texts(old(v)@).push(s@),
{
    v.push(String::from_str(s));
    assert(texts(v@) =~= texts(old(v)@).push(s@));
}

/// The encoder arguments for a playback proxy of `source` written to
/// `output`: scaled to at most 1280 wide, AAC audio, fast start, encoded
/// with the hardware H.264 encoder or, failing that, the portable MPEG-4 one.
pub open spec fn proxy_args(source: Seq<char>, output: Seq<char>, hardware: bool) -> Seq<Seq<char>> {
    seq![
        "-hide_banner"@, "-loglevel"@, "error"@, "-y"@, "-i"@, source, "-vf"@, "scale='min(1280,iw)':-2"@,
        "-c:a"@, "aac"@, "-b:a"@, "160k"@, "-movflags"@, "+faststart"@,
    ] + if hardware {
        seq!["-c:v"@, "h264_videotoolbox"@, "-b:v"@, "5M"@, output]
    } else {
        seq!["-c:v"@, "mpeg4"@, "-q:v"@, "4"@, output]
    }
}

pub fn proxy_arguments(source: &str, output: &str, hardware: bool) -> (r: Vec<String>)
    ensures
        texts(r@) == proxy_args(source@, output@, hardware),
{
    let mut v: Vec<String> = Vec::new();
    push_text(&mut v, "-hide_banner");
    push_text(&mut v, "-loglevel");
    push_text(&mut v, "error");
    push_text(&mut v, "-y");
    push_text(&mut v, "-i");
    push_text(&mut v, source);
    push_text(&mut v, "-vf");
    push_text(&mut v, "scale='min(1280,iw)':-2");
    push_text(&mut v, "-c:a");
    push_text(&mut v, "aac");
    push_text(&mut v, "-b:a");
    push_text(&mut v, "160k");
    push_text(&mut v, "-movflags");
    push_text(&mut v, "+faststart");
    push_text(&mut v, "-c:v");
    if hardware {
        push_text(&mut v, "h264_videotoolbox");
        push_text(&mut v, "-b:v");
        push_text(&mut v, "5M");
    } else {
        push_text(&mut v, "mpeg4");
        push_text(&mut v, "-q:v");
        push_text(&mut v, "4");
    }
    push_text(&mut v, output);
    assert(texts(v@) =~= proxy_args(source@, output@, hardware));
    v
}

/// The analyser arguments that detect scene changes in `source` and write a
/// keyframe image per scene to `pattern`.
pub open spec fn scene_args(source: Seq<char>, pattern: Seq<char>) -> Seq<Seq<char>> {
    seq![
        "-hide_banner"@, "-y"@, "-i"@, source, "-vf"@, "select=gt(scene\\,0.32),showinfo,scale=480:-2"@,
        "-fps_mode"@, "vfr"@, pattern,
    ]
}

pub fn scene_arguments(source: &str, pattern: &str) -> (r: Vec<String>)
    ensures
        texts(r@) == scene_args(source@, pattern@),
{
    let mut v: Vec<String> = Vec::new();
    push_text(&mut v, "-hide_banner");
    push_text(&mut v, "-y");
    push_text(&mut v, "-i");
    push_text(&mut v, source);
    push_text(&mut v, "-vf");
    push_text(&mut v, "select=gt(scene\\,0.32),showinfo,scale=480:-2");
    push_text(&mut v, "-fps_mode");
    push_text(&mut v, "vfr");
    push_text(&mut v, pattern);
    assert(texts(v@) =~= scene_args(source@, pattern@));
    v
}

/// The analyser arguments that detect stretches quieter than -35 dB lasting
/// at least 0.35 s in `source`.
pub open spec fn silence_args(source: Seq<char>) -> Seq<Seq<char>> {
    seq!["-hide_banner"@, "-i"@, source, "-af"@, "silencedetect=noise=-35dB:d=0.35"@, "-f"@, "null"@, "-"@]
}

pub fn silence_arguments(source: &str) -> (r: Vec<String>)
    ensures
        texts(r@) == silence_args(source@),
{
    let mut v: Vec<String> = Vec::new();
    push_text(&mut v, "-hide_banner");
    push_text(&mut v, "-i");
    push_text(&mut v, source);
    push_text(&mut v, "-af");
    push_text(&mut v, "silencedetect=noise=-35dB:d=0.35");
    push_text(&mut v, "-f");
    push_text(&mut v, "null");
    push_text(&mut v, "-");
    assert(texts(v@) =~= silence_args(source@));
    v
}

} // verus!

verus! {

/// Two media records agree on everything but their status.
pub open spec fn same_but_status(a: MediaAsset, b: MediaAsset) -> bool {
    &&& a.id == b.id
    &&& a.name == b.name
    &&& a.kind == b.kind
    &&& a.path == b.path
    &&& a.duration == b.duration
    &&& a.width == b.width
    &&& a.height == b.height
    &&& a.bookmark == b.bookmark
    &&& a.color == b.color
    &&& a.thumbnail_path == b.thumbnail_path
    &&& a.waveform_path == b.waveform_path
    &&& a.codec == b.codec
    &&& a.has_audio == b.has_audio
    &&& a.proxy_path == b.proxy_path
}

/// A media record after relinking to an inspected replacement file: it
/// keeps its identity, kind and color, takes everything the inspection
/// found, has no proxy any more, and is ready again.
pub open spec fn relinked(before: MediaAsset, after: MediaAsset, ins: MediaInspection) -> bool {
    &&& after.id == before.id
    &&& after.kind == before.kind
    &&& after.color == before.color
    &&& after.path == ins.path
    &&& after.name == ins.name
    &&& after.duration == ins.duration
    &&& after.width == ins.width
    &&& after.height == ins.height
    &&& after.codec == ins.codec
    &&& after.has_audio == Some(ins.has_audio)
    &&& after.thumbnail_path == ins.thumbnail_path
    &&& after.waveform_path == ins.waveform_path
    &&& after.bookmark == ins.bookmark
    &&& after.proxy_path is None
    &&& after.status@ == "ready"@
}

pub open spec fn msg_relink_kind(kind: Seq<char>) -> Seq<char> {
    "replacement must be "@ + kind + " media"@
}

/// Whether relinking a media record to a file of the given kind changes the
/// project: the record exists and has that kind.
pub open spec fn relink_commits(media: Seq<MediaAsset>, asset_id: u128, kind: Seq<char>) -> bool {
    find_id(media, asset_id) matches Some(k) && media[k].kind@ == kind
}

/// Decides whether a relink would change the project; see `relink_commits`.
/// A project whose revision counter is full can take only relinks that do not.
pub fn relink_would_commit(project: &ProjectDocument, asset_id: u128, kind: &String) -> (r: bool)
    ensures
        r == relink_commits(project.media@, asset_id, kind@),
{
    match crate::command::find_media(&project.media, asset_id) {
        Some(k) => project.media[k].kind == *kind,
        None => false,
    }
}

/// Points a media record at a replacement file of the same kind, as
/// inspected; the asset's analysis records are dropped, and the project
/// moves one revision on, updated at `now`. The revision counter must have
/// room, unless the relink is refused.
pub fn relink_asset(project: ProjectDocument, asset_id: u128, inspection: MediaInspection, now: String) -> (r: Result<ProjectDocument, ProjectError>)
    requires
        project.revision < u64::MAX || !relink_commits(project.media@, asset_id, inspection.kind@),
    ensures
        match find_id(project.media@, asset_id) {
            None => r matches Err(e) && e@ == ProjectErrorView::Invalid("media asset does not exist"@),
            Some(k) => if project.media@[k].kind@ != inspection.kind@ {
                r matches Err(e) && e@ == ProjectErrorView::Invalid(msg_relink_kind(project.media@[k].kind@))
            } else {
                r matches Ok(p) && {
                    &&& p.media@.len() == project.media@.len()
                    &&& forall|j: int| 0 <= j < p.media@.len() && j != k ==> p.media@[j] == project.media@[j]
                    &&& relinked(project.media@[k], p.media@[k], inspection)
                    &&& p@ == (crate::project::ProjectView {
                        media: p@.media,
                        analysis_artifacts: artifacts_without(project@.analysis_artifacts, asset_id, false),
                        revision: (project.revision + 1) as u64,
                        updated_at: now@,
                        ..project@
                    })
                }
            },
        },
{
    let ghost before = project@;
    let ghost ins = inspection;
    let mut project = project;
    let k = match crate::command::find_media(&project.media, asset_id) {
        Some(k) => k,
        None => {
            return Err(ProjectError::Invalid(String::from_str("media asset does not exist")));
        },
    };
    if project.media[k].kind != inspection.kind {
        let mut m = String::from_str("replacement must be ");
        m.append(project.media[k].kind.as_str());
        m.append(" media");
        return Err(ProjectError::Invalid(m));
    }
    let ghost old_media = project.media@;
    let MediaInspection { path, name, kind: _, duration, width, height, codec, has_audio, bookmark, thumbnail_path, waveform_path } = inspection;
    project.media[k].path = path;
    project.media[k].name = name;
    project.media[k].duration = duration;
    project.media[k].width = width;
    project.media[k].height = height;
    project.media[k].codec = codec;
    project.media[k].has_audio = Some(has_audio);
    project.media[k].thumbnail_path = thumbnail_path;
    project.media[k].waveform_path = waveform_path;
    project.media[k].bookmark = bookmark;
    project.media[k].proxy_path = None;
    project.media[k].status = String::from_str("ready");
    project.analysis_artifacts = retain_artifacts(&project.analysis_artifacts, asset_id, false);
    project.revision = project.revision + 1;
    project.updated_at = now;
    assert(project@ =~= crate::project::ProjectView {
        media: project@.media,
        analysis_artifacts: artifacts_without(before.analysis_artifacts, asset_id, false),
        revision: (before.revision + 1) as u64,
        updated_at: now@,
        ..before
    });
    Ok(project)
}

} // verus!

verus! {

/// Unicode white space, as `char::is_whitespace` reports it.
pub open spec fn is_white(c: char) -> bool {
    ('\u{9}' <= c <= '\u{d}') || c == ' ' || c == '\u{85}' || c == '\u{a0}' || c == '\u{1680}'
        || ('\u{2000}' <= c <= '\u{200a}') || c == '\u{2028}' || c == '\u{2029}' || c == '\u{202f}'
        || c == '\u{205f}' || c == '\u{3000}'
}

fn white(c: char) -> (r: bool)
    ensures
        r == is_white(c),
{
    ('\u{9}' <= c && c <= '\u{d}') || c == ' ' || c == '\u{85}' || c == '\u{a0}' || c == '\u{1680}'
        || ('\u{2000}' <= c && c <= '\u{200a}') || c == '\u{2028}' || c == '\u{2029}' || c == '\u{202f}'
        || c == '\u{205f}' || c == '\u{3000}'
}

pub open spec fn occurs_at(s: Seq<char>, m: Seq<char>, i: int) -> bool {
    0 <= i && i + m.len() <= s.len() && s.subrange(i, i + m.len()) == m
}

/// The first position at or after `from` where `m` occurs in `s`.
pub open spec fn first_occurrence(s: Seq<char>, m: Seq<char>, from: int) -> Option<int>
    decreases s.len() + 1 - from,
{
    if from < 0 || from + m.len() > s.len() {
        None
    } else if occurs_at(s, m, from) {
        Some(from)
    } else {
        first_occurrence(s, m, from + 1)
    }
}

/// The first position at or after `from` whose character is (or is not) white space.
pub open spec fn first_where(s: Seq<char>, from: int, want_white: bool) -> int
    decreases s.len() - from,
{
    if from < 0 || from >= s.len() {
        s.len() as int
    } else if is_white(s[from]) == want_white {
        from
    } else {
        first_where(s, from + 1, want_white)
    }
}

/// The text between the first and the second occurrence of the marker (or
/// the end), as the second piece of splitting at the marker gives it.
pub open spec fn after_marker(s: Seq<char>, m: Seq<char>) -> Option<Seq<char>> {
    match first_occurrence(s, m, 0) {
        None => None,
        Some(i) => {
            let start = i + m.len();
            let end = match first_occurrence(s, m, start) {
                Some(j) => j,
                None => s.len() as int,
            };
            Some(s.subrange(start, end))
        },
    }
}

/// The first white-space-delimited word of a text.
pub open spec fn first_word(s: Seq<char>) -> Option<Seq<char>> {
    let a = first_where(s, 0, false);
    if a >= s.len() {
        None
    } else {
        Some(s.subrange(a, first_where(s, a, true)))
    }
}

/// The word that follows a marker in a log line (the number an analyser
/// prints after `pts_time:` or `silence_start:`). An empty marker splits
/// between every two characters, so the piece after its first match is the
/// line's first character.
pub open spec fn word_after(s: Seq<char>, m: Seq<char>) -> Option<Seq<char>> {
    if m.len() == 0 {
        first_word(s.subrange(0, if s.len() > 0 { 1 } else { 0 }))
    } else {
        match after_marker(s, m) {
            None => None,
            Some(seg) => first_word(seg),
        }
    }
}

fn occurs(s: &str, n: usize, m: &str, k: usize, i: usize) -> (r: bool)
    requires
        n == s@.len(),
        k == m@.len(),
        i + k <= n,
    ensures
        r == occurs_at(s@, m@, i as int),
{
    let mut j: usize = 0;
    while j < k
        invariant
            0 <= j <= k,
            n == s@.len(),
            k == m@.len(),
            i + k <= n,
            forall|t: int| 0 <= t < j ==> s@[i + t] == m@[t],
        decreases k - j,
    {
        if s.get_char(i + j) != m.get_char(j) {
            assert(s@.subrange(i as int, i + k)[j as int] != m@[j as int]);
            return false;
        }
        j += 1;
    }
    assert(s@.subrange(i as int, i + k) =~= m@);
    true
}

fn find_from(s: &str, n: usize, m: &str, k: usize, from: usize) -> (r: Option<usize>)
    requires
        n == s@.len(),
        k == m@.len(),
        from <= n,
    ensures
        match (r, first_occurrence(s@, m@, from as int)) {
            (Some(a), Some(b)) => a == b && from <= a && a + k <= n,
            (None, None) => true,
            _ => false,
        },
{
    if k > n {
        return None;
    }
    let last = n - k;
    if from > last {
        return None;
    }
    let mut i: usize = from;
    loop
        invariant
            from <= i <= last,
            last == n - k,
            n == s@.len(),
            k == m@.len(),
            first_occurrence(s@, m@, from as int) == first_occurrence(s@, m@, i as int),
        decreases last - i,
    {
        if occurs(s, n, m, k, i) {
            return Some(i);
        }
        if i == last {
            assert(first_occurrence(s@, m@, i + 1) is None);
            return None;
        }
        i += 1;
    }
}

fn scan(s: &str, n: usize, from: usize, want_white: bool) -> (r: usize)
    requires
        n == s@.len(),
        from <= n,
    ensures
        r == first_where(s@, from as int, want_white),
        from <= r <= n,
{
    let mut i: usize = from;
    while i < n && white(s.get_char(i)) != want_white
        invariant
            from <= i <= n,
            n == s@.len(),
            first_where(s@, from as int, want_white) == first_where(s@, i as int, want_white),
        decreases n - i,
    {
        i += 1;
    }
    i
}

/// Finds the word after a marker in a line; see `word_after`.
pub fn token_after(line: &str, marker: &str) -> (r: Option<String>)
    ensures
        match (r, word_after(line@, marker@)) {
            (Some(a), Some(b)) => a@ == b,
            (None, None) => true,
            _ => false,
        },
{
    let n = line.unicode_len();
    let k = marker.unicode_len();
    let (start, end) = if k == 0 {
        (0, if n > 0 { 1 } else { 0 })
    } else {
        let i = match find_from(line, n, marker, k, 0) {
            Some(i) => i,
            None => {
                return None;
            },
        };
        let start = i + k;
        let end = match find_from(line, n, marker, k, start) {
            Some(j) => j,
            None => n,
        };
        (start, end)
    };
    let seg = line.substring_char(start, end);
    let ghost sv = line@.subrange(start as int, end as int);
    assert(seg@ == sv);
    let len = end - start;
    let a = scan(seg, len, 0, false);
    if a >= len {
        return None;
    }
    let b = scan(seg, len, a, true);
    let word = seg.substring_char(a, b);
    Some(String::from_str(word))
}

} // verus!
