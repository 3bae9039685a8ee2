use vstd::prelude::*;
use vstd::string::*;

use crate::command::copy_text;
use crate::media::{kind_of, media_kind, MediaError, MediaErrorView};
use crate::text::text_eq;

verus! {

/// One stream of a probe report, as the prober printed it: each field is
/// absent where the report has no value of that type there.
#[derive(Debug)]
pub struct ProbeStream {
    pub codec_type: Option<String>,
    pub codec_name: Option<String>,
    pub width: Option<u64>,
    pub height: Option<u64>,
}

pub struct ProbeStreamView {
    pub codec_type: Option<Seq<char>>,
    pub codec_name: Option<Seq<char>>,
    pub width: Option<u64>,
    pub height: Option<u64>,
}

pub open spec fn opt_text(o: Option<String>) -> Option<Seq<char>> {
    match o {
        Some(s) => Some(s@),
        None => None,
    }
}

impl View for ProbeStream {
    type V = ProbeStreamView;

    open spec fn view(&self) -> ProbeStreamView {
        ProbeStreamView {
            codec_type: opt_text(self.codec_type),
            codec_name: opt_text(self.codec_name),
            width: self.width,
            height: self.height,
        }
    }
}

/// The parts of a probe report that inspection reads: the list of streams
/// (absent when the report has none) and the container's duration text.
#[derive(Debug)]
pub struct ProbeReport {
    pub streams: Option<Vec<ProbeStream>>,
    pub duration_text: Option<String>,
}

pub struct ProbeReportView {
    pub streams: Option<Seq<ProbeStreamView>>,
    pub duration_text: Option<Seq<char>>,
}

pub open spec fn stream_views(s: Seq<ProbeStream>) -> Seq<ProbeStreamView> {
    s.map_values(|x: ProbeStream| x@)
}

impl View for ProbeReport {
    type V = ProbeReportView;

    open spec fn view(&self) -> ProbeReportView {
        ProbeReportView {
            streams: match self.streams {
                Some(v) => Some(stream_views(v@)),
                None => None,
            },
            duration_text: opt_text(self.duration_text),
        }
    }
}

/// What inspection takes from a probe report.
#[derive(Debug)]
pub struct ProbeSummary {
    pub kind: String,
    pub has_video: bool,
    pub has_audio: bool,
    pub width: Option<u32>,
    pub height: Option<u32>,
    pub codec: Option<String>,
    pub duration_text: Option<String>,
}

pub struct ProbeSummaryView {
    pub kind: Seq<char>,
    pub has_video: bool,
    pub has_audio: bool,
    pub width: Option<u32>,
    pub height: Option<u32>,
    pub codec: Option<Seq<char>>,
    pub duration_text: Option<Seq<char>>,
}

impl View for ProbeSummary {
    type V = ProbeSummaryView;

    open spec fn view(&self) -> ProbeSummaryView {
        ProbeSummaryView {
            kind: self.kind@,
            has_video: self.has_video,
            has_audio: self.has_audio,
            width: self.width,
            height: self.height,
            codec: opt_text(self.codec),
            duration_text: opt_text(self.duration_text),
        }
    }
}

pub open spec fn report_result(r: Result<ProbeReport, String>) -> Result<ProbeReportView, Seq<char>> {
    match r {
        Ok(p) => Ok(p@),
        Err(e) => Err(e@),
    }
}

pub open spec fn summary_result(r: Result<ProbeSummary, MediaError>) -> Result<ProbeSummaryView, MediaErrorView> {
    match r {
        Ok(s) => Ok(s@),
        Err(e) => Err(e@),
    }
}

/// What the JSON parser makes of the prober's output: the report, or the
/// parser's error message.
pub uninterp spec fn probe_report(bytes: Seq<u8>) -> Result<ProbeReportView, Seq<char>>;

/// Parses the prober's JSON output with `serde_json::from_slice` into a
/// `serde_json::Value` and copies out the fields that inspection reads
/// (`streams[*].codec_type`, `codec_name`, `width`, `height` and
/// `format.duration`, each only where it has the expected JSON type). Its
/// result is named by `probe_report`: a function of the bytes alone.
#[verifier::external_body]
fn parse_probe_report(stdout: &[u8]) -> (r: Result<ProbeReport, String>)
    ensures
        report_result(r) == probe_report(stdout@),
{
    let data: serde_json::Value = match serde_json::from_slice(stdout) {
        Ok(value) => value,
        Err(error) => return Err(error.to_string()),
    };
    let text = |v: &serde_json::Value| v.as_str().map(String::from);
    let streams = data["streams"].as_array().map(|all| all.iter().map(|s| ProbeStream {
        codec_type: text(&s["codec_type"]),
        codec_name: text(&s["codec_name"]),
        width: s["width"].as_u64(),
        height: s["height"].as_u64(),
    }).collect());
    Ok(ProbeReport { streams, duration_text: text(&data["format"]["duration"]) })
}

/// The position of the first stream of the given type at or after `from`.
pub open spec fn first_stream(s: Seq<ProbeStreamView>, t: Seq<char>, from: int) -> Option<int>
    decreases s.len() - from,
{
    if from < 0 || from >= s.len() {
        None
    } else if s[from].codec_type == Some(t) {
        Some(from)
    } else {
        first_stream(s, t, from + 1)
    }
}

/// A dimension as the inspection records it: the probed number cut to its
/// low 32 bits.
pub open spec fn dimension(o: Option<u64>) -> Option<u32> {
    match o {
        Some(v) => Some(v as u32),
        None => None,
    }
}

/// What inspection makes of a probe report for a file with the given
/// extension: a report without streams is undecodable; the first video
/// stream and the first audio stream decide the kind (a file with neither
/// is not supported); the size comes from the video stream, the codec from
/// the video stream or else the audio stream.
pub open spec fn probe_summary(r: ProbeReportView, ext: Seq<char>, display: Seq<char>) -> Result<ProbeSummaryView, MediaErrorView> {
    match r.streams {
        None => Err(MediaErrorView::Decode("missing streams"@)),
        Some(s) => {
            let v = first_stream(s, "video"@, 0);
            let a = first_stream(s, "audio"@, 0);
            match kind_of(v is Some, a is Some, ext) {
                None => Err(MediaErrorView::Unsupported(display)),
                Some(k) => {
                    let primary = if v is Some { v } else { a };
                    Ok(ProbeSummaryView {
                        kind: k,
                        has_video: v is Some,
                        has_audio: a is Some,
                        width: match v {
                            Some(i) => dimension(s[i].width),
                            None => None,
                        },
                        height: match v {
                            Some(i) => dimension(s[i].height),
                            None => None,
                        },
                        codec: match primary {
                            Some(i) => s[i].codec_name,
                            None => None,
                        },
                        duration_text: r.duration_text,
                    })
                },
            }
        },
    }
}

fn find_stream(streams: &Vec<ProbeStream>, t: &str) -> (r: Option<usize>)
    ensures
        match (r, first_stream(stream_views(streams@), t@, 0)) {
            (Some(a), Some(b)) => a == b && a < streams@.len(),
            (None, None) => true,
            _ => false,
        },
{
    let ghost s = stream_views(streams@);
    let mut i: usize = 0;
    while i < streams.len()
        invariant
            0 <= i <= streams@.len(),
            s == stream_views(streams@),
            first_stream(s, t@, 0) == first_stream(s, t@, i as int),
        decreases streams.len() - i,
    {
        let hit = match &streams[i].codec_type {
            Some(c) => text_eq(c, t),
            None => false,
        };
        assert(s[i as int] == streams@[i as int]@);
        if hit {
            return Some(i);
        }
        i += 1;
    }
    None
}

fn cut(o: Option<u64>) -> (r: Option<u32>)
    ensures
        r == dimension(o),
{
    match o {
        Some(v) => Some(v as u32),
        None => None,
    }
}

/// Reads what inspection needs from a probe report; see `probe_summary`.
/// `display` is the file's name as errors show it.
pub fn summarize_probe(report: &ProbeReport, extension: &str, display: &str) -> (r: Result<ProbeSummary, MediaError>)
    ensures
        summary_result(r) == probe_summary(report@, extension@, display@),
{
    let streams = match &report.streams {
        None => {
            return Err(MediaError::Decode(String::from_str("missing streams")));
        },
        Some(s) => s,
    };
    let ghost s = stream_views(streams@);
    let video = find_stream(streams, "video");
    let audio = find_stream(streams, "audio");
    let kind = match media_kind(video.is_some(), audio.is_some(), extension) {
        None => {
            return Err(MediaError::Unsupported(String::from_str(display)));
        },
        Some(k) => k,
    };
    let (width, height) = match video {
        Some(i) => {
            assert(s[i as int] == streams@[i as int]@);
            (cut(streams[i].width), cut(streams[i].height))
        },
        None => (None, None),
    };
    let primary = if video.is_some() { video } else { audio };
    let codec = match primary {
        Some(i) => {
            assert(s[i as int] == streams@[i as int]@);
            copy_text(&streams[i].codec_name)
        },
        None => None,
    };
    Ok(ProbeSummary {
        kind,
        has_video: video.is_some(),
        has_audio: audio.is_some(),
        width,
        height,
        codec,
        duration_text: copy_text(&report.duration_text),
    })
}

/// What inspection makes of the prober's output: output the JSON parser
/// rejects is undecodable, with the parser's message; a parsed report is
/// summarized as `probe_summary` says.
pub open spec fn probe_output_summary(stdout: Seq<u8>, ext: Seq<char>, display: Seq<char>) -> Result<ProbeSummaryView, MediaErrorView> {
    match probe_report(stdout) {
        Err(e) => Err(MediaErrorView::Decode(e)),
        Ok(r) => probe_summary(r, ext, display),
    }
}

/// Parses the prober's output and summarizes it; see `probe_output_summary`.
pub fn summarize_probe_output(stdout: &[u8], extension: &str, display: &str) -> (r: Result<ProbeSummary, MediaError>)
    ensures
        summary_result(r) == probe_output_summary(stdout@, extension@, display@),
{
    match parse_probe_report(stdout) {
        Err(e) => Err(MediaError::Decode(e)),
        Ok(report) => summarize_probe(&report, extension, display),
    }
}

} // verus!
