use open_editor_lib::media::MediaError;
use open_editor_lib::probe::{summarize_probe, summarize_probe_output, ProbeReport, ProbeStream};

fn stream(kind: &str, codec: &str, width: Option<u64>, height: Option<u64>) -> ProbeStream {
    ProbeStream { codec_type: Some(kind.into()), codec_name: Some(codec.into()), width, height }
}

#[test]
fn video_with_audio_takes_the_first_streams_of_each_type() {
    let report = ProbeReport {
        streams: Some(vec![
            stream("audio", "aac", None, None),
            stream("video", "h264", Some(1920), Some(1080)),
            stream("video", "hevc", Some(640), Some(360)),
        ]),
        duration_text: Some("12.5".into()),
    };
    let summary = summarize_probe(&report, "MOV", "/m/a.mov").unwrap();
    assert_eq!(summary.kind, "video");
    assert!(summary.has_video && summary.has_audio);
    assert_eq!((summary.width, summary.height), (Some(1920), Some(1080)));
    assert_eq!(summary.codec.as_deref(), Some("h264"));
    assert_eq!(summary.duration_text.as_deref(), Some("12.5"));
}

#[test]
fn images_audio_and_unsupported_files() {
    let image = ProbeReport { streams: Some(vec![stream("video", "mjpeg", Some(800), Some(600))]), duration_text: None };
    assert_eq!(summarize_probe(&image, "JPG", "p.JPG").unwrap().kind, "image");
    let audio = ProbeReport { streams: Some(vec![stream("audio", "mp3", None, None)]), duration_text: None };
    let summary = summarize_probe(&audio, "mp3", "s.mp3").unwrap();
    assert_eq!(summary.kind, "audio");
    assert_eq!(summary.codec.as_deref(), Some("mp3"));
    assert_eq!((summary.width, summary.height, summary.has_video), (None, None, false));
    let data = ProbeReport { streams: Some(vec![stream("data", "bin_data", None, None)]), duration_text: None };
    assert!(matches!(summarize_probe(&data, "mp4", "d.mp4"), Err(MediaError::Unsupported(p)) if p == "d.mp4"));
    let none = ProbeReport { streams: None, duration_text: None };
    assert!(matches!(summarize_probe(&none, "mp4", "x.mp4"), Err(MediaError::Decode(m)) if m == "missing streams"));
}

#[test]
fn dimensions_keep_their_low_32_bits() {
    let report = ProbeReport { streams: Some(vec![stream("video", "h264", Some(4_294_967_297), Some(720))]), duration_text: None };
    let summary = summarize_probe(&report, "mp4", "w.mp4").unwrap();
    assert_eq!(summary.width, Some(1));
    assert_eq!(summary.height, Some(720));
}

#[test]
fn prober_output_is_parsed_and_summarized() {
    let json = br#"{"streams":[{"codec_type":"video","codec_name":"h264","width":320,"height":180},
        {"codec_type":"audio","codec_name":"aac"}],"format":{"duration":"1.000000"}}"#;
    let summary = summarize_probe_output(json, "mp4", "fixture.mp4").unwrap();
    assert_eq!(summary.kind, "video");
    assert_eq!((summary.width, summary.height), (Some(320), Some(180)));
    assert_eq!(summary.codec.as_deref(), Some("h264"));
    assert!(summary.has_audio);
    assert_eq!(summary.duration_text.as_deref(), Some("1.000000"));

    let untyped = br#"{"streams":[{"codec_type":"video","width":"320"}],"format":{"duration":1.5}}"#;
    let summary = summarize_probe_output(untyped, "mp4", "u.mp4").unwrap();
    assert_eq!((summary.width, summary.codec, summary.duration_text), (None, None, None));

    let no_streams = br#"{"format":{}}"#;
    assert!(matches!(summarize_probe_output(no_streams, "mp4", "n.mp4"), Err(MediaError::Decode(m)) if m == "missing streams"));
    assert!(matches!(summarize_probe_output(b"not json", "mp4", "b.mp4"), Err(MediaError::Decode(m)) if m.contains("line 1")));
}
