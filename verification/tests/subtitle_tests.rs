use std::io::Write;
use videocaster::opensubs::{fallback_subtitle, gz_subtitle_to_vtt, srt_to_vtt};

#[test]
fn cue_indices_dropped_and_separators_rewritten() {
    let srt = "1\n00:00:01,000 --> 00:00:02,000\nHello\n\n2\n00:00:03,500 --> 00:00:04,000\nWorld\n";
    let vtt = srt_to_vtt(srt);
    assert_eq!(
        vtt,
        "WEBVTT\n\n00:00:01.000 --> 00:00:02.000\nHello\n\n00:00:03.500 --> 00:00:04.000\nWorld\n"
    );
}

#[test]
fn conversion_is_deterministic() {
    let srt = "1\n00:00:01,000 --> 00:00:02,000\nHello\n";
    assert_eq!(srt_to_vtt(srt), srt_to_vtt(srt));
}

#[test]
fn digit_line_is_dropped() {
    assert_eq!(srt_to_vtt("1"), "WEBVTT\n\n");
    assert_eq!(srt_to_vtt("123456"), "WEBVTT\n\n");
}

#[test]
fn timing_line_commas_become_periods() {
    assert_eq!(
        srt_to_vtt("00:00:01,000 --> 00:00:02,000"),
        "WEBVTT\n\n00:00:01.000 --> 00:00:02.000\n"
    );
}

#[test]
fn content_line_passes_through_unchanged() {
    assert_eq!(srt_to_vtt("Hello"), "WEBVTT\n\nHello\n");
}

#[test]
fn comma_in_plain_text_is_kept() {
    assert_eq!(srt_to_vtt("Hello, world"), "WEBVTT\n\nHello, world\n");
}

#[test]
fn period_separated_timing_is_recognized_too() {
    assert_eq!(
        srt_to_vtt("00:00:01.000 --> 00:00:02.000"),
        "WEBVTT\n\n00:00:01.000 --> 00:00:02.000\n"
    );
}

#[test]
fn timing_without_milliseconds_is_recognized() {
    assert_eq!(
        srt_to_vtt("00:00:01 --> 00:00:02"),
        "WEBVTT\n\n00:00:01 --> 00:00:02\n"
    );
}

#[test]
fn timing_detection_rewrites_every_comma_on_the_line() {
    assert_eq!(
        srt_to_vtt("x, 00:00:01,000 --> 00:00:02,000 ,y"),
        "WEBVTT\n\nx. 00:00:01.000 --> 00:00:02.000 .y\n"
    );
}

#[test]
fn carriage_returns_are_stripped_from_line_ends() {
    let srt = "1\r\n00:00:01,000 --> 00:00:02,000\r\nHi\r\n";
    assert_eq!(srt_to_vtt(srt), "WEBVTT\n\n00:00:01.000 --> 00:00:02.000\nHi\n");
}

#[test]
fn input_without_trailing_newline_is_tolerated() {
    assert_eq!(srt_to_vtt("Hi"), "WEBVTT\n\nHi\n");
    assert_eq!(srt_to_vtt(""), "WEBVTT\n\n");
}

#[test]
fn reconverting_own_output_duplicates_the_header() {
    let once = srt_to_vtt("Hello");
    let twice = srt_to_vtt(&once);
    assert_eq!(twice, "WEBVTT\n\nWEBVTT\n\nHello\n");
}

#[test]
fn gzipped_srt_is_unpacked_and_converted() {
    let srt = "1\n00:00:01,000 --> 00:00:02,000\nHello\n";
    let mut enc = flate2::write::GzEncoder::new(Vec::new(), flate2::Compression::default());
    enc.write_all(srt.as_bytes()).unwrap();
    let gz = enc.finish().unwrap();
    let vtt = gz_subtitle_to_vtt(&gz).unwrap();
    assert_eq!(vtt, "WEBVTT\n\n00:00:01.000 --> 00:00:02.000\nHello\n");
}

#[test]
fn garbage_bytes_are_not_a_subtitle() {
    let garbage = vec![1u8, 2, 3, 4, 5];
    assert!(gz_subtitle_to_vtt(&garbage).is_none());
}

#[test]
fn fallback_subtitle_is_a_placeholder_cue() {
    assert_eq!(
        fallback_subtitle(),
        "WEBVTT\n\n00:00:00.000 --> 00:00:15.000\nNo subtitles found\n"
    );
}
