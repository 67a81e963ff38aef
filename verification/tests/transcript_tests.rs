use mutter::transcript::{format_timestamp, Transcript, Utterance};
use std::time::Duration;

fn utterance(start: i64, stop: i64, text: &str) -> Utterance {
    Utterance { start, stop, text: String::from(text) }
}

fn single_segment_transcript() -> Transcript {
    Transcript {
        processing_time: Duration::from_millis(1),
        utterances: vec![utterance(0, 150, " hello world ")],
        word_utterances: None,
    }
}

#[test]
fn test_format_timestamp() {
    let result = format_timestamp(100, true, ".");
    assert_eq!(result, "00:00:01.000");
}

#[test]
fn test_format_timestamp_hours() {
    let result = format_timestamp(100, true, ",");
    assert_eq!(result, "00:00:01,000");
}

#[test]
fn test_format_timestamp_seconds() {
    let result = format_timestamp(100, false, ".");
    assert_eq!(result, "00:01.000");
}

#[test]
fn format_timestamp_zero() {
    assert_eq!(format_timestamp(0, true, "."), "00:00:00.000");
    assert_eq!(format_timestamp(0, false, "."), "00:00.000");
}

#[test]
fn format_timestamp_just_under_an_hour() {
    assert_eq!(format_timestamp(359_999, true, "."), "00:59:59.990");
}

#[test]
fn format_timestamp_whole_hour() {
    assert_eq!(format_timestamp(360_000, true, "."), "01:00:00.000");
    // A non-zero hour field is kept even when hours are optional.
    assert_eq!(format_timestamp(360_000, false, "."), "01:00:00.000");
}

#[test]
fn format_timestamp_marker_is_the_only_difference() {
    for t in [0_i64, 100, 12_345, 359_999, 360_000, 987_654] {
        let dot = format_timestamp(t, true, ".");
        let comma = format_timestamp(t, true, ",");
        assert_eq!(dot.len(), comma.len());
        let mut differences = 0;
        for (a, b) in dot.chars().zip(comma.chars()) {
            if a != b {
                assert_eq!(a, '.');
                assert_eq!(b, ',');
                differences += 1;
            }
        }
        assert_eq!(differences, 1);
    }
}

#[test]
fn as_text_trims_and_joins() {
    let transcript = single_segment_transcript();
    assert_eq!(transcript.as_text(), "hello world\n");
}

#[test]
fn as_srt_single_segment() {
    let transcript = single_segment_transcript();
    assert_eq!(transcript.as_srt(), "1\n00:00:00,000 --> 00:00:01,500\nhello world\n");
}

#[test]
fn as_vtt_single_segment() {
    let transcript = single_segment_transcript();
    assert_eq!(transcript.as_vtt(), "WEBVTT\n00:00:00.000 --> 00:00:01.500\nhello world\n\n");
}

#[test]
fn rendering_is_idempotent() {
    let transcript = Transcript {
        processing_time: Duration::from_millis(3),
        utterances: vec![utterance(0, 100, "one"), utterance(100, 250, " two --> three ")],
        word_utterances: None,
    };
    assert_eq!(transcript.as_text(), transcript.as_text());
    assert_eq!(transcript.as_vtt(), transcript.as_vtt());
    assert_eq!(transcript.as_srt(), transcript.as_srt());
}

#[test]
fn srt_indices_count_up_from_one() {
    let transcript = Transcript {
        processing_time: Duration::from_millis(2),
        utterances: vec![
            utterance(0, 100, "a"),
            utterance(100, 200, "b"),
            utterance(200, 300, "c"),
        ],
        word_utterances: None,
    };
    let expected = "1\n00:00:00,000 --> 00:00:01,000\na\n\
                    2\n00:00:01,000 --> 00:00:02,000\nb\n\
                    3\n00:00:02,000 --> 00:00:03,000\nc\n";
    assert_eq!(transcript.as_srt(), expected);
}

#[test]
fn cue_separator_in_text_is_sanitized() {
    let transcript = Transcript {
        processing_time: Duration::from_millis(2),
        utterances: vec![utterance(0, 100, "go --> stop --> go")],
        word_utterances: None,
    };
    assert_eq!(transcript.as_srt(), "1\n00:00:00,000 --> 00:00:01,000\ngo -> stop -> go\n");
    assert_eq!(
        transcript.as_vtt(),
        "WEBVTT\n00:00:00.000 --> 00:00:01.000\ngo -> stop -> go\n\n"
    );
    // Plain text is not sanitized, only trimmed.
    assert_eq!(transcript.as_text(), "go --> stop --> go\n");
}

#[test]
fn empty_transcript_renders_empty() {
    let transcript = Transcript {
        processing_time: Duration::from_millis(0),
        utterances: vec![],
        word_utterances: None,
    };
    assert_eq!(transcript.as_text(), "");
    assert_eq!(transcript.as_vtt(), "WEBVTT\n");
    assert_eq!(transcript.as_srt(), "");
}
