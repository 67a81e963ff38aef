use mutter::engine::{build_transcript, InferenceConfig, RawSegment, RawToken};
use std::time::Duration;

fn token(text: &str, start: i64, stop: i64) -> RawToken {
    RawToken { text: String::from(text), start, stop }
}

fn sample_segments() -> Vec<RawSegment> {
    vec![
        RawSegment {
            text: String::from(" hello world "),
            start: 0,
            stop: 150,
            tokens: vec![
                token("[_BEG_]", 0, 0),
                token(" hello", 0, 70),
                token(" world ", 70, 150),
            ],
        },
        RawSegment {
            text: String::from(" again"),
            start: 150,
            stop: 300,
            tokens: vec![token(" again", 150, 300), token("[_TT_150]", 300, 300)],
        },
    ]
}

#[test]
fn segments_become_utterances_verbatim() {
    let transcript = build_transcript(sample_segments(), false, Duration::from_millis(7));
    assert_eq!(transcript.utterances.len(), 2);
    assert_eq!(transcript.utterances[0].start, 0);
    assert_eq!(transcript.utterances[0].stop, 150);
    assert_eq!(transcript.utterances[0].text, " hello world ");
    assert_eq!(transcript.utterances[1].start, 150);
    assert_eq!(transcript.utterances[1].stop, 300);
    assert_eq!(transcript.utterances[1].text, " again");
    assert_eq!(transcript.processing_time, Duration::from_millis(7));
}

#[test]
fn word_utterances_absent_when_not_requested() {
    let transcript = build_transcript(sample_segments(), false, Duration::from_millis(1));
    assert!(transcript.word_utterances.is_none());
}

#[test]
fn special_tokens_never_reach_word_utterances() {
    let transcript = build_transcript(sample_segments(), true, Duration::from_millis(1));
    let words = transcript.word_utterances.expect("word timestamps were requested");
    let texts: Vec<&str> = words.iter().map(|w| w.text.as_str()).collect();
    assert_eq!(texts, vec![" hello", " world ", " again"]);
    for w in &words {
        assert!(!w.text.starts_with("[_"));
    }
    assert_eq!(words[0].start, 0);
    assert_eq!(words[0].stop, 70);
    assert_eq!(words[2].start, 150);
    assert_eq!(words[2].stop, 300);
}

#[test]
fn word_utterances_present_but_empty_when_all_tokens_are_special() {
    let segments = vec![RawSegment {
        text: String::from("silence"),
        start: 0,
        stop: 100,
        tokens: vec![token("[_BEG_]", 0, 0), token("[_EOT_]", 100, 100)],
    }];
    let transcript = build_transcript(segments, true, Duration::from_millis(1));
    let words = transcript.word_utterances.expect("word timestamps were requested");
    assert!(words.is_empty());
}

#[test]
fn config_takes_requested_thread_count() {
    let config = InferenceConfig::build(false, false, None, None, Some(8), 4);
    assert_eq!(config.n_threads, 8);
}

#[test]
fn config_defaults_to_available_parallelism() {
    let config = InferenceConfig::build(false, false, None, None, None, 4);
    assert_eq!(config.n_threads, 4);
}

#[test]
fn config_fixes_strategy_and_silences_engine_output() {
    let config = InferenceConfig::build(
        true,
        true,
        Some(String::from("context")),
        Some(String::from("en")),
        Some(2),
        1,
    );
    assert!(config.translate);
    assert!(config.word_timestamps);
    assert_eq!(config.initial_prompt.as_deref(), Some("context"));
    assert_eq!(config.language.as_deref(), Some("en"));
    assert_eq!(config.beam_size, 5);
    assert!(config.split_on_word);
    assert!(!config.print_special);
    assert!(!config.print_progress);
    assert!(!config.print_realtime);
    assert!(!config.print_timestamps);
}

#[test]
fn end_to_end_single_segment_rendering() {
    let segments = vec![RawSegment {
        text: String::from(" hello world "),
        start: 0,
        stop: 150,
        tokens: vec![],
    }];
    let transcript = build_transcript(segments, false, Duration::from_millis(10));
    assert_eq!(transcript.as_text(), "hello world\n");
    assert_eq!(transcript.as_srt(), "1\n00:00:00,000 --> 00:00:01,500\nhello world\n");
}
