//! The boundary to the external recognition engine: the inference
//! configuration handed to it, the raw per-segment output it returns, and
//! the mapping of that output into a [`Transcript`].
use vstd::prelude::*;

use crate::transcript::{Transcript, Utterance, UtteranceModel};
use std::time::Duration;

verus! {

/// The beam width of the fixed beam-search decoding strategy.
pub const BEAM_SIZE: u8 = 5;

/// Configuration for one inference call. Built once per transcription and
/// immutable thereafter; the search strategy is fixed and the engine's own
/// console printing is disabled, since the transcript is rendered here.
#[derive(Debug)]
pub struct InferenceConfig {
    /// Whether the engine should translate the speech.
    pub translate: bool,
    /// Whether per-word timestamps are requested.
    pub word_timestamps: bool,
    /// Optional prompt handed to the engine before decoding.
    pub initial_prompt: Option<String>,
    /// Optional language hint for the engine.
    pub language: Option<String>,
    /// Number of worker threads the engine should use.
    pub n_threads: i32,
    /// Beam width of the beam-search strategy.
    pub beam_size: u8,
    /// Whether segment boundaries prefer word edges.
    pub split_on_word: bool,
    /// Whether the engine prints special tokens itself.
    pub print_special: bool,
    /// Whether the engine prints its progress itself.
    pub print_progress: bool,
    /// Whether the engine prints live output itself.
    pub print_realtime: bool,
    /// Whether the engine prints timestamps itself.
    pub print_timestamps: bool,
}

/// The thread count an inference call resolves to: the requested count, or
/// the host's available parallelism when none was requested.
pub open spec fn spec_thread_count(requested: Option<u16>, available: int) -> int {
    match requested {
        Some(n) => n as int,
        None => available,
    }
}

impl InferenceConfig {
    /// Builds the configuration for one inference call: the caller's
    /// choices are taken over verbatim, the thread count defaults to the
    /// host's available parallelism, the beam-search strategy is fixed,
    /// segment splitting prefers word edges, and all of the engine's own
    /// printing is off.
    pub fn build(
        translate: bool,
        word_timestamps: bool,
        initial_prompt: Option<String>,
        language: Option<String>,
        threads: Option<u16>,
        available_parallelism: usize,
    ) -> (c: InferenceConfig)
        requires
            available_parallelism <= 0x7fff_ffff,
        ensures
            c.translate == translate,
            c.word_timestamps == word_timestamps,
            c.initial_prompt == initial_prompt,
            c.language == language,
            c.n_threads == spec_thread_count(threads, available_parallelism as int),
            c.beam_size == BEAM_SIZE,
            c.split_on_word,
            !c.print_special,
            !c.print_progress,
            !c.print_realtime,
            !c.print_timestamps,
    {
        let n_threads: i32 = match threads {
            Some(n) => n as i32,
            None => available_parallelism as i32,
        };
        InferenceConfig {
            translate,
            word_timestamps,
            initial_prompt,
            language,
            n_threads,
            beam_size: BEAM_SIZE,
            split_on_word: true,
            print_special: false,
            print_progress: false,
            print_realtime: false,
            print_timestamps: false,
        }
    }
}

/// One token of a recognized segment, as the engine hands it out.
#[derive(Debug)]
pub struct RawToken {
    /// Text of the token.
    pub text: String,
    /// Start of the token, in centiseconds.
    pub start: i64,
    /// End of the token, in centiseconds.
    pub stop: i64,
}

impl View for RawToken {
    type V = UtteranceModel;

    open spec fn view(&self) -> UtteranceModel {
        UtteranceModel { start: self.start as int, stop: self.stop as int, text: self.text@ }
    }
}

/// One recognized segment, as the engine hands it out: its text, its
/// timestamps, and its tokens where word timestamps were requested.
#[derive(Debug)]
pub struct RawSegment {
    /// Text of the whole segment.
    pub text: String,
    /// Start of the segment, in centiseconds.
    pub start: i64,
    /// End of the segment, in centiseconds.
    pub stop: i64,
    /// The tokens of the segment, empty unless word timestamps were
    /// requested.
    pub tokens: Vec<RawToken>,
}

/// Mathematical model of a [`RawSegment`].
pub struct RawSegmentModel {
    pub text: Seq<char>,
    pub start: int,
    pub stop: int,
    pub tokens: Seq<UtteranceModel>,
}

impl View for RawSegment {
    type V = RawSegmentModel;

    open spec fn view(&self) -> RawSegmentModel {
        RawSegmentModel {
            text: self.text@,
            start: self.start as int,
            stop: self.stop as int,
            tokens: self.tokens@.map_values(|t: RawToken| t@),
        }
    }
}

/// The utterance a segment maps to: its text and timestamps, verbatim.
pub open spec fn segment_utterance(s: RawSegmentModel) -> UtteranceModel {
    UtteranceModel { start: s.start, stop: s.stop, text: s.text }
}

/// Whether a token's text begins with the reserved marker `[_` that the
/// engine puts on its internal special tokens.
pub open spec fn starts_with_special_marker(text: Seq<char>) -> bool {
    text.len() >= 2 && text[0] == '[' && text[1] == '_'
}

/// Whether `text` begins with the engine's special-token marker `[_`.
pub fn is_special_token(text: &str) -> (b: bool)
    ensures
        b == starts_with_special_marker(text@),
{
    let n = text.unicode_len();
    n >= 2 && text.get_char(0) == '[' && text.get_char(1) == '_'
}

/// The tokens of one segment that word extraction keeps: those whose text
/// does not begin with the special marker, in order.
pub open spec fn kept_tokens(toks: Seq<UtteranceModel>) -> Seq<UtteranceModel>
    decreases toks.len(),
{
    if toks.len() == 0 {
        Seq::<UtteranceModel>::empty()
    } else if starts_with_special_marker(toks[0].text) {
        kept_tokens(toks.skip(1))
    } else {
        seq![toks[0]] + kept_tokens(toks.skip(1))
    }
}

/// The word utterances of a whole inference output: the kept tokens of
/// every segment, in segment order.
pub open spec fn words_of(segs: Seq<RawSegmentModel>) -> Seq<UtteranceModel>
    decreases segs.len(),
{
    if segs.len() == 0 {
        Seq::<UtteranceModel>::empty()
    } else {
        kept_tokens(segs[0].tokens) + words_of(segs.skip(1))
    }
}

/// No token that begins with the engine's special marker `[_` ever appears
/// among the word utterances, whatever the inference output holds.
pub proof fn lemma_word_filtering(segs: Seq<RawSegmentModel>, i: int)
    requires
        0 <= i < words_of(segs).len(),
    ensures
        !starts_with_special_marker(words_of(segs)[i].text),
    decreases segs.len(),
{
    if segs.len() > 0 {
        let head = kept_tokens(segs[0].tokens);
        lemma_kept_tokens_filtered(segs[0].tokens);
        if i >= head.len() {
            lemma_word_filtering(segs.skip(1), i - head.len());
        }
    }
}

/// Every token that the per-segment extraction keeps is free of the
/// special marker.
pub proof fn lemma_kept_tokens_filtered(toks: Seq<UtteranceModel>)
    ensures
        forall|j: int|
            0 <= j < kept_tokens(toks).len() ==> !starts_with_special_marker(
                #[trigger] kept_tokens(toks)[j].text,
            ),
    decreases toks.len(),
{
    if toks.len() > 0 {
        lemma_kept_tokens_filtered(toks.skip(1));
        let rest = kept_tokens(toks.skip(1));
        if !starts_with_special_marker(toks[0].text) {
            assert(kept_tokens(toks) == seq![toks[0]] + rest);
            assert forall|j: int|
                0 <= j < kept_tokens(toks).len() implies !starts_with_special_marker(
                #[trigger] kept_tokens(toks)[j].text,
            ) by {
                if j > 0 {
                    assert(kept_tokens(toks)[j] == rest[j - 1]);
                }
            }
        }
    }
}

/// Appends the kept tokens of one segment, as utterances, to `out`.
fn push_kept_tokens(seg: &RawSegment, out: &mut Vec<Utterance>)
    ensures
        final(out)@.map_values(|u: Utterance| u@) == old(out)@.map_values(|u: Utterance| u@)
            + kept_tokens(seg@.tokens),
{
    let ghost toks = seg@.tokens;
    let ghost base = old(out)@.map_values(|u: Utterance| u@);
    let n = seg.tokens.len();
    let mut j: usize = 0;
    proof {
        assert(toks.skip(0) =~= toks);
        assert(out@.map_values(|u: Utterance| u@) + kept_tokens(toks.skip(0)) =~= base
            + kept_tokens(toks));
    }
    while j < n
        invariant
            n == seg.tokens.len(),
            toks == seg@.tokens,
            0 <= j <= n,
            out@.map_values(|u: Utterance| u@) + kept_tokens(toks.skip(j as int)) == base
                + kept_tokens(toks),
        decreases n - j,
    {
        let t = &seg.tokens[j];
        proof {
            assert(toks[j as int] == t@);
            assert(toks.skip(j as int)[0] == toks[j as int]);
            assert(toks.skip(j as int).skip(1) =~= toks.skip(j as int + 1));
        }
        if !is_special_token(t.text.as_str()) {
            let u = Utterance { start: t.start, stop: t.stop, text: t.text.clone() };
            proof {
                assert(u@ == t@);
            }
            out.push(u);
            proof {
                assert(out@.map_values(|u: Utterance| u@) + kept_tokens(toks.skip(j as int + 1))
                    =~= base + kept_tokens(toks));
            }
        } else {
            proof {
                assert(out@.map_values(|u: Utterance| u@) + kept_tokens(toks.skip(j as int + 1))
                    =~= base + kept_tokens(toks));
            }
        }
        j = j + 1;
    }
    proof {
        assert(toks.skip(n as int) =~= Seq::<UtteranceModel>::empty());
        assert(out@.map_values(|u: Utterance| u@) =~= base + kept_tokens(toks));
    }
}

/// Maps the raw per-segment output of an inference call into a
/// [`Transcript`]: the segments become the utterances verbatim, and, when
/// word timestamps were requested, every token of every segment becomes a
/// word utterance except those carrying the engine's special marker.
pub fn build_transcript(
    segments: Vec<RawSegment>,
    word_timestamps: bool,
    processing_time: Duration,
) -> (t: Transcript)
    ensures
        t@.utterances == segments@.map_values(|s: RawSegment| segment_utterance(s@)),
        word_timestamps ==> t@.word_utterances == Some(
            words_of(segments@.map_values(|s: RawSegment| s@)),
        ),
        !word_timestamps ==> t@.word_utterances is None,
        t.processing_time == processing_time,
{
    let ghost segs = segments@.map_values(|s: RawSegment| s@);
    let n = segments.len();
    let mut utterances: Vec<Utterance> = Vec::new();
    let mut words: Vec<Utterance> = Vec::new();
    let mut i: usize = 0;
    proof {
        assert(segs.skip(0) =~= segs);
        assert(words@.map_values(|u: Utterance| u@) + words_of(segs.skip(0)) =~= words_of(segs));
    }
    while i < n
        invariant
            n == segments.len(),
            segs == segments@.map_values(|s: RawSegment| s@),
            0 <= i <= n,
            utterances@.len() == i,
            forall|k: int|
                0 <= k < i ==> #[trigger] utterances@[k]@ == segment_utterance(segments@[k]@),
            word_timestamps ==> words@.map_values(|u: Utterance| u@) + words_of(
                segs.skip(i as int),
            ) == words_of(segs),
            !word_timestamps ==> words@.len() == 0,
        decreases n - i,
    {
        let s = &segments[i];
        let u = Utterance { start: s.start, stop: s.stop, text: s.text.clone() };
        utterances.push(u);
        proof {
            assert(segs[i as int] == s@);
            assert(segs.skip(i as int)[0] == segs[i as int]);
            assert(segs.skip(i as int).skip(1) =~= segs.skip(i as int + 1));
        }
        if word_timestamps {
            push_kept_tokens(s, &mut words);
            proof {
                assert(words@.map_values(|u: Utterance| u@) + words_of(segs.skip(i as int + 1))
                    =~= words_of(segs));
            }
        }
        i = i + 1;
    }
    let t = Transcript {
        processing_time,
        utterances,
        word_utterances: if word_timestamps {
            Some(words)
        } else {
            None
        },
    };
    proof {
        assert(t@.utterances =~= segments@.map_values(|s: RawSegment| segment_utterance(s@)));
        if word_timestamps {
            assert(segs.skip(n as int) =~= Seq::<RawSegmentModel>::empty());
            assert(words@.map_values(|u: Utterance| u@) =~= words_of(segs));
        }
    }
    t
}

} // verus!
