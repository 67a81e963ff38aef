//! The transcript data model and its renderings: plain text, WebVTT and
//! SubRip (SRT).
use vstd::prelude::*;

use crate::textfmt::{
    dec_u64, is_digit_char, lemma_pad_digits, pad2_u64, pad3_u64, sanitize, sanitize_text,
    spec_dec, spec_pad2, spec_pad3, trim, trim_text,
};
use std::time::Duration;

verus! {

/// The largest timestamp, in centiseconds, that the renderings accept: any
/// larger value would overflow the signed 64-bit millisecond arithmetic of
/// the conversion.
pub const MAX_TIMESTAMP_CS: i64 = 922_337_203_685_477_580;

/// A single utterance in the transcript: one contiguous span of recognized
/// speech (a whole segment, or a single word when word timestamps were
/// requested), with its start and stop timestamps.
#[derive(Debug)]
pub struct Utterance {
    /// Timestamp of the start of the utterance, in centiseconds.
    pub start: i64,
    /// Timestamp of the end of the utterance, in centiseconds.
    pub stop: i64,
    /// Text of the utterance.
    pub text: String,
}

/// Mathematical model of an [`Utterance`].
pub struct UtteranceModel {
    pub start: int,
    pub stop: int,
    pub text: Seq<char>,
}

impl View for Utterance {
    type V = UtteranceModel;

    open spec fn view(&self) -> UtteranceModel {
        UtteranceModel { start: self.start as int, stop: self.stop as int, text: self.text@ }
    }
}

/// The invariant every utterance inherits from the engine: timestamps are
/// non-negative, ordered, and small enough for the millisecond conversion.
pub open spec fn valid_utterance(u: UtteranceModel) -> bool {
    0 <= u.start && u.start <= u.stop && u.stop <= MAX_TIMESTAMP_CS
}

/// Transcript of an audio recording.
#[derive(Debug)]
pub struct Transcript {
    /// Wall-clock time the transcription took.
    pub processing_time: Duration,
    /// The utterances of the transcript, one per recognized segment, in
    /// order.
    pub utterances: Vec<Utterance>,
    /// The words of the transcript, one utterance per word. Present exactly
    /// when word timestamps were requested.
    pub word_utterances: Option<Vec<Utterance>>,
}

/// Mathematical model of a [`Transcript`].
pub struct TranscriptModel {
    pub utterances: Seq<UtteranceModel>,
    pub word_utterances: Option<Seq<UtteranceModel>>,
}

impl View for Transcript {
    type V = TranscriptModel;

    open spec fn view(&self) -> TranscriptModel {
        TranscriptModel {
            utterances: self.utterances@.map_values(|u: Utterance| u@),
            word_utterances: match self.word_utterances {
                Some(w) => Some(w@.map_values(|u: Utterance| u@)),
                None => None,
            },
        }
    }
}

/// Whether every utterance of the transcript satisfies the timestamp
/// invariant, so that the subtitle renderings are defined.
pub open spec fn renderable(t: TranscriptModel) -> bool {
    forall|i: int| 0 <= i < t.utterances.len() ==> valid_utterance(#[trigger] t.utterances[i])
}

/// The hour field of the rendered form of a timestamp of `t` centiseconds.
pub open spec fn spec_hours(t: int) -> int {
    (t * 10) / 3600000
}

/// The rendering of a timestamp of `t` centiseconds: the centiseconds are
/// converted to milliseconds and decomposed into hours, minutes, seconds
/// and milliseconds; the hours field (two digits or more) is present when
/// requested or non-zero, minutes and seconds always show two digits, the
/// milliseconds three, and `marker` separates seconds from milliseconds.
pub open spec fn spec_timestamp(t: int, always_include_hours: bool, marker: Seq<char>) -> Seq<
    char,
>
    recommends
        0 <= t,
{
    let ms = t * 10;
    let h = ms / 3600000;
    let rem_h = ms % 3600000;
    let m = rem_h / 60000;
    let rem_m = rem_h % 60000;
    let s = rem_m / 1000;
    let milli = rem_m % 1000;
    let hours_part = if always_include_hours || h != 0 {
        spec_pad2(h) + ":"@
    } else {
        Seq::<char>::empty()
    };
    hours_part + spec_pad2(m) + ":"@ + spec_pad2(s) + marker + spec_pad3(milli)
}

/// Formats a timestamp given in centiseconds as `HH:MM:SS<marker>mmm`,
/// zero-padded, the hours omitted when zero unless `always_include_hours`
/// holds.
pub fn format_timestamp(num: i64, always_include_hours: bool, decimal_marker: &str) -> (r: String)
    requires
        0 <= num && num <= MAX_TIMESTAMP_CS,
    ensures
        r@ == spec_timestamp(num as int, always_include_hours, decimal_marker@),
{
    let ms: u64 = (num as u64) * 10;
    let h: u64 = ms / 3600000;
    let rem_h: u64 = ms % 3600000;
    let m: u64 = rem_h / 60000;
    let rem_m: u64 = rem_h % 60000;
    let s: u64 = rem_m / 1000;
    let milli: u64 = rem_m % 1000;
    let mut r = String::new();
    if always_include_hours || h != 0 {
        let hh = pad2_u64(h);
        r.append(hh.as_str());
        r.append(":");
    }
    let mm = pad2_u64(m);
    r.append(mm.as_str());
    r.append(":");
    let ss = pad2_u64(s);
    r.append(ss.as_str());
    r.append(decimal_marker);
    let mmm = pad3_u64(milli);
    r.append(mmm.as_str());
    proof {
        assert(r@ =~= spec_timestamp(num as int, always_include_hours, decimal_marker@));
    }
    r
}

/// The line with the start and stop timestamps of a cue, joined by the
/// literal separator `-->`.
pub open spec fn spec_cue_times(u: UtteranceModel, marker: Seq<char>) -> Seq<char> {
    spec_timestamp(u.start, true, marker) + " --> "@ + spec_timestamp(u.stop, true, marker)
}

/// One line of the plain-text rendering: the trimmed utterance text and a
/// newline.
pub open spec fn spec_text_line(u: UtteranceModel) -> Seq<char> {
    trim_text(u.text) + "\n"@
}

/// The plain-text rendering of a sequence of utterances.
pub open spec fn spec_text(utts: Seq<UtteranceModel>) -> Seq<char>
    decreases utts.len(),
{
    if utts.len() == 0 {
        Seq::<char>::empty()
    } else {
        spec_text_line(utts[0]) + spec_text(utts.skip(1))
    }
}

/// One WebVTT cue: timestamps with a period marker, then the trimmed,
/// sanitized text, then a blank line.
pub open spec fn spec_vtt_block(u: UtteranceModel) -> Seq<char> {
    spec_cue_times(u, "."@) + "\n"@ + sanitize_text(trim_text(u.text)) + "\n\n"@
}

/// The WebVTT cues of a sequence of utterances.
pub open spec fn spec_vtt(utts: Seq<UtteranceModel>) -> Seq<char>
    decreases utts.len(),
{
    if utts.len() == 0 {
        Seq::<char>::empty()
    } else {
        spec_vtt_block(utts[0]) + spec_vtt(utts.skip(1))
    }
}

/// One SRT cue: its 1-based index `idx` on a line of its own, timestamps
/// with a comma marker, then the trimmed, sanitized text.
pub open spec fn spec_srt_block(u: UtteranceModel, idx: int) -> Seq<char> {
    spec_dec(idx) + "\n"@ + spec_cue_times(u, ","@) + "\n"@ + sanitize_text(trim_text(u.text))
        + "\n"@
}

/// The SRT cues of a sequence of utterances, the first one carrying index
/// `k`, each following one more.
pub open spec fn spec_srt(utts: Seq<UtteranceModel>, k: int) -> Seq<char>
    decreases utts.len(),
{
    if utts.len() == 0 {
        Seq::<char>::empty()
    } else {
        spec_srt_block(utts[0], k) + spec_srt(utts.skip(1), k + 1)
    }
}

/// The fields the rendering of a timestamp of `t` centiseconds decomposes
/// into, beyond the hours: minutes, seconds and milliseconds.
proof fn lemma_timestamp_fields(t: int)
    requires
        0 <= t,
    ensures
        0 <= spec_hours(t),
        0 <= ((t * 10) % 3600000) / 60000 < 60,
        0 <= (((t * 10) % 3600000) % 60000) / 1000 < 60,
        0 <= (((t * 10) % 3600000) % 60000) % 1000 < 1000,
{
    let ms = t * 10;
    assert(ms >= 0);
    let rem_h = ms % 3600000;
    assert(0 <= rem_h < 3600000);
    assert(rem_h / 60000 < 60) by (nonlinear_arith)
        requires
            0 <= rem_h < 3600000,
    ;
    let rem_m = rem_h % 60000;
    assert(0 <= rem_m < 60000);
    assert(rem_m / 1000 < 60) by (nonlinear_arith)
        requires
            0 <= rem_m < 60000,
    ;
}

/// For every non-negative timestamp whose hour field has two digits, the
/// rendering with hours included is exactly `HH:MM:SS` then the marker
/// then `mmm`: twelve characters, colons at positions two and five, the
/// marker at position eight, digits everywhere else.
pub proof fn lemma_timestamp_shape(t: int, marker: Seq<char>)
    requires
        0 <= t,
        spec_hours(t) < 100,
        marker.len() == 1,
    ensures
        spec_timestamp(t, true, marker).len() == 12,
        spec_timestamp(t, true, marker)[2] == ':',
        spec_timestamp(t, true, marker)[5] == ':',
        spec_timestamp(t, true, marker)[8] == marker[0],
        forall|j: int|
            0 <= j < 12 && j != 2 && j != 5 && j != 8 ==> is_digit_char(
                #[trigger] spec_timestamp(t, true, marker)[j],
            ),
{
    reveal_strlit(":");
    lemma_timestamp_fields(t);
    let ms = t * 10;
    let h = ms / 3600000;
    let m = (ms % 3600000) / 60000;
    let s = ((ms % 3600000) % 60000) / 1000;
    let milli = ((ms % 3600000) % 60000) % 1000;
    lemma_pad_digits(h);
    lemma_pad_digits(m);
    lemma_pad_digits(s);
    lemma_pad_digits(milli);
    assert(":"@.len() == 1 && ":"@[0] == ':');
}

/// Two renderings of the same timestamp that differ only in the decimal
/// marker differ in exactly one position: the marker's, fourth from the
/// end.
pub proof fn lemma_timestamp_marker(t: int, always_include_hours: bool, m1: Seq<char>, m2: Seq<
    char,
>)
    requires
        0 <= t,
        m1.len() == 1,
        m2.len() == 1,
    ensures
        spec_timestamp(t, always_include_hours, m1).len() == spec_timestamp(
            t,
            always_include_hours,
            m2,
        ).len(),
        spec_timestamp(t, always_include_hours, m1)[spec_timestamp(t, always_include_hours, m1).len()
            - 4] == m1[0],
        spec_timestamp(t, always_include_hours, m2)[spec_timestamp(t, always_include_hours, m2).len()
            - 4] == m2[0],
        forall|j: int|
            0 <= j < spec_timestamp(t, always_include_hours, m1).len() && j != spec_timestamp(
                t,
                always_include_hours,
                m1,
            ).len() - 4 ==> #[trigger] spec_timestamp(t, always_include_hours, m1)[j]
                == spec_timestamp(t, always_include_hours, m2)[j],
{
    lemma_timestamp_fields(t);
    let ms = t * 10;
    let milli = ((ms % 3600000) % 60000) % 1000;
    lemma_pad_digits(milli);
}

/// The rendering with hours optional omits exactly the `HH:` prefix of
/// the rendering with hours included when the hour field is zero, and is
/// the same string otherwise.
pub proof fn lemma_timestamp_hours_suppression(t: int, marker: Seq<char>)
    requires
        0 <= t,
    ensures
        spec_hours(t) == 0 ==> spec_timestamp(t, false, marker) == spec_timestamp(
            t,
            true,
            marker,
        ).skip(3),
        spec_hours(t) != 0 ==> spec_timestamp(t, false, marker) == spec_timestamp(t, true, marker),
{
    reveal_strlit(":");
    lemma_timestamp_fields(t);
    let h = spec_hours(t);
    if h == 0 {
        assert(spec_pad2(0) =~= seq!['0', '0']);
        assert(spec_timestamp(t, false, marker) =~= spec_timestamp(t, true, marker).skip(3));
    }
}

/// Concatenation of character sequences is associative.
proof fn lemma_char_assoc(x: Seq<char>, y: Seq<char>, z: Seq<char>)
    ensures
        (x + y) + z == x + (y + z),
{
    assert((x + y) + z =~= x + (y + z));
}

/// The SRT rendering of two runs of utterances, one after the other, is
/// the rendering of the first followed by the rendering of the second,
/// the indices of the second running on where the first stopped.
proof fn lemma_srt_concat(a: Seq<UtteranceModel>, b: Seq<UtteranceModel>, k: int)
    ensures
        spec_srt(a + b, k) == spec_srt(a, k) + spec_srt(b, k + a.len()),
    decreases a.len(),
{
    if a.len() == 0 {
        assert(a + b =~= b);
        assert(spec_srt(a, k) + spec_srt(b, k) =~= spec_srt(b, k));
    } else {
        lemma_srt_concat(a.skip(1), b, k + 1);
        assert((a + b)[0] == a[0]);
        assert((a + b).skip(1) =~= a.skip(1) + b);
        lemma_char_assoc(
            spec_srt_block(a[0], k),
            spec_srt(a.skip(1), k + 1),
            spec_srt(b, k + a.len()),
        );
    }
}

/// The SRT rendering decomposes around any utterance: the cues before it,
/// then its own block carrying the 1-based index `k + i`, then the cues
/// behind it, the indices running on in order.
proof fn lemma_srt_decomposition(utts: Seq<UtteranceModel>, k: int, i: int)
    requires
        0 <= i < utts.len(),
    ensures
        spec_srt(utts, k) == spec_srt(utts.take(i), k) + spec_srt_block(utts[i], k + i) + spec_srt(
            utts.skip(i + 1),
            k + i + 1,
        ),
{
    let mid = seq![utts[i]] + utts.skip(i + 1);
    assert(utts =~= utts.take(i) + mid);
    lemma_srt_concat(utts.take(i), mid, k);
    assert(mid[0] == utts[i]);
    assert(mid.skip(1) =~= utts.skip(i + 1));
    assert(spec_srt(mid, k + i) == spec_srt_block(utts[i], k + i) + spec_srt(
        utts.skip(i + 1),
        k + i + 1,
    ));
    lemma_char_assoc(
        spec_srt(utts.take(i), k),
        spec_srt_block(utts[i], k + i),
        spec_srt(utts.skip(i + 1), k + i + 1),
    );
}

/// In the SRT rendering the cue blocks carry exactly the indices `1` up to
/// the number of utterances, in order: the block of utterance `i` begins
/// with the decimal rendering of `i + 1` on a line of its own, between the
/// blocks of the utterances before and behind it.
pub proof fn lemma_srt_indices(utts: Seq<UtteranceModel>, i: int)
    requires
        0 <= i < utts.len(),
    ensures
        spec_srt(utts, 1) == spec_srt(utts.take(i), 1) + spec_srt_block(utts[i], i + 1)
            + spec_srt(utts.skip(i + 1), i + 2),
        spec_srt_block(utts[i], i + 1) == spec_dec(i + 1) + "\n"@ + spec_cue_times(utts[i], ","@)
            + "\n"@ + sanitize_text(trim_text(utts[i].text)) + "\n"@,
{
    lemma_srt_decomposition(utts, 1, i);
}

/// Renders the timestamp pair of one cue, joined by the separator.
fn cue_times(u: &Utterance, decimal_marker: &str) -> (r: String)
    requires
        valid_utterance(u@),
    ensures
        r@ == spec_cue_times(u@, decimal_marker@),
{
    let mut r = format_timestamp(u.start, true, decimal_marker);
    let stop_ts = format_timestamp(u.stop, true, decimal_marker);
    r.append(" --> ");
    r.append(stop_ts.as_str());
    proof {
        assert(r@ =~= spec_cue_times(u@, decimal_marker@));
    }
    r
}

/// Renders the trimmed, sanitized text of one utterance.
fn clean_text(u: &Utterance) -> (r: String)
    ensures
        r@ == sanitize_text(trim_text(u@.text)),
{
    let trimmed = trim(u.text.as_str());
    sanitize(trimmed)
}

/// Renders one WebVTT cue.
fn vtt_block(u: &Utterance) -> (r: String)
    requires
        valid_utterance(u@),
    ensures
        r@ == spec_vtt_block(u@),
{
    let mut r = cue_times(u, ".");
    r.append("\n");
    let clean = clean_text(u);
    r.append(clean.as_str());
    r.append("\n\n");
    proof {
        assert(r@ =~= spec_vtt_block(u@));
    }
    r
}

/// Renders one SRT cue, carrying the 1-based index `idx`.
fn srt_block(u: &Utterance, idx: u64) -> (r: String)
    requires
        valid_utterance(u@),
    ensures
        r@ == spec_srt_block(u@, idx as int),
{
    let mut r = dec_u64(idx);
    r.append("\n");
    let times = cue_times(u, ",");
    r.append(times.as_str());
    r.append("\n");
    let clean = clean_text(u);
    r.append(clean.as_str());
    r.append("\n");
    proof {
        assert(r@ =~= spec_srt_block(u@, idx as int));
    }
    r
}

impl Transcript {
    /// Returns the transcript as plain text: each utterance's trimmed text
    /// followed by a newline, in order, with no numbering or timestamps.
    pub fn as_text(&self) -> (r: String)
        ensures
            r@ == spec_text(self@.utterances),
    {
        let ghost model = self@.utterances;
        let mut r = String::new();
        let mut i: usize = 0;
        let n = self.utterances.len();
        proof {
            assert(model.skip(0) =~= model);
            assert(r@ + spec_text(model) =~= spec_text(model));
        }
        while i < n
            invariant
                n == self.utterances.len(),
                model == self@.utterances,
                0 <= i <= n,
                r@ + spec_text(model.skip(i as int)) == spec_text(model),
            decreases n - i,
        {
            let u = &self.utterances[i];
            let t = trim(u.text.as_str());
            r.append(t);
            r.append("\n");
            proof {
                assert(model.skip(i as int)[0] == model[i as int]);
                assert(model.skip(i as int).skip(1) =~= model.skip(i as int + 1));
                assert(r@ + spec_text(model.skip(i as int + 1)) =~= spec_text(model));
            }
            i = i + 1;
        }
        proof {
            assert(model.skip(n as int) =~= Seq::<UtteranceModel>::empty());
            assert(r@ =~= spec_text(model));
        }
        r
    }

    /// Returns the transcript in WebVTT format: the `WEBVTT` header, then
    /// one cue per utterance with period decimal markers and hours always
    /// shown, the text sanitized so that no separator of the cue syntax
    /// survives inside it.
    #[verifier::rlimit(60)]
    pub fn as_vtt(&self) -> (r: String)
        requires
            renderable(self@),
        ensures
            r@ == "WEBVTT\n"@ + spec_vtt(self@.utterances),
    {
        let ghost model = self@.utterances;
        let mut r = String::from_str("WEBVTT\n");
        let mut i: usize = 0;
        let n = self.utterances.len();
        proof {
            assert(model.skip(0) =~= model);
        }
        while i < n
            invariant
                n == self.utterances.len(),
                model == self@.utterances,
                renderable(self@),
                0 <= i <= n,
                r@ + spec_vtt(model.skip(i as int)) == "WEBVTT\n"@ + spec_vtt(model),
            decreases n - i,
        {
            let u = &self.utterances[i];
            proof {
                assert(model[i as int] == u@);
            }
            let block = vtt_block(u);
            r.append(block.as_str());
            proof {
                assert(model.skip(i as int)[0] == model[i as int]);
                assert(model.skip(i as int).skip(1) =~= model.skip(i as int + 1));
                assert(r@ + spec_vtt(model.skip(i as int + 1)) =~= "WEBVTT\n"@ + spec_vtt(model));
            }
            i = i + 1;
        }
        proof {
            assert(model.skip(n as int) =~= Seq::<UtteranceModel>::empty());
            assert(r@ =~= "WEBVTT\n"@ + spec_vtt(model));
        }
        r
    }

    /// Returns the transcript in SRT format: one cue per utterance, each
    /// with a 1-based sequential index on its own line, comma decimal
    /// markers, hours always shown, and the text sanitized.
    #[verifier::rlimit(60)]
    pub fn as_srt(&self) -> (r: String)
        requires
            renderable(self@),
        ensures
            r@ == spec_srt(self@.utterances, 1),
    {
        let ghost model = self@.utterances;
        let mut r = String::new();
        let mut i: usize = 0;
        let n = self.utterances.len();
        proof {
            assert(model.skip(0) =~= model);
            assert(r@ + spec_srt(model, 1) =~= spec_srt(model, 1));
        }
        while i < n
            invariant
                n == self.utterances.len(),
                model == self@.utterances,
                renderable(self@),
                0 <= i <= n,
                r@ + spec_srt(model.skip(i as int), i as int + 1) == spec_srt(model, 1),
            decreases n - i,
        {
            let u = &self.utterances[i];
            proof {
                assert(model[i as int] == u@);
            }
            let block = srt_block(u, (i as u64) + 1);
            r.append(block.as_str());
            proof {
                assert(model.skip(i as int)[0] == model[i as int]);
                assert(model.skip(i as int).skip(1) =~= model.skip(i as int + 1));
                assert(r@ + spec_srt(model.skip(i as int + 1), i as int + 2) =~= spec_srt(
                    model,
                    1,
                ));
            }
            i = i + 1;
        }
        proof {
            assert(model.skip(n as int) =~= Seq::<UtteranceModel>::empty());
            assert(r@ =~= spec_srt(model, 1));
        }
        r
    }
}

} // verus!
