//! The voice-activity segmenter and keyword worker: RMS-based silence
//! classification, the silence-hold policy that decides when an
//! accumulated mono buffer is handed to the transcription engine, and
//! case-insensitive substring matching of registered keywords against a
//! transcript.
//!
//! The transcription engine itself is a black box run by the embedding
//! application: it receives the buffer this module hands out and returns
//! text, which comes back in through [`WhisperKeywordSpotter::detect`].

use vstd::prelude::*;
use vstd::string::StrSliceExecFns;

verus! {

// ------------------------------------------------------------------
// Silence classification.
// ------------------------------------------------------------------

/// RMS threshold below which a block counts as silent, on the 16-bit
/// sample scale (about 1.5 % of full scale).
pub const SILENCE_THRESHOLD: u32 = 491;

/// Consecutive silent samples after which a spoken segment is over.
pub const SILENCE_HOLD: usize = 4096;

/// How many trailing samples of an arriving block the per-block silence
/// check looks at.
pub const SILENCE_CHECK_TAIL: usize = 512;

/// The minimum buffer length before transcription is attempted without a
/// silence ending: three seconds at the 16 kHz transcription rate.
pub const MIN_BUFFER_SAMPLES: usize = 48000;

/// The sum of the squares of `count` samples starting at `base`.
pub open spec fn spec_sum_sq(samples: Seq<i16>, base: int, count: int) -> int
    decreases count,
{
    if count <= 0 {
        0
    } else {
        (samples[base] as int) * (samples[base] as int) + spec_sum_sq(samples, base + 1, count - 1)
    }
}

proof fn lemma_sum_sq_extend(samples: Seq<i16>, base: int, count: int)
    requires
        0 <= count,
    ensures
        spec_sum_sq(samples, base, count + 1) == spec_sum_sq(samples, base, count) + (
        samples[base + count] as int) * (samples[base + count] as int),
    decreases count,
{
    reveal_with_fuel(spec_sum_sq, 3);
    if count > 0 {
        lemma_sum_sq_extend(samples, base + 1, count - 1);
    }
}

/// A block is silent when its root-mean-square amplitude lies below the
/// threshold: the sum of squares is below `threshold^2 * len`. An empty
/// block counts as silent.
pub open spec fn spec_is_silence(samples: Seq<i16>, threshold: int) -> bool {
    ||| samples.len() == 0
    ||| spec_sum_sq(samples, 0, samples.len() as int) < threshold * threshold * samples.len()
}

// ------------------------------------------------------------------
// Keyword matching over transcripts.
// ------------------------------------------------------------------

/// The needle occurs in the haystack at offset `off`.
pub open spec fn spec_match_at(haystack: Seq<char>, needle: Seq<char>, off: int) -> bool {
    forall|j: int| 0 <= j < needle.len() ==> haystack[off + j] == needle[j]
}

/// Substring containment: the needle occurs somewhere in the haystack.
pub open spec fn spec_contains_seq(haystack: Seq<char>, needle: Seq<char>) -> bool {
    exists|off: int| 0 <= off <= haystack.len() - needle.len() && spec_match_at(haystack, needle, off)
}

/// The lower-case form of a character sequence, as `str::to_lowercase`
/// computes it.
pub uninterp spec fn lower_of(s: Seq<char>) -> Seq<char>;

/// The whitespace-trimmed form of a character sequence, as `str::trim`
/// computes it.
pub uninterp spec fn trim_of(s: Seq<char>) -> Seq<char>;

/// Relies on str::to_lowercase: the result depends on the characters
/// alone.
#[verifier::external_body]
fn to_lowercase_str(s: &str) -> (r: String)
    ensures
        r@ == lower_of(s@),
{
    s.to_lowercase()
}

/// Relies on str::trim: the result (the input with leading and trailing
/// whitespace removed) depends on the characters alone.
#[verifier::external_body]
fn trim_str<'a>(s: &'a str) -> (r: &'a str)
    ensures
        r@ == trim_of(s@),
{
    s.trim()
}

/// Substring search over exact character sequences.
pub fn contains_substring(haystack: &str, needle: &str) -> (r: bool)
    ensures
        r == spec_contains_seq(haystack@, needle@),
{
    let hl = haystack.unicode_len();
    let nl = needle.unicode_len();
    if nl > hl {
        return false;
    }
    let mut off: usize = 0;
    while off <= hl - nl
        invariant
            nl <= hl,
            hl == haystack@.len(),
            nl == needle@.len(),
            off <= hl - nl + 1,
            forall|o: int| 0 <= o < off ==> !spec_match_at(haystack@, needle@, o),
        decreases hl - nl + 1 - off,
    {
        let mut j: usize = 0;
        let mut matches_here = true;
        while j < nl
            invariant
                j <= nl,
                nl <= hl,
                off <= hl - nl,
                hl == haystack@.len(),
                nl == needle@.len(),
                matches_here <==> (forall|t: int|
                    0 <= t < j ==> haystack@[off + t] == needle@[t]),
            decreases nl - j,
        {
            if haystack.get_char(off + j) != needle.get_char(j) {
                matches_here = false;
            }
            j += 1;
        }
        if matches_here {
            proof {
                assert(spec_match_at(haystack@, needle@, off as int));
            }
            return true;
        }
        off += 1;
    }
    false
}

// ------------------------------------------------------------------
// The keyword spotter.
// ------------------------------------------------------------------

/// A published keyword detection: the keyword that matched, the full
/// cleaned transcript it matched in, a fixed confidence placeholder in
/// thousandths, and a caller-supplied timestamp in milliseconds.
pub struct KeywordDetection {
    pub keyword: String,
    pub transcription: String,
    pub confidence: u32,
    pub timestamp: u64,
}

/// The keyword spotter: the registered keywords, matched against the text
/// the external transcription engine returns.
pub struct WhisperKeywordSpotter {
    keywords: Vec<String>,
}

/// The cleaned form of a raw transcript: trimmed, then lower-cased.
pub open spec fn spec_clean_transcript(raw: Seq<char>) -> Seq<char> {
    lower_of(trim_of(raw))
}

/// Keyword `i` matches the cleaned transcript: case-insensitive substring
/// containment.
pub open spec fn spec_keyword_matches(keywords: Seq<String>, clean: Seq<char>, i: int) -> bool {
    spec_contains_seq(clean, lower_of(keywords[i]@))
}

impl WhisperKeywordSpotter {
    /// The registered keywords, in registration order.
    pub closed spec fn spec_keywords(&self) -> Seq<String> {
        self.keywords@
    }

    /// A spotter for the given keywords; the embedding application loads
    /// the transcription model itself.
    pub fn new(keywords: Vec<String>) -> (spotter: WhisperKeywordSpotter)
        ensures
            spotter.spec_keywords() == keywords@,
    {
        WhisperKeywordSpotter { keywords }
    }

    /// Whether a sample block is classified as silent for the given RMS
    /// threshold on the 16-bit scale.
    pub fn is_silence(samples: &[i16], threshold: u32) -> (r: bool)
        requires
            threshold <= 32768,
        ensures
            r == spec_is_silence(samples@, threshold as int),
    {
        if samples.len() == 0 {
            return true;
        }
        let len = samples.len();
        let mut sum: u128 = 0;
        let mut i: usize = 0;
        while i < len
            invariant
                i <= len,
                len == samples@.len(),
                sum == spec_sum_sq(samples@, 0, i as int),
                sum <= 0x4000_0000 * (i as u128),
            decreases len - i,
        {
            proof {
                lemma_sum_sq_extend(samples@, 0, i as int);
                assert(0x4000_0000 * ((i + 1) as int) == 0x4000_0000 * (i as int) + 0x4000_0000)
                    by (nonlinear_arith);
                assert(0 <= (samples@[i as int] as int) * (samples@[i as int] as int)
                    <= 0x4000_0000) by (nonlinear_arith)
                    requires
                        -32768 <= samples@[i as int] as int <= 32767,
                ;
            }
            let s = samples[i];
            sum = sum + ((s as i64 * s as i64) as u128);
            i += 1;
        }
        proof {
            assert(0 <= (threshold as int) * (threshold as int) <= 0x4000_0000)
                by (nonlinear_arith)
                requires
                    threshold <= 32768,
            ;
            vstd::arithmetic::mul::lemma_mul_upper_bound(
                (threshold as int) * (threshold as int),
                0x4000_0000,
                len as int,
                0x1_0000_0000_0000_0000,
            );
        }
        let rhs: u128 = (threshold as u128) * (threshold as u128) * (len as u128);
        sum < rhs
    }

    /// Match a raw transcript against the registered keywords: the
    /// transcript is trimmed and lower-cased, and the first keyword whose
    /// lower-case form occurs in it as a substring yields a detection; an
    /// empty cleaned transcript yields none.
    pub fn detect(&self, transcript: &str, timestamp: u64) -> (r: Option<KeywordDetection>)
        ensures
            ({
                let clean = spec_clean_transcript(transcript@);
                &&& clean.len() == 0 ==> r is None
                &&& clean.len() > 0 ==> (r is Some <==> exists|i: int|
                    0 <= i < self.spec_keywords().len() && spec_keyword_matches(
                        self.spec_keywords(),
                        clean,
                        i,
                    ))
                &&& r matches Some(d) ==> exists|i: int|
                    {
                        &&& 0 <= i < self.spec_keywords().len()
                        &&& #[trigger] spec_keyword_matches(self.spec_keywords(), clean, i)
                        &&& forall|j: int|
                            0 <= j < i ==> !spec_keyword_matches(self.spec_keywords(), clean, j)
                        &&& d.keyword@ == self.spec_keywords()[i]@
                        &&& d.transcription@ == clean
                        &&& d.confidence == 900
                        &&& d.timestamp == timestamp
                    }
            }),
    {
        let trimmed = trim_str(transcript);
        let clean = to_lowercase_str(trimmed);
        if clean.as_str().unicode_len() == 0 {
            return None;
        }
        let mut i: usize = 0;
        while i < self.keywords.len()
            invariant
                i <= self.keywords@.len(),
                clean@ == spec_clean_transcript(transcript@),
                clean@.len() > 0,
                forall|j: int|
                    0 <= j < i ==> !spec_keyword_matches(self.spec_keywords(), clean@, j),
            decreases self.keywords@.len() - i,
        {
            let keyword_lower = to_lowercase_str(self.keywords[i].as_str());
            if contains_substring(clean.as_str(), keyword_lower.as_str()) {
                proof {
                    assert(spec_keyword_matches(self.spec_keywords(), clean@, i as int));
                }
                return Some(
                    KeywordDetection {
                        keyword: self.keywords[i].clone(),
                        transcription: clean.clone(),
                        confidence: 900,
                        timestamp,
                    },
                );
            }
            i += 1;
        }
        None
    }
}

// ------------------------------------------------------------------
// The voice-activity segmenter.
// ------------------------------------------------------------------

/// What the worker does with an arriving mono block: keep accumulating,
/// discard an all-silent buffer without transcribing, or hand the
/// accumulated segment to the transcription engine.
pub enum SegmentAction {
    Accumulate,
    DiscardSilence,
    Transcribe(Vec<i16>),
}

/// The trailing window of a block that the per-block silence check reads.
pub open spec fn spec_tail(block: Seq<i16>) -> Seq<i16> {
    if block.len() > SILENCE_CHECK_TAIL {
        block.subrange(block.len() - SILENCE_CHECK_TAIL, block.len() as int)
    } else {
        block
    }
}

/// The consecutive-silent-samples counter after a block arrives: it grows
/// by the block length while the block's tail is silent and resets to
/// zero on any non-silent block.
pub open spec fn spec_silence_count_after(prev_count: int, block: Seq<i16>) -> int {
    if spec_is_silence(spec_tail(block), SILENCE_THRESHOLD as int) {
        prev_count + block.len()
    } else {
        0
    }
}

/// Whether this block ends the accumulation phase: either the silence
/// hold fired on a non-empty buffer (speech has ended), or the buffer
/// reached the minimum transcription length.
pub open spec fn spec_attempts(buffer: Seq<i16>, prev_count: int, block: Seq<i16>) -> bool {
    let combined = buffer + block;
    let count = spec_silence_count_after(prev_count, block);
    ||| (count >= SILENCE_HOLD && combined.len() > 0)
    ||| combined.len() >= MIN_BUFFER_SAMPLES
}

/// The accumulated buffer is discarded: the segment ended but the whole
/// buffer is silence, so no transcription is spent on it.
pub open spec fn spec_discards(buffer: Seq<i16>, prev_count: int, block: Seq<i16>) -> bool {
    spec_attempts(buffer, prev_count, block) && spec_is_silence(
        buffer + block,
        SILENCE_THRESHOLD as int,
    )
}

/// The accumulated buffer is handed to transcription: the segment ended
/// and the buffer is not silence throughout.
pub open spec fn spec_transcribes(buffer: Seq<i16>, prev_count: int, block: Seq<i16>) -> bool {
    spec_attempts(buffer, prev_count, block) && !spec_is_silence(
        buffer + block,
        SILENCE_THRESHOLD as int,
    )
}

/// Law: a buffer that is silence throughout is never handed to
/// transcription, whatever the counter state.
pub proof fn lemma_silent_buffer_not_transcribed(
    buffer: Seq<i16>,
    prev_count: int,
    block: Seq<i16>,
)
    requires
        spec_is_silence(buffer + block, SILENCE_THRESHOLD as int),
    ensures
        !spec_transcribes(buffer, prev_count, block),
{
}

/// Law: once at least the minimum duration of audio has accumulated and
/// the buffer is not silence throughout, the arriving block triggers a
/// transcription attempt.
pub proof fn lemma_loud_long_buffer_transcribed(
    buffer: Seq<i16>,
    prev_count: int,
    block: Seq<i16>,
)
    requires
        (buffer + block).len() >= MIN_BUFFER_SAMPLES,
        !spec_is_silence(buffer + block, SILENCE_THRESHOLD as int),
    ensures
        spec_transcribes(buffer, prev_count, block),
{
}

/// The segmenter state owned by the worker thread: the voice buffer and
/// the consecutive-silent-samples counter.
pub struct Segmenter {
    buffer: Vec<i16>,
    silence_samples: usize,
}

impl Segmenter {
    /// The accumulated, not yet transcribed samples.
    pub closed spec fn spec_buffer(&self) -> Seq<i16> {
        self.buffer@
    }

    /// The consecutive-silent-samples counter.
    pub closed spec fn spec_silence_samples(&self) -> int {
        self.silence_samples as int
    }

    /// A fresh segmenter: empty buffer, zero counter.
    pub fn new() -> (seg: Segmenter)
        ensures
            seg.spec_buffer() == Seq::<i16>::empty(),
            seg.spec_silence_samples() == 0,
    {
        let seg = Segmenter { buffer: Vec::new(), silence_samples: 0 };
        proof {
            assert(seg.spec_buffer() =~= Seq::<i16>::empty());
        }
        seg
    }

    /// Take in one mono block and decide what to do, mirroring the worker
    /// loop body: extend the buffer, update the silence counter from the
    /// block's tail, and either keep accumulating, discard an all-silent
    /// buffer, or hand the whole buffer out for transcription. After a
    /// transcription hand-off or a discard the buffer is cleared and the
    /// counter reset; a silence-ended buffer below the minimum length is
    /// still handed out (it is not retried).
    pub fn ingest(&mut self, block: &Vec<i16>) -> (action: SegmentAction)
        requires
            old(self).spec_buffer().len() + block@.len() <= 0x1000_0000,
            old(self).spec_silence_samples() + block@.len() <= 0x1000_0000,
        ensures
            action is Transcribe <==> spec_transcribes(
                old(self).spec_buffer(),
                old(self).spec_silence_samples(),
                block@,
            ),
            action is DiscardSilence <==> spec_discards(
                old(self).spec_buffer(),
                old(self).spec_silence_samples(),
                block@,
            ),
            action is Accumulate <==> !spec_attempts(
                old(self).spec_buffer(),
                old(self).spec_silence_samples(),
                block@,
            ),
            action matches SegmentAction::Transcribe(seg) ==> seg@ == old(self).spec_buffer()
                + block@,
            spec_attempts(old(self).spec_buffer(), old(self).spec_silence_samples(), block@)
                ==> final(self).spec_buffer().len() == 0 && final(self).spec_silence_samples()
                == 0,
            !spec_attempts(old(self).spec_buffer(), old(self).spec_silence_samples(), block@)
                ==> (final(self).spec_buffer() == old(self).spec_buffer() + block@
                && final(self).spec_silence_samples() == spec_silence_count_after(
                    old(self).spec_silence_samples(),
                    block@,
                )),
            final(self).spec_buffer().len() < MIN_BUFFER_SAMPLES,
            block@.len() > 0 ==> final(self).spec_silence_samples() < SILENCE_HOLD,
    {
        let mut k: usize = 0;
        while k < block.len()
            invariant
                k <= block@.len(),
                self.buffer@ == old(self).spec_buffer() + block@.subrange(0, k as int),
                self.silence_samples == old(self).silence_samples,
                old(self).spec_buffer().len() + block@.len() <= 0x1000_0000,
            decreases block@.len() - k,
        {
            self.buffer.push(block[k]);
            proof {
                assert(self.buffer@ =~= old(self).spec_buffer() + block@.subrange(
                    0,
                    k as int + 1,
                ));
            }
            k += 1;
        }
        proof {
            assert(block@.subrange(0, block@.len() as int) =~= block@);
        }
        let tail_silent = if block.len() > SILENCE_CHECK_TAIL {
            let tail = vstd::slice::slice_subrange(
                block.as_slice(),
                block.len() - SILENCE_CHECK_TAIL,
                block.len(),
            );
            WhisperKeywordSpotter::is_silence(tail, SILENCE_THRESHOLD)
        } else {
            WhisperKeywordSpotter::is_silence(block.as_slice(), SILENCE_THRESHOLD)
        };
        if tail_silent {
            self.silence_samples = self.silence_samples + block.len();
        } else {
            self.silence_samples = 0;
        }
        let hold_fired = self.silence_samples >= SILENCE_HOLD && self.buffer.len() > 0;
        if hold_fired {
            self.silence_samples = 0;
        } else if self.buffer.len() < MIN_BUFFER_SAMPLES {
            return SegmentAction::Accumulate;
        }
        let whole_silent = WhisperKeywordSpotter::is_silence(
            self.buffer.as_slice(),
            SILENCE_THRESHOLD,
        );
        self.silence_samples = 0;
        if whole_silent {
            self.buffer = Vec::new();
            proof {
                assert(self.buffer@ =~= Seq::<i16>::empty());
            }
            return SegmentAction::DiscardSilence;
        }
        let mut segment: Vec<i16> = Vec::new();
        core::mem::swap(&mut segment, &mut self.buffer);
        proof {
            assert(self.buffer@ =~= Seq::<i16>::empty());
        }
        SegmentAction::Transcribe(segment)
    }
}

} // verus!
