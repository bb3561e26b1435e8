use voice_pipeline::runtime::get_runtime;
use voice_pipeline::runtime::Runtime;
use voice_pipeline::whisper::contains_substring;
use voice_pipeline::whisper::Segmenter;
use voice_pipeline::whisper::SegmentAction;
use voice_pipeline::whisper::WhisperKeywordSpotter;
use voice_pipeline::whisper::MIN_BUFFER_SAMPLES;
use voice_pipeline::whisper::SILENCE_THRESHOLD;

fn loud_block(len: usize) -> Vec<i16> {
    (0..len)
        .map(|i| {
            let t = i as f64 / 16000.0;
            ((2.0 * std::f64::consts::PI * 440.0 * t).sin() * 10000.0) as i16
        })
        .collect()
}

#[test]
fn is_silence_classifies() {
    assert!(WhisperKeywordSpotter::is_silence(&[], SILENCE_THRESHOLD));
    assert!(WhisperKeywordSpotter::is_silence(&[0; 512], SILENCE_THRESHOLD));
    assert!(WhisperKeywordSpotter::is_silence(&[100; 512], SILENCE_THRESHOLD));
    assert!(!WhisperKeywordSpotter::is_silence(&[1000; 512], SILENCE_THRESHOLD));
    assert!(!WhisperKeywordSpotter::is_silence(&loud_block(512), SILENCE_THRESHOLD));
}

#[test]
fn silent_input_never_triggers_transcription() {
    // Feeding nothing but silence: the worker discards buffers, it never
    // hands one to the transcription engine.
    let mut seg = Segmenter::new();
    for _ in 0..20 {
        let action = seg.ingest(&vec![0i16; 16000]);
        assert!(!matches!(action, SegmentAction::Transcribe(_)));
    }
}

#[test]
fn loud_tone_triggers_transcription() {
    // A loud tone longer than the minimum buffer duration triggers at
    // least one transcription hand-off, carrying the whole buffer.
    let mut seg = Segmenter::new();
    let block = loud_block(16000);
    let mut transcribed = false;
    let mut fed: usize = 0;
    for _ in 0..4 {
        fed += block.len();
        match seg.ingest(&block) {
            SegmentAction::Transcribe(buffer) => {
                assert_eq!(buffer.len(), fed);
                transcribed = true;
                break;
            }
            SegmentAction::Accumulate => {
                assert!(fed < MIN_BUFFER_SAMPLES);
            }
            SegmentAction::DiscardSilence => panic!("loud audio discarded as silence"),
        }
    }
    assert!(transcribed);
}

#[test]
fn silence_hold_ends_a_short_segment() {
    // A short burst of speech followed by enough silence: the hold fires
    // before the minimum length is reached and the buffer is handed off
    // (not retried), per the documented policy for short segments.
    let mut seg = Segmenter::new();
    match seg.ingest(&loud_block(4000)) {
        SegmentAction::Accumulate => {}
        _ => panic!("short loud block should accumulate"),
    }
    match seg.ingest(&vec![0i16; 8192]) {
        SegmentAction::Transcribe(buffer) => assert_eq!(buffer.len(), 4000 + 8192),
        _ => panic!("silence hold should end the segment"),
    }
}

#[test]
fn detect_is_case_insensitive_substring() {
    let spotter = WhisperKeywordSpotter::new(vec!["quick".to_string()]);
    let detection = spotter.detect("THE QUICK fox", 7).expect("keyword should match");
    assert_eq!(detection.keyword, "quick");
    assert_eq!(detection.transcription, "the quick fox");
    assert_eq!(detection.confidence, 900);
    assert_eq!(detection.timestamp, 7);
}

#[test]
fn detect_matches_inside_words() {
    // Substring semantics: exact-word matching is out of scope.
    let spotter = WhisperKeywordSpotter::new(vec!["quick".to_string()]);
    let detection = spotter.detect("quickening", 0).expect("substring should match");
    assert_eq!(detection.keyword, "quick");
}

#[test]
fn detect_misses_absent_keyword() {
    let spotter = WhisperKeywordSpotter::new(vec!["quick".to_string()]);
    assert!(spotter.detect("the slow brown fox", 0).is_none());
    assert!(spotter.detect("", 0).is_none());
    assert!(spotter.detect("   ", 0).is_none());
}

#[test]
fn detect_trims_transcript() {
    // The published transcription is the trimmed, lower-cased transcript;
    // this fails if trimming or lower-casing handed the input through.
    let spotter = WhisperKeywordSpotter::new(vec!["Hello".to_string()]);
    let detection = spotter.detect("  HELLO there \n", 0).expect("should match");
    assert_eq!(detection.transcription, "hello there");
    assert_eq!(detection.keyword, "Hello");
}

#[test]
fn detect_prefers_first_registered_keyword() {
    let spotter =
        WhisperKeywordSpotter::new(vec!["brown".to_string(), "quick".to_string()]);
    let detection = spotter.detect("the quick brown fox", 0).expect("should match");
    assert_eq!(detection.keyword, "brown");
}

#[test]
fn substring_search_edges() {
    assert!(contains_substring("abc", ""));
    assert!(contains_substring("abc", "abc"));
    assert!(contains_substring("abc", "bc"));
    assert!(!contains_substring("abc", "abcd"));
    assert!(!contains_substring("", "a"));
    assert!(contains_substring("", ""));
    assert!(!contains_substring("aBc", "b"));
}

#[test]
fn runtime_flag_lifecycle() {
    // A freshly initialized runtime runs: a worker started under it does
    // not exit immediately; after the one-shot teardown it stops.
    let mut runtime: Runtime = get_runtime();
    assert!(runtime.running());
    let singleton = Runtime::singleton();
    assert!(singleton.running());
    runtime.free();
    assert!(!runtime.running());
}

#[test]
fn immediately_cancelled_worker_sees_stop() {
    // The inverse startup: teardown before the worker's first iteration.
    let mut runtime = get_runtime();
    runtime.free();
    let mut iterations = 0;
    while runtime.running() {
        iterations += 1;
        break;
    }
    assert_eq!(iterations, 0);
}
