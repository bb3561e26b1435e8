use voice_pipeline::microphone::downmix_mono;
use voice_pipeline::microphone::find_device_index;
use voice_pipeline::microphone::process_capture_block;
use voice_pipeline::microphone::resample_linear;
use voice_pipeline::microphone::resample_linear_stereo;
use voice_pipeline::microphone::CaptureAccumulator;
use voice_pipeline::microphone::OPUS_FRAME_SIZE;

fn mono_sine(len: usize, sample_rate: u32, freq: f64) -> Vec<i16> {
    (0..len)
        .map(|i| {
            let t = i as f64 / sample_rate as f64;
            ((2.0 * std::f64::consts::PI * freq * t).sin() * 0.4 * 32767.0) as i16
        })
        .collect()
}

fn interleave_stereo(mono: &[i16]) -> Vec<i16> {
    let mut out = Vec::with_capacity(mono.len() * 2);
    for &s in mono {
        out.push(s);
        out.push(s);
    }
    out
}

/// RMS error between two equally long mono signals, in 16-bit units.
fn rms_error(a: &[i16], b: &[i16]) -> f64 {
    assert_eq!(a.len(), b.len());
    let mut acc = 0.0f64;
    for i in 0..a.len() {
        let d = a[i] as f64 - b[i] as f64;
        acc += d * d;
    }
    (acc / a.len() as f64).sqrt()
}

#[test]
fn resample_same_rate_is_identity() {
    // Bit-for-bit passthrough at equal rates, mono and stereo.
    let mono = mono_sine(1000, 48000, 440.0);
    assert_eq!(resample_linear(&mono, 48000, 48000), mono);
    let stereo = interleave_stereo(&mono);
    assert_eq!(resample_linear_stereo(&stereo, 48000, 48000), stereo);
}

#[test]
fn resample_linear_exact_values() {
    // Doubling the rate of [0, 100]: positions 0, 0.5, 1, 1.5 give the
    // two inputs, their midpoint, and the clamped last sample.
    let samples = vec![0i16, 100];
    let out = resample_linear(&samples, 8000, 16000);
    assert_eq!(out, vec![0, 50, 100, 100]);
}

#[test]
fn resample_rounds_output_length() {
    // One sample from 16 kHz to 24 kHz: round(1 * 24/16) = 2 output
    // samples, both carried from the single input.
    let samples = vec![123i16];
    let out = resample_linear(&samples, 16000, 24000);
    assert_eq!(out, vec![123, 123]);
}

#[test]
fn resample_linear_halves_length() {
    let mono = mono_sine(1600, 16000, 200.0);
    let out = resample_linear(&mono, 16000, 8000);
    assert_eq!(out.len(), 800);
}

#[test]
fn resample_stereo_length_rounds() {
    // 441 input frames from 44.1 kHz to 48 kHz: round(441 * 48/44.1) = 480.
    let stereo = interleave_stereo(&mono_sine(441, 44100, 300.0));
    let out = resample_linear_stereo(&stereo, 44100, 48000);
    assert_eq!(out.len(), 480 * 2);
}

#[test]
fn resample_round_trip_error_grows_with_ratio() {
    // A -> B -> A converges toward the original: the error is small for a
    // mild ratio and grows as the ratio departs from 1; the comparison
    // skips the clamped tail.
    let original = mono_sine(4800, 48000, 440.0);

    let mild_down = resample_linear(&original, 48000, 32000);
    let mild_back = resample_linear(&mild_down, 32000, 48000);
    let steep_down = resample_linear(&original, 48000, 8000);
    let steep_back = resample_linear(&steep_down, 8000, 48000);

    let n = 4000;
    let mild_err = rms_error(&original[..n], &mild_back[..n]);
    let steep_err = rms_error(&original[..n], &steep_back[..n]);
    println!("mild = {:.1}, steep = {:.1}", mild_err, steep_err);

    // Bounded error for the mild ratio (under ~1.5 % of full scale), and
    // monotone growth toward the steeper ratio.
    assert!(mild_err < 500.0);
    assert!(steep_err > mild_err);
}

#[test]
fn downmix_mono_exact_means() {
    let samples = vec![-100i16, 300, 1000, 2000, -3, -4];
    let out = downmix_mono(&samples, 2);
    // Floor division over the shifted range: (-3 + -4) / 2 rounds down.
    assert_eq!(out, vec![100, 1500, -4]);
}

#[test]
fn downmix_single_channel_is_identity() {
    let samples = vec![5i16, -7, 0, 32767, -32768];
    assert_eq!(downmix_mono(&samples, 1), samples);
}

#[test]
fn accumulator_drains_whole_frames() {
    let mut acc = CaptureAccumulator::new(960);
    let first: Vec<i16> = (0..500).map(|i| i as i16).collect();
    let frames = acc.push_samples(&first);
    assert_eq!(frames.len(), 0);
    let second: Vec<i16> = (500..2000).map(|i| i as i16).collect();
    let frames = acc.push_samples(&second);
    assert_eq!(frames.len(), 2);
    assert_eq!(frames[0].len(), 960);
    assert_eq!(frames[1].len(), 960);
    // Frames carry the combined stream in order.
    assert_eq!(frames[0][0], 0);
    assert_eq!(frames[0][959], 959);
    assert_eq!(frames[1][0], 960);
    // 2000 - 1920 = 80 samples retained; the next 880 complete a frame.
    let third: Vec<i16> = (0..880).map(|_| 7i16).collect();
    let frames = acc.push_samples(&third);
    assert_eq!(frames.len(), 1);
    assert_eq!(frames[0][0], 1920);
    assert_eq!(frames[0][79], 1999);
    assert_eq!(frames[0][80], 7);
}

#[test]
fn capture_block_produces_frames_and_mono() {
    // One capture step at a 48 kHz stereo device: 960 input frames fill
    // exactly two 480-frame codec frames, and the mono path comes out at
    // a third of the length (48 kHz -> 16 kHz).
    let channels = 2usize;
    let mut acc = CaptureAccumulator::new(OPUS_FRAME_SIZE * channels);
    let data = interleave_stereo(&mono_sine(960, 48000, 440.0));
    let (frames, mono) = process_capture_block(&mut acc, &data, channels, 48000);
    assert_eq!(frames.len(), 2);
    assert!(frames.iter().all(|f| f.len() == OPUS_FRAME_SIZE * channels));
    assert_eq!(mono.len(), 960 / 3);
}

#[test]
fn capture_block_accumulates_across_calls() {
    let channels = 2usize;
    let mut acc = CaptureAccumulator::new(OPUS_FRAME_SIZE * channels);
    // 200 frames at 24 kHz resample to round(200 * 2 + 0.5) = 400 frames,
    // 800 samples: less than one 960-sample codec frame.
    let data = interleave_stereo(&mono_sine(200, 24000, 440.0));
    let (frames, _mono) = process_capture_block(&mut acc, &data, channels, 24000);
    assert_eq!(frames.len(), 0);
    let (frames, _mono) = process_capture_block(&mut acc, &data, channels, 24000);
    assert_eq!(frames.len(), 1);
}

#[test]
fn device_index_finds_first_match() {
    let names = vec![
        "default".to_string(),
        "usb mic".to_string(),
        "usb mic".to_string(),
    ];
    assert_eq!(find_device_index(&names, &"usb mic".to_string()), Some(1));
    assert_eq!(find_device_index(&names, &"default".to_string()), Some(0));
    assert_eq!(find_device_index(&names, &"other".to_string()), None);
}
