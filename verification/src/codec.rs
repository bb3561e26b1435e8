//! Lossy-codec packet framing: encoding fixed-size interleaved stereo frames
//! into discrete opus packets or into a single length-prefixed byte stream,
//! and decoding the inverse, substituting silence for any frame that cannot
//! be decoded so that stream timing is preserved.
//!
//! Samples are interleaved 16-bit PCM; the embedding application converts
//! from and to its device sample format at the boundary.

use vstd::prelude::*;

verus! {

/// Errors of the codec layer (see the error taxonomy of the crate):
/// `InvalidAudioParameters` for a bad rate / frame-size / channel
/// combination, `CodecError` for a failure inside the codec itself.
#[derive(Debug, Clone, Copy, PartialEq, Eq, Structural)]
pub enum AudioError {
    InvalidAudioParameters,
    CodecError,
}

/// The five sample rates the codec supports.
pub open spec fn spec_supported_rate(sample_rate: u32) -> bool {
    ||| sample_rate == 8000
    ||| sample_rate == 12000
    ||| sample_rate == 16000
    ||| sample_rate == 24000
    ||| sample_rate == 48000
}

/// The legal frame sizes (frames per channel) for a sample rate: the frame
/// durations 2.5 / 5 / 10 / 20 / 40 / 60 ms expressed in samples.
pub open spec fn spec_frame_sizes(sample_rate: u32) -> Seq<usize> {
    if sample_rate == 48000 {
        seq![120usize, 240usize, 480usize, 960usize, 1920usize, 2880usize]
    } else if sample_rate == 24000 {
        seq![60usize, 120usize, 240usize, 480usize, 960usize, 1440usize]
    } else if sample_rate == 16000 {
        seq![40usize, 80usize, 160usize, 320usize, 640usize, 960usize]
    } else if sample_rate == 12000 {
        seq![30usize, 60usize, 120usize, 240usize, 480usize, 720usize]
    } else if sample_rate == 8000 {
        seq![20usize, 40usize, 80usize, 160usize, 320usize, 480usize]
    } else {
        Seq::empty()
    }
}

/// A frame size is valid for a rate when it is in that rate's legal set.
pub open spec fn spec_valid_frame_size(sample_rate: u32, frame_size: usize) -> bool {
    spec_frame_sizes(sample_rate).contains(frame_size)
}

/// What `validate_input` accepts: a supported rate, a legal frame size for
/// it, and an interleaved-stereo length (a multiple of two).
pub open spec fn spec_valid_input(len: int, sample_rate: u32, frame_size: usize) -> bool {
    &&& spec_supported_rate(sample_rate)
    &&& spec_valid_frame_size(sample_rate, frame_size)
    &&& len % 2 == 0
}

/// Allowed frame sizes for each sample rate; empty for an unsupported rate.
pub fn get_valid_frame_sizes(sample_rate: u32) -> (sizes: Vec<usize>)
    ensures
        sizes@ == spec_frame_sizes(sample_rate),
{
    let mut sizes: Vec<usize> = Vec::new();
    if sample_rate == 48000 {
        sizes.push(120);
        sizes.push(240);
        sizes.push(480);
        sizes.push(960);
        sizes.push(1920);
        sizes.push(2880);
    } else if sample_rate == 24000 {
        sizes.push(60);
        sizes.push(120);
        sizes.push(240);
        sizes.push(480);
        sizes.push(960);
        sizes.push(1440);
    } else if sample_rate == 16000 {
        sizes.push(40);
        sizes.push(80);
        sizes.push(160);
        sizes.push(320);
        sizes.push(640);
        sizes.push(960);
    } else if sample_rate == 12000 {
        sizes.push(30);
        sizes.push(60);
        sizes.push(120);
        sizes.push(240);
        sizes.push(480);
        sizes.push(720);
    } else if sample_rate == 8000 {
        sizes.push(20);
        sizes.push(40);
        sizes.push(80);
        sizes.push(160);
        sizes.push(320);
        sizes.push(480);
    }
    proof {
        assert(sizes@ =~= spec_frame_sizes(sample_rate));
    }
    sizes
}

/// Validate a stereo buffer, sample rate and frame size before encoding:
/// accepts exactly the inputs of `spec_valid_input`.
pub fn validate_input(stereo: &Vec<i16>, sample_rate: u32, frame_size: usize) -> (r: Result<
    (),
    AudioError,
>)
    ensures
        r is Ok <==> spec_valid_input(stereo@.len() as int, sample_rate, frame_size),
        r matches Err(e) ==> e == AudioError::InvalidAudioParameters,
{
    if !(sample_rate == 8000 || sample_rate == 12000 || sample_rate == 16000 || sample_rate
        == 24000 || sample_rate == 48000) {
        return Err(AudioError::InvalidAudioParameters);
    }
    let sizes = get_valid_frame_sizes(sample_rate);
    let mut found = false;
    let mut i: usize = 0;
    while i < sizes.len()
        invariant
            i <= sizes@.len(),
            found <==> exists|j: int| 0 <= j < i && sizes@[j] == frame_size,
        decreases sizes@.len() - i,
    {
        if sizes[i] == frame_size {
            found = true;
        }
        i += 1;
    }
    if !found {
        return Err(AudioError::InvalidAudioParameters);
    }
    if stereo.len() % 2 != 0 {
        return Err(AudioError::InvalidAudioParameters);
    }
    Ok(())
}

/// Every legal frame size lies between 2.5 ms at 8 kHz and 60 ms at 48 kHz.
pub proof fn lemma_frame_size_bounds(sample_rate: u32, frame_size: usize)
    requires
        spec_valid_frame_size(sample_rate, frame_size),
    ensures
        20 <= frame_size <= 2880,
{
    let sizes = spec_frame_sizes(sample_rate);
    let j = choose|j: int| 0 <= j < sizes.len() && sizes[j] == frame_size;
    assert(sizes[j] == frame_size);
}

// ------------------------------------------------------------------
// The length-prefixed wire format: a concatenation of
// (u16 little-endian length, packet bytes) tuples.
// ------------------------------------------------------------------

/// The largest encoded packet this crate ever asks the codec for.
pub const MAX_PACKET_BYTES: usize = 4000;

/// The two-byte little-endian length prefix of a packet of `n` bytes.
pub open spec fn spec_len_prefix(n: int) -> Seq<u8> {
    seq![(n % 256) as u8, ((n / 256) % 256) as u8]
}

/// The wire form of a packet sequence: each packet preceded by its length.
pub open spec fn spec_frame_stream(packets: Seq<Seq<u8>>) -> Seq<u8>
    decreases packets.len(),
{
    if packets.len() == 0 {
        Seq::empty()
    } else {
        spec_len_prefix(packets[0].len() as int) + packets[0] + spec_frame_stream(
            packets.drop_first(),
        )
    }
}

/// Re-splitting a wire stream into packets; a truncated trailing tuple
/// (fewer bytes than its declared length) is discarded.
pub open spec fn spec_parse_framed(bytes: Seq<u8>) -> Seq<Seq<u8>>
    decreases bytes.len(),
{
    if bytes.len() < 2 {
        Seq::empty()
    } else {
        let plen = bytes[0] + 256 * bytes[1];
        if 2 + plen > bytes.len() {
            Seq::empty()
        } else {
            seq![bytes.subrange(2, 2 + plen)] + spec_parse_framed(
                bytes.subrange(2 + plen, bytes.len() as int),
            )
        }
    }
}

/// Appending one packet to a stream appends its prefixed tuple.
pub proof fn lemma_frame_stream_push(packets: Seq<Seq<u8>>, p: Seq<u8>)
    ensures
        spec_frame_stream(packets.push(p)) == spec_frame_stream(packets) + spec_len_prefix(
            p.len() as int,
        ) + p,
    decreases packets.len(),
{
    reveal_with_fuel(spec_frame_stream, 3);
    if packets.len() == 0 {
        assert(packets.push(p).drop_first() =~= Seq::<Seq<u8>>::empty());
        assert(packets.push(p)[0] == p);
        assert(spec_frame_stream(packets.push(p)) =~= spec_frame_stream(packets) + spec_len_prefix(
            p.len() as int,
        ) + p);
    } else {
        let pp = packets.push(p);
        assert(pp[0] == packets[0]);
        assert(pp.drop_first() =~= packets.drop_first().push(p));
        lemma_frame_stream_push(packets.drop_first(), p);
        assert(spec_frame_stream(pp) == spec_len_prefix(pp[0].len() as int) + pp[0]
            + spec_frame_stream(pp.drop_first()));
        assert(spec_frame_stream(pp.drop_first()) == spec_frame_stream(packets.drop_first())
            + spec_len_prefix(p.len() as int) + p);
        assert(spec_frame_stream(pp) =~= spec_frame_stream(packets) + spec_len_prefix(
            p.len() as int,
        ) + p);
    }
}

/// Law: framing then re-splitting gives back exactly the packets, as long
/// as every packet fits its 16-bit length prefix.
pub proof fn lemma_frame_parse_round_trip(packets: Seq<Seq<u8>>)
    requires
        forall|i: int| 0 <= i < packets.len() ==> (#[trigger] packets[i]).len() <= 65535,
    ensures
        spec_parse_framed(spec_frame_stream(packets)) == packets,
    decreases packets.len(),
{
    if packets.len() == 0 {
        assert(spec_parse_framed(spec_frame_stream(packets)) =~= packets);
    } else {
        let p0 = packets[0];
        let l = p0.len() as int;
        let s = spec_frame_stream(packets);
        let rest = spec_frame_stream(packets.drop_first());
        assert(s == spec_len_prefix(l) + p0 + rest);
        assert(s.len() == 2 + l + rest.len());
        assert(s[0] == (l % 256) as u8);
        assert(s[1] == ((l / 256) % 256) as u8);
        assert(l / 256 < 256) by {
            vstd::arithmetic::div_mod::lemma_div_is_ordered(l, 65535, 256);
        }
        vstd::arithmetic::div_mod::lemma_fundamental_div_mod(l, 256);
        vstd::arithmetic::div_mod::lemma_small_mod((l / 256) as nat, 256);
        assert(s[0] + 256 * s[1] == l);
        assert(s.subrange(2, 2 + l) =~= p0);
        assert(s.subrange(2 + l, s.len() as int) =~= rest);
        assert(forall|i: int|
            0 <= i < packets.drop_first().len() ==> (#[trigger] packets.drop_first()[i]).len()
                <= 65535);
        lemma_frame_parse_round_trip(packets.drop_first());
        assert(spec_parse_framed(s) =~= packets);
    }
}

// ------------------------------------------------------------------
// Trusted boundary: the opus2 codec.
// ------------------------------------------------------------------

#[verifier::external_type_specification]
#[verifier::external_body]
pub struct ExOpusEncoder(opus2::Encoder);

#[verifier::external_type_specification]
#[verifier::external_body]
pub struct ExOpusDecoder(opus2::Decoder);

#[verifier::external_type_specification]
#[verifier::external_body]
pub struct ExOpusError(opus2::Error);

/// Relies on opus2::Encoder::new, which constructs an encoder for the
/// given rate, channel layout and application hint. Its source rejects
/// exactly the rates outside the supported set (and channel counts other
/// than one or two); for a supported rate the whole construction chain —
/// static mode lookup, CELT encoder allocation, SILK encoder init, which
/// always succeeds — is infallible, so success is promised there.
#[verifier::external_body]
fn opus_encoder_new(sample_rate: u32, stereo: bool, voice: bool) -> (r: Result<
    opus2::Encoder,
    opus2::Error,
>)
    ensures
        spec_supported_rate(sample_rate) ==> r is Ok,
{
    opus2::Encoder::new(
        sample_rate,
        if stereo {
            opus2::Channels::Stereo
        } else {
            opus2::Channels::Mono
        },
        if voice {
            opus2::Application::Voip
        } else {
            opus2::Application::Audio
        },
    )
}

/// Relies on opus2::Decoder::new, which constructs a decoder for the
/// given rate and channel layout. Its source rejects exactly the rates
/// outside the supported set (and channel counts other than one or two);
/// for a supported rate the whole construction chain is infallible, so
/// success is promised there.
#[verifier::external_body]
pub(crate) fn opus_decoder_new(sample_rate: u32, stereo: bool) -> (r: Result<
    opus2::Decoder,
    opus2::Error,
>)
    ensures
        spec_supported_rate(sample_rate) ==> r is Ok,
{
    opus2::Decoder::new(
        sample_rate,
        if stereo {
            opus2::Channels::Stereo
        } else {
            opus2::Channels::Mono
        },
    )
}

/// Relies on opus2::Encoder::set_bitrate, which configures the target
/// bitrate in bits per second; its source rejects only non-positive
/// rates, so any positive bitrate is accepted.
#[verifier::external_body]
fn opus_encoder_set_bitrate(encoder: &mut opus2::Encoder, bits: i32) -> (r: Result<
    (),
    opus2::Error,
>)
    ensures
        bits > 0 ==> r is Ok,
{
    encoder.set_bitrate(opus2::Bitrate::Bits(bits))
}

/// Relies on opus2::Encoder::set_bandwidth, which configures the maximum
/// audio bandwidth; `fullband` selects the full 20 kHz band, otherwise
/// the encoder keeps its default. Its source accepts both of the values
/// passed here, so the call always succeeds.
#[verifier::external_body]
fn opus_encoder_set_bandwidth(encoder: &mut opus2::Encoder, fullband: bool) -> (r: Result<
    (),
    opus2::Error,
>)
    ensures
        r is Ok,
{
    encoder.set_bandwidth(
        if fullband {
            opus2::Bandwidth::Fullband
        } else {
            opus2::Bandwidth::Auto
        },
    )
}

/// Relies on opus2::Encoder::set_signal, which hints the encoder at the
/// kind of signal: voice or music. Its source accepts both hints, so the
/// call always succeeds.
#[verifier::external_body]
fn opus_encoder_set_signal(encoder: &mut opus2::Encoder, voice: bool) -> (r: Result<
    (),
    opus2::Error,
>)
    ensures
        r is Ok,
{
    encoder.set_signal(
        if voice {
            opus2::Signal::Voice
        } else {
            opus2::Signal::Music
        },
    )
}

/// Relies on opus2::Encoder::encode_vec, which encodes one frame into a
/// fresh buffer truncated to the encoded length, which is at most
/// `max_size`; its inputs must fit the codec's 32-bit length counters.
#[verifier::external_body]
fn opus_encode_frame(encoder: &mut opus2::Encoder, frame: &Vec<i16>, max_size: usize) -> (r:
    Result<Vec<u8>, opus2::Error>)
    requires
        frame@.len() <= 0x7fffffff,
        max_size <= 0x7fffffff,
    ensures
        r matches Ok(bytes) ==> bytes@.len() <= max_size,
{
    encoder.encode_vec(frame.as_slice(), max_size)
}

/// Relies on opus2::Decoder::decode, which decodes one packet into the
/// prefix of `pcm` and returns the per-channel sample count; it never
/// changes the buffer's length and never reports more samples than fit.
#[verifier::external_body]
fn opus_decode_packet(
    decoder: &mut opus2::Decoder,
    packet: &Vec<u8>,
    pcm: &mut Vec<i16>,
    fec: bool,
) -> (r: Result<usize, opus2::Error>)
    requires
        old(pcm)@.len() <= 0x7fffffff,
        packet@.len() <= 0x7fffffff,
    ensures
        final(pcm)@.len() == old(pcm)@.len(),
        r matches Ok(n) ==> n <= old(pcm)@.len(),
{
    decoder.decode(packet.as_slice(), pcm.as_mut_slice(), fec)
}

/// The frame one packet contributes to the decoded stream, from the
/// outcome of its decode: the decoder's own buffer when the packet
/// decoded, and exactly one frame of digital silence when it did not —
/// either way a full frame, so stream timing is preserved.
pub fn recovered_frame(decoded: bool, pcm: Vec<i16>, samples_per_frame: usize) -> (frame: Vec<
    i16,
>)
    requires
        pcm@.len() == samples_per_frame,
    ensures
        frame@.len() == samples_per_frame,
        decoded ==> frame@ == pcm@,
        !decoded ==> frame@ == Seq::new(samples_per_frame as nat, |i: int| 0i16),
{
    if decoded {
        pcm
    } else {
        let silence: Vec<i16> = vec![0i16; samples_per_frame];
        proof {
            assert(silence@ =~= Seq::new(samples_per_frame as nat, |i: int| 0i16));
        }
        silence
    }
}

// ------------------------------------------------------------------
// Encoding and decoding.
// ------------------------------------------------------------------

/// Encode an interleaved stereo buffer into individual opus packets, one
/// per full frame of `frame_size * 2` samples; a trailing partial frame is
/// dropped, never padded. This is the relay path, so the encoder carries
/// the music signal hint. Construction and configuration of the encoder
/// cannot fail on valid parameters, so on valid input only the per-frame
/// codec call itself can still report a codec error; with no full frame to
/// encode, success is guaranteed.
pub fn encode_stereo_to_opus_packets(
    stereo: &Vec<i16>,
    sample_rate: u32,
    frame_size: usize,
) -> (r: Result<Vec<Vec<u8>>, AudioError>)
    ensures
        r == Err::<Vec<Vec<u8>>, AudioError>(AudioError::InvalidAudioParameters)
            <==> !spec_valid_input(stereo@.len() as int, sample_rate, frame_size),
        spec_valid_input(stereo@.len() as int, sample_rate, frame_size) && stereo@.len() < 2
            * frame_size ==> r is Ok,
        r matches Ok(packets) ==> {
            &&& packets@.len() == stereo@.len() as int / (2 * frame_size as int)
            &&& forall|i: int|
                0 <= i < packets@.len() ==> (#[trigger] packets@[i])@.len() <= MAX_PACKET_BYTES
        },
{
    if let Err(e) = validate_input(stereo, sample_rate, frame_size) {
        return Err(e);
    }
    proof {
        lemma_frame_size_bounds(sample_rate, frame_size);
    }
    let mut encoder = match opus_encoder_new(sample_rate, true, false) {
        Ok(enc) => enc,
        Err(_) => {
            proof {
                assert(false);
            }
            return Err(AudioError::CodecError);
        },
    };
    if opus_encoder_set_bitrate(&mut encoder, 128000).is_err() {
        proof {
            assert(false);
        }
        return Err(AudioError::CodecError);
    }
    if opus_encoder_set_bandwidth(&mut encoder, true).is_err() {
        proof {
            assert(false);
        }
        return Err(AudioError::CodecError);
    }
    if opus_encoder_set_signal(&mut encoder, false).is_err() {
        proof {
            assert(false);
        }
        return Err(AudioError::CodecError);
    }
    let samples_per_frame = frame_size * 2;
    let total_frames = stereo.len() / samples_per_frame;
    proof {
        vstd::arithmetic::div_mod::lemma_remainder_lower(
            stereo@.len() as int,
            samples_per_frame as int,
        );
    }
    let mut packets: Vec<Vec<u8>> = Vec::new();
    let mut frame_idx: usize = 0;
    while frame_idx < total_frames
        invariant
            frame_idx <= total_frames,
            packets@.len() == frame_idx,
            samples_per_frame == 2 * frame_size,
            40 <= samples_per_frame <= 5760,
            stereo@.len() <= usize::MAX,
            spec_valid_input(stereo@.len() as int, sample_rate, frame_size),
            total_frames == stereo@.len() as int / (samples_per_frame as int),
            total_frames * samples_per_frame <= stereo@.len(),
            forall|i: int|
                0 <= i < packets@.len() ==> (#[trigger] packets@[i])@.len() <= MAX_PACKET_BYTES,
        decreases total_frames - frame_idx,
    {
        proof {
            vstd::arithmetic::mul::lemma_mul_inequality(
                frame_idx + 1,
                total_frames as int,
                samples_per_frame as int,
            );
            assert((frame_idx + 1) * (samples_per_frame as int) == frame_idx * (
            samples_per_frame as int) + samples_per_frame) by (nonlinear_arith);
            assert((frame_idx + 1) * (samples_per_frame as int) <= total_frames * (
            samples_per_frame as int));
            assert(frame_idx * (samples_per_frame as int) + samples_per_frame
                <= stereo@.len());
        }
        let offset = frame_idx * samples_per_frame;
        let frame = vstd::slice::slice_to_vec(
            vstd::slice::slice_subrange(stereo.as_slice(), offset, offset + samples_per_frame),
        );
        match opus_encode_frame(&mut encoder, &frame, MAX_PACKET_BYTES) {
            Ok(bytes) => packets.push(bytes),
            Err(_) => {
                proof {
                    vstd::arithmetic::mul::lemma_mul_inequality(
                        1,
                        total_frames as int,
                        samples_per_frame as int,
                    );
                }
                return Err(AudioError::CodecError);
            },
        }
        frame_idx += 1;
    }
    Ok(packets)
}

/// Encode an interleaved stereo buffer into the length-prefixed wire
/// stream: the concatenation of one `(u16 little-endian length, packet)`
/// tuple per full frame; a trailing partial frame is dropped. This is the
/// live-capture entry point, so the encoder is given the voice signal
/// hint; invalid parameters are rejected before the encoder is touched.
/// Configuration cannot fail, so on valid input only the per-frame codec
/// call itself can still report a codec error; with no full frame to
/// encode, success is guaranteed.
pub fn encode_stereo_to_opus(
    encoder: &mut opus2::Encoder,
    stereo: &Vec<i16>,
    sample_rate: u32,
    frame_size: usize,
) -> (r: Result<Vec<u8>, AudioError>)
    ensures
        r == Err::<Vec<u8>, AudioError>(AudioError::InvalidAudioParameters)
            <==> !spec_valid_input(stereo@.len() as int, sample_rate, frame_size),
        spec_valid_input(stereo@.len() as int, sample_rate, frame_size) && stereo@.len() < 2
            * frame_size ==> r is Ok,
        !spec_valid_input(stereo@.len() as int, sample_rate, frame_size) ==> *final(encoder)
            == *old(encoder),
        r matches Ok(out) ==> exists|ps: Seq<Seq<u8>>|
            {
                &&& out@ == #[trigger] spec_frame_stream(ps)
                &&& ps.len() == stereo@.len() as int / (2 * frame_size as int)
                &&& forall|i: int| 0 <= i < ps.len() ==> (#[trigger] ps[i]).len() <= MAX_PACKET_BYTES
            },
{
    if let Err(e) = validate_input(stereo, sample_rate, frame_size) {
        return Err(e);
    }
    proof {
        lemma_frame_size_bounds(sample_rate, frame_size);
    }
    if opus_encoder_set_bitrate(encoder, 128000).is_err() {
        proof {
            assert(false);
        }
        return Err(AudioError::CodecError);
    }
    if opus_encoder_set_bandwidth(encoder, true).is_err() {
        proof {
            assert(false);
        }
        return Err(AudioError::CodecError);
    }
    if opus_encoder_set_signal(encoder, true).is_err() {
        proof {
            assert(false);
        }
        return Err(AudioError::CodecError);
    }
    let samples_per_frame = frame_size * 2;
    let total_frames = stereo.len() / samples_per_frame;
    proof {
        vstd::arithmetic::div_mod::lemma_remainder_lower(
            stereo@.len() as int,
            samples_per_frame as int,
        );
    }
    let mut output: Vec<u8> = Vec::new();
    let ghost mut ps: Seq<Seq<u8>> = Seq::empty();
    let mut frame_idx: usize = 0;
    while frame_idx < total_frames
        invariant
            frame_idx <= total_frames,
            ps.len() == frame_idx,
            output@ == spec_frame_stream(ps),
            samples_per_frame == 2 * frame_size,
            40 <= samples_per_frame <= 5760,
            stereo@.len() <= usize::MAX,
            spec_valid_input(stereo@.len() as int, sample_rate, frame_size),
            total_frames == stereo@.len() as int / (samples_per_frame as int),
            total_frames * samples_per_frame <= stereo@.len(),
            forall|i: int| 0 <= i < ps.len() ==> (#[trigger] ps[i]).len() <= MAX_PACKET_BYTES,
        decreases total_frames - frame_idx,
    {
        proof {
            vstd::arithmetic::mul::lemma_mul_inequality(
                frame_idx + 1,
                total_frames as int,
                samples_per_frame as int,
            );
            assert((frame_idx + 1) * (samples_per_frame as int) == frame_idx * (
            samples_per_frame as int) + samples_per_frame) by (nonlinear_arith);
            assert((frame_idx + 1) * (samples_per_frame as int) <= total_frames * (
            samples_per_frame as int));
            assert(frame_idx * (samples_per_frame as int) + samples_per_frame
                <= stereo@.len());
        }
        let offset = frame_idx * samples_per_frame;
        let frame = vstd::slice::slice_to_vec(
            vstd::slice::slice_subrange(stereo.as_slice(), offset, offset + samples_per_frame),
        );
        match opus_encode_frame(encoder, &frame, MAX_PACKET_BYTES) {
            Ok(bytes) => {
                let ghost pb = bytes@;
                let encoded_len = bytes.len();
                output.push((encoded_len % 256) as u8);
                output.push((encoded_len / 256) as u8);
                let mut tail = bytes;
                output.append(&mut tail);
                proof {
                    assert(encoded_len / 256 < 256) by {
                        vstd::arithmetic::div_mod::lemma_div_is_ordered(
                            encoded_len as int,
                            MAX_PACKET_BYTES as int,
                            256,
                        );
                    }
                    vstd::arithmetic::div_mod::lemma_small_mod((encoded_len / 256) as nat, 256);
                    lemma_frame_stream_push(ps, pb);
                    assert(output@ =~= spec_frame_stream(ps.push(pb)));
                    ps = ps.push(pb);
                }
            },
            Err(_) => {
                proof {
                    vstd::arithmetic::mul::lemma_mul_inequality(
                        1,
                        total_frames as int,
                        samples_per_frame as int,
                    );
                }
                return Err(AudioError::CodecError);
            },
        }
        frame_idx += 1;
    }
    Ok(output)
}

/// Decode a length-prefixed wire stream back to interleaved stereo
/// samples. Every parsed packet contributes exactly one frame of
/// `frame_size * 2` samples: a packet the codec cannot decode is replaced
/// by digital silence, so stream timing is preserved; a truncated trailing
/// tuple is discarded.
pub fn decode_opus_to_stereo(
    decoder: &mut opus2::Decoder,
    opus_data: &Vec<u8>,
    sample_rate: u32,
    frame_size: usize,
) -> (r: Result<Vec<i16>, AudioError>)
    requires
        spec_supported_rate(sample_rate),
        spec_valid_frame_size(sample_rate, frame_size),
        opus_data@.len() * 2880 <= usize::MAX,
    ensures
        r is Ok,
        r matches Ok(out) ==> out@.len() == spec_parse_framed(opus_data@).len() * (2
            * frame_size as int),
{
    proof {
        lemma_frame_size_bounds(sample_rate, frame_size);
    }
    let samples_per_frame = frame_size * 2;
    let mut output: Vec<i16> = Vec::new();
    let mut offset: usize = 0;
    let ghost full = opus_data@;
    let ghost mut parsed: int = 0;
    let mut done = false;
    proof {
        assert(full.subrange(0, full.len() as int) =~= full);
    }
    while !done && offset + 2 <= opus_data.len()
        invariant
            offset <= opus_data@.len(),
            opus_data@.len() * 2880 <= usize::MAX,
            samples_per_frame == 2 * frame_size,
            40 <= samples_per_frame <= 5760,
            full == opus_data@,
            0 <= parsed,
            spec_parse_framed(full).len() == parsed + spec_parse_framed(
                full.subrange(offset as int, full.len() as int),
            ).len(),
            output@.len() == parsed * samples_per_frame,
            done ==> spec_parse_framed(full.subrange(offset as int, full.len() as int)).len()
                == 0,
        decreases (if done { 0int } else { 1int }), opus_data@.len() - offset,
    {
        let ghost suffix = full.subrange(offset as int, full.len() as int);
        let b0 = opus_data[offset] as usize;
        let b1 = opus_data[offset + 1] as usize;
        let packet_len = b0 + 256 * b1;
        proof {
            assert(suffix[0] == full[offset as int]);
            assert(suffix[1] == full[offset as int + 1]);
            assert(packet_len == suffix[0] + 256 * suffix[1]);
        }
        if offset + 2 + packet_len > opus_data.len() {
            done = true;
            proof {
                assert(2 + (suffix[0] + 256 * suffix[1]) > suffix.len());
            }
        } else {
            let packet = vstd::slice::slice_to_vec(
                vstd::slice::slice_subrange(
                    opus_data.as_slice(),
                    offset + 2,
                    offset + 2 + packet_len,
                ),
            );
            let mut pcm: Vec<i16> = vec![0i16; samples_per_frame];
            let decoded = opus_decode_packet(decoder, &packet, &mut pcm, false).is_ok();
            let mut frame = recovered_frame(decoded, pcm, samples_per_frame);
            output.append(&mut frame);
            offset = offset + 2 + packet_len;
            proof {
                let plen = suffix[0] + 256 * suffix[1];
                assert(spec_parse_framed(suffix) == seq![suffix.subrange(2, 2 + plen)]
                    + spec_parse_framed(suffix.subrange(2 + plen, suffix.len() as int)));
                assert(spec_parse_framed(suffix).len() == 1 + spec_parse_framed(
                    suffix.subrange(2 + plen, suffix.len() as int),
                ).len());
                assert(full.subrange(offset as int, full.len() as int) =~= suffix.subrange(
                    2 + plen,
                    suffix.len() as int,
                ));
                assert((parsed + 1) * (samples_per_frame as int) == parsed * (
                samples_per_frame as int) + samples_per_frame) by (nonlinear_arith);
                parsed = parsed + 1;
            }
        }
    }
    proof {
        if !done {
            assert(full.subrange(offset as int, full.len() as int).len() < 2);
        }
    }
    Ok(output)
}

/// Decode individual opus packets back to interleaved stereo samples.
/// Every packet contributes exactly one frame of `frame_size * 2` samples,
/// with digital silence substituted for any packet the codec cannot
/// decode; only a failure to construct the decoder itself is surfaced.
pub fn decode_opus_packets_to_stereo(
    packets: &Vec<Vec<u8>>,
    sample_rate: u32,
    frame_size: usize,
) -> (r: Result<Vec<i16>, AudioError>)
    requires
        spec_supported_rate(sample_rate),
        spec_valid_frame_size(sample_rate, frame_size),
        packets@.len() * 5760 <= usize::MAX,
    ensures
        r is Ok,
        r matches Ok(out) ==> out@.len() == packets@.len() * (2 * frame_size as int),
{
    proof {
        lemma_frame_size_bounds(sample_rate, frame_size);
    }
    let mut decoder = match opus_decoder_new(sample_rate, true) {
        Ok(dec) => dec,
        Err(_) => {
            proof {
                assert(false);
            }
            return Err(AudioError::CodecError);
        },
    };
    let samples_per_frame = frame_size * 2;
    let mut output: Vec<i16> = Vec::new();
    let mut i: usize = 0;
    while i < packets.len()
        invariant
            i <= packets@.len(),
            packets@.len() * 5760 <= usize::MAX,
            samples_per_frame == 2 * frame_size,
            40 <= samples_per_frame <= 5760,
            output@.len() == i * samples_per_frame,
        decreases packets@.len() - i,
    {
        let mut pcm: Vec<i16> = vec![0i16; samples_per_frame];
        let decoded = if packets[i].len() <= 0x7fffffff {
            opus_decode_packet(&mut decoder, &packets[i], &mut pcm, false).is_ok()
        } else {
            // A packet too large for the codec's counters cannot be a
            // valid opus packet: treat it as a recoverable failure too.
            false
        };
        let mut frame = recovered_frame(decoded, pcm, samples_per_frame);
        output.append(&mut frame);
        proof {
            assert((i + 1) * (samples_per_frame as int) == i * (samples_per_frame as int)
                + samples_per_frame) by (nonlinear_arith);
        }
        i += 1;
    }
    Ok(output)
}

/// Law: encoding whole frames and decoding the packets preserves the
/// sample count. `encode_stereo_to_opus_packets` yields
/// `len / (2 * frame_size)` packets and `decode_opus_packets_to_stereo`
/// yields `2 * frame_size` samples per packet, so an input that is an
/// exact number of frames round-trips to its own length.
pub proof fn lemma_encode_decode_length(len: int, frame_size: usize)
    requires
        0 <= len,
        1 <= frame_size,
        len % (2 * frame_size as int) == 0,
    ensures
        (len / (2 * frame_size as int)) * (2 * frame_size as int) == len,
{
    vstd::arithmetic::div_mod::lemma_fundamental_div_mod(len, 2 * frame_size as int);
}

} // verus!
