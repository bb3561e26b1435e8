//! The decode-only playback entry point: a held decoding session that
//! turns length-prefixed opus byte streams back into interleaved stereo
//! samples, with silence substituted for undecodable packets.

use crate::codec::decode_opus_to_stereo;
use crate::codec::opus_decoder_new;
use crate::codec::spec_parse_framed;
use crate::codec::spec_supported_rate;
use crate::codec::spec_valid_frame_size;
use crate::codec::AudioError;
use vstd::prelude::*;

verus! {

/// A decoding session: the codec decoder together with its fixed sample
/// rate and the frame size it expects per packet.
pub struct OpusDecoderNode {
    decoder: opus2::Decoder,
    sample_rate: u32,
    frame_size: usize,
}

impl OpusDecoderNode {
    /// The session's fixed sample rate.
    pub closed spec fn spec_sample_rate(&self) -> u32 {
        self.sample_rate
    }

    /// The frame size expected per packet.
    pub closed spec fn spec_frame_size(&self) -> usize {
        self.frame_size
    }

    /// The rate is supported and the frame size is legal for it.
    pub open spec fn well_formed(&self) -> bool {
        &&& spec_supported_rate(self.spec_sample_rate())
        &&& spec_valid_frame_size(self.spec_sample_rate(), self.spec_frame_size())
    }

    /// A session at the codec rate of 48 kHz with the 10 ms frame size,
    /// as the playback path uses it; the codec's decoder construction
    /// cannot fail at a supported rate, so neither can this.
    pub fn new() -> (r: Result<OpusDecoderNode, AudioError>)
        ensures
            r is Ok,
            r matches Ok(node) ==> {
                &&& node.well_formed()
                &&& node.spec_sample_rate() == 48000
                &&& node.spec_frame_size() == 480
            },
    {
        let sample_rate: u32 = 48000;
        match opus_decoder_new(sample_rate, true) {
            Ok(decoder) => Ok(OpusDecoderNode { decoder, sample_rate, frame_size: 480 }),
            Err(_) => {
                proof {
                    assert(false);
                }
                Err(AudioError::CodecError)
            },
        }
    }

    /// Decode a length-prefixed byte stream into interleaved stereo
    /// samples: one frame per parsed packet, silence substituted for any
    /// packet the codec cannot decode.
    pub fn decode_audio(&mut self, encoded: &Vec<u8>) -> (out: Vec<i16>)
        requires
            old(self).well_formed(),
            encoded@.len() * 2880 <= usize::MAX,
        ensures
            final(self).well_formed(),
            final(self).spec_sample_rate() == old(self).spec_sample_rate(),
            final(self).spec_frame_size() == old(self).spec_frame_size(),
            out@.len() == spec_parse_framed(encoded@).len() * (2 * old(self).spec_frame_size()),
    {
        let sample_rate = self.sample_rate;
        let frame_size = self.frame_size;
        match decode_opus_to_stereo(&mut self.decoder, encoded, sample_rate, frame_size) {
            Ok(out) => out,
            Err(_) => {
                proof {
                    assert(false);
                }
                Vec::new()
            },
        }
    }

    /// Change the frame size for subsequent decodes; the caller keeps it
    /// inside the legal set of the session's rate.
    pub fn set_frame_size(&mut self, frame_size: u32)
        requires
            old(self).well_formed(),
            spec_valid_frame_size(old(self).spec_sample_rate(), frame_size as usize),
        ensures
            final(self).well_formed(),
            final(self).spec_sample_rate() == old(self).spec_sample_rate(),
            final(self).spec_frame_size() == frame_size as usize,
    {
        self.frame_size = frame_size as usize;
    }
}

} // verus!
