//! A verified real-time voice pipeline: opus packet framing, sample-rate
//! conversion, voice-activity segmentation and keyword matching.

pub mod codec;
pub mod microphone;
pub mod opus_decoder_node;
pub mod runtime;
pub mod spellbook;
pub mod whisper;
