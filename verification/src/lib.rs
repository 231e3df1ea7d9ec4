//! Core of a Japanese text-to-speech engine: a synthesizer facade over a
//! registry of neural voice models, the prosody refinement stages that write
//! phoneme lengths and mora pitches back into accent phrases, and the
//! deterministic numeric shaping that turns decoded frames into a WAV file.
//!
//! The neural inference runtime and the Japanese text analyzer are external
//! collaborators: this crate prepares their inputs and post-processes their
//! outputs, and every such stage carries a proved contract.
//!
//! Times and pitches are held in fixed-point integers: one tick is 1/10000 of
//! a second (or of the pitch unit), and scale factors are held in hundredths.

use vstd::prelude::*;

pub mod error;
pub mod model;
pub mod registry;
pub mod prosody;
pub mod query;
pub mod synthesizer;
pub mod user_dict;
pub mod wave;

pub use error::{Error, LoadModelErrorKind, VoicevoxResultCode, VvResult};
pub use model::{SpeakerMeta, StyleId, StyleMeta, VoiceModel, VoiceModelId, VoiceModelMeta};
pub use query::{
    audio_query_from_accent_phrases, AccentPhrase, AudioQuery, Mora, VowelKind, PAU_PHONEME,
};
pub use synthesizer::{
    AccelerationMode, AccentPhrasesOptions, AudioQueryOptions, InitializeOptions, SupportedDevices,
    SynthesisOptions, Synthesizer, TtsOptions, VoicevoxAccelerationMode,
};
pub use user_dict::{UserDictWordType, VoicevoxUserDictWordType};

verus! {

/// Ticks per second: times and pitches are counted in tenth-milliseconds.
pub const TIME_SCALE: u32 = 10_000;

/// Scale factors (speed, intonation, volume) are counted in hundredths.
pub const SCALE_ONE: u32 = 100;

/// The output sampling rate of every rendered waveform, in hertz.
pub const DEFAULT_SAMPLING_RATE: u32 = 24_000;

/// Audio samples produced per acoustic frame.
pub const SAMPLES_PER_FRAME: usize = 256;

} // verus!
