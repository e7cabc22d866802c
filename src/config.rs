use vstd::prelude::*;
use std::collections::HashMap;

verus! {

broadcast use vstd::string::to_string_from_display_ensures_for_str;

/// Quality label of a voice whose configuration names none.
pub const UNKNOWN_QUALITY: &'static str = "unknown";

/// Audio format of a voice.
#[derive(Debug, Clone, Default)]
pub struct AudioConfig {
    pub sample_rate: u32,
    pub quality: Option<String>,
}

/// The phonemizer voice a model was trained with.
#[derive(Debug, Clone, Default)]
pub struct ESpeakConfig {
    pub voice: String,
}

/// Language metadata of a voice.
#[derive(Debug, Clone, Default)]
pub struct Language {
    pub code: String,
    pub family: Option<String>,
    pub region: Option<String>,
    pub name_native: Option<String>,
    pub name_english: Option<String>,
}

/// Format of the audio a model produces.
#[derive(Debug, Clone, Copy, PartialEq, Eq, Structural)]
pub struct AudioInfo {
    pub sample_rate: usize,
    pub num_channels: usize,
    pub sample_width: usize,
}

/// Configuration of a voice model, its tunable inference scales aside.
///
/// `speaker_id_map` lists speaker names with their ids, in the order of the
/// configuration; `phoneme_id_map` maps the code point of each phoneme
/// character to its ids, the first of which is used.
#[derive(Debug, Clone, Default)]
pub struct ModelConfig {
    pub key: Option<String>,
    pub language: Option<Language>,
    pub audio: AudioConfig,
    pub num_speakers: u32,
    pub speaker_id_map: Vec<(String, i64)>,
    pub streaming: Option<bool>,
    pub espeak: ESpeakConfig,
    pub num_symbols: u32,
    pub phoneme_id_map: HashMap<u32, Vec<i64>>,
}

impl ModelConfig {
    /// The language code of the voice, or its phonemizer voice where the
    /// configuration names no language.
    pub fn language(&self) -> (r: Option<String>)
        ensures
            r is Some,
            r->0@ == match self.language {
                Some(l) => l.code@,
                None => self.espeak.voice@,
            },
    {
        match &self.language {
            Some(lang) => Some(lang.code.clone()),
            None => Some(self.espeak.voice.clone()),
        }
    }

    /// The voice's quality label, `unknown` where the configuration names none.
    pub fn quality(&self) -> (r: String)
        ensures
            r@ == match self.audio.quality {
                Some(q) => q@,
                None => UNKNOWN_QUALITY@,
            },
    {
        match &self.audio.quality {
            Some(q) => q.clone(),
            None => UNKNOWN_QUALITY.to_string(),
        }
    }

    /// Mono 16-bit audio at the configured sample rate.
    pub fn get_audio_output_info(&self) -> (r: AudioInfo)
        ensures
            r == (AudioInfo {
                sample_rate: self.audio.sample_rate as usize,
                num_channels: 1,
                sample_width: 2,
            }),
    {
        AudioInfo { sample_rate: self.audio.sample_rate as usize, num_channels: 1, sample_width: 2 }
    }

    /// Whether the voice is split into an encoder and a streaming decoder.
    pub fn is_streaming(&self) -> (r: bool)
        ensures
            r == (self.streaming == Some(true)),
    {
        match self.streaming {
            Some(b) => b,
            None => false,
        }
    }
}

} // verus!
