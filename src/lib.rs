//! Core of a VITS-style speech synthesizer: sentences from the phonemizer's
//! clauses, phoneme-id encoding, speaker selection, adaptive chunk planning
//! over the latent frame axis and the decoder calls of a chunked stream.

pub mod chunker;
pub mod config;
pub mod encoding;
pub mod error;
pub mod phonemize;
pub mod speaker;
pub mod stream;
