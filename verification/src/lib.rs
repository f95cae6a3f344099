//! The recognition and provisioning core of a voice assistant: an ordered chain of
//! speech-recognition backends with fallback, the decisions of a streaming decoder
//! adapter, and the planning of a resumable model download with safe extraction.

pub mod archive;
pub mod audio;
pub mod config;
pub mod orchestrator;
pub mod provision;
pub mod settings;
pub mod sources;
pub mod text;
pub mod transcription;

pub use provision::discovery::{model_path, vosk_model_url};
pub use sources::{Source, SpeechRecognisers};
pub use transcription::{Transcibe, TranscriptionError, TranscriptionResult};
