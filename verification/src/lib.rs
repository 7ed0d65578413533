//! Verified core of a dictation daemon: the control protocol spoken over its
//! socket, the keyboard shortcut state machine, and the audio framing for the
//! transcription backends.

pub mod audio;
pub mod audio_laws;
pub mod clock;
pub mod control;
pub mod control_laws;
pub mod keys;
pub mod keys_laws;
pub mod shortcuts;
pub mod shortcuts_laws;
pub mod socket;
pub mod text;
pub mod text_laws;
