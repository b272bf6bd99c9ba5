//! Core logic of a voice dictation app: settings and their persistence,
//! the recording state machine, voice-activity segmentation, WAV framing,
//! transcript assembly and history keeping.

pub mod commands;
pub mod live;
pub mod models;
pub mod state;
pub mod text;
pub mod transcribe;
pub mod tray;
