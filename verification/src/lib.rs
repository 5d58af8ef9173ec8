pub mod audio;
pub mod background;
pub mod cleanup;
pub mod commands;
pub mod config;
pub mod detect;
pub mod disk;
pub mod doctor;
pub mod encoding;
pub mod error;
pub mod json;
pub mod models;
pub mod native;
pub mod path;
pub mod recording;
pub mod session;
pub mod setup;
pub mod text;
pub mod tool;
pub mod transcribe;
pub mod whisper;
