//! Piano practice library: the music and learning domain, the judging of a
//! performance against a score, MIDI score extraction and the decisions of the
//! application's use cases.

pub mod judge;
pub mod judge_laws;
pub mod learning;
pub mod midi;
pub mod music;
pub mod order;
pub mod text;
pub mod app_error;
pub mod music_commands;
pub mod learning_commands;
pub mod local_library;
pub mod keyboard;
pub mod api;
pub mod demo;
pub mod command_laws;
pub mod midi_laws;
pub mod listing;
pub mod views;
pub mod library_flow;
pub mod command_flow;
