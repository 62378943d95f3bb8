//! A click-track engine: what sounds when, the clocks that walk the
//! schedule sample by sample, and the rules that decide when a cycle restarts.
//!
//! The library decides and counts; it makes no sound. Times are whole beats
//! and whole samples, frequencies hundredths of a hertz, so that every rule
//! is exact:
//!
//! - `cli` and `config` read a configuration from the options and refuse
//!   what is out of range or goes against a rule between the settings;
//! - `helpers`, `text` and `number` read notes, lists and numbers;
//! - `tones` keeps chords by name;
//! - `sequencer` holds events and the clocks that time them;
//! - `synth` lays out what the beat and the drone play;
//! - `audio` and `metronome` find the end of each cycle and decide whether
//!   it is played again.

pub mod analysis;
pub mod audio;
pub mod cli;
pub mod config;
pub mod constants;
pub mod helpers;
pub mod metronome;
pub mod number;
pub mod recording;
pub mod scheduler;
pub mod sequencer;
pub mod synth;
pub mod text;
pub mod tones;
