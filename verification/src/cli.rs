//! The options as they come from the command line, still unchecked.

use vstd::prelude::*;

verus! {

/// The options of one run.
#[derive(Clone, Debug)]
pub struct CliOptions {
    /// Beats per minute.
    pub bpm: u32,
    /// A sound file to click with.
    pub file: Option<String>,
    /// Beats to sound and beats to leave out, as "on,off" or one number for
    /// both.
    pub drop_beats: Option<String>,
    /// Cycles to leave out at random, in percent.
    pub drop_rate: Option<u8>,
    /// The tempo to ramp to.
    pub ramp: Option<u32>,
    /// How fast the tempo ramps.
    pub change_rate: Option<u8>,
    /// Drone notes, with commas between them.
    pub drone: Option<String>,
    /// Notes, or chords with their notes, for a harmonic click.
    pub tones: Option<String>,
    /// The chords of the progression, with commas between them.
    pub progression: Option<String>,
    /// Beats for each chord of the progression.
    pub beats_per: Option<String>,
    /// Whether the click is harmonic.
    pub harmonic: bool,
    /// Whether to record.
    pub record: bool,
    /// Whether to analyse.
    pub analyze: bool,
}

} // verus!
