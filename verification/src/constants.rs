//! Fixed tables and limits.

use vstd::prelude::*;

verus! {

/// The lowest tempo, in beats per minute.
pub const MIN_BPM: u32 = 30;

/// The highest tempo, in beats per minute.
pub const MAX_BPM: u32 = 300;

/// The most steps a progression may have.
pub const MAX_PROGRESSION: usize = 24;

/// The most notes that may sound together.
pub const MAX_NOTES: usize = 4;

/// The most chords a tone map may name.
pub const MAX_CHORDS: usize = 10;

/// The number of pitches from B1 to C6.
pub const PITCH_COUNT: usize = 50;

/// Equal-tempered frequencies (A4 = 440 Hz) in hundredths of a hertz, one per
/// semitone from B1 up to C6.
pub const PITCH_FREQUENCIES: [u32; 50] = [
    6174, 6541, 6930, 7342, 7778, 8241, 8731, 9250, 9800, 10383,
    11000, 11654, 12347, 13081, 13859, 14683, 15556, 16481, 17461, 18500,
    19600, 20765, 22000, 23308, 24694, 26163, 27718, 29366, 31113, 32963,
    34923, 36999, 39200, 41530, 44000, 46616, 49388, 52325, 55437, 58733,
    62225, 65925, 69846, 73999, 78399, 83061, 88000, 93233, 98777, 104650,
];

} // verus!
