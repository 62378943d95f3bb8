//! The arithmetic of the output callback: how long a cycle is, in beats and
//! in samples, and whether a cycle that ends is played again.

use vstd::prelude::*;
use crate::config::{AppConfig, ConfigView, Tones};
use crate::synth::piano::{beats_before, beats_before_bounds, step_beats};

verus! {

/// The beats that a progression takes, all steps together.
pub open spec fn progression_beats(config: ConfigView) -> int {
    beats_before(config.beats_per->0, config.progression->0.len() as int)
}

/// The beats of one cycle: those of the progression where the tones are
/// chords by name, whatever beats are left out within it; else the beats to
/// sound and to leave out together, where they are given; else those of a
/// progression without chords; else one.
pub open spec fn cycle_beats(config: ConfigView) -> int {
    if config.tones is Some && config.tones->0 is Chords {
        progression_beats(config)
    } else if let Some((on, off)) = config.drop_beats {
        on + off
    } else if config.progression is Some && config.beats_per is Some {
        progression_beats(config)
    } else {
        1
    }
}

/// The cycles left out at random, in percent.
pub open spec fn drop_percent(config: ConfigView) -> int {
    match config.drop_rate {
        Some(rate) => rate as int,
        None => 0,
    }
}

/// `n / d`, rounded to the nearest whole number, a half upwards.
pub open spec fn rounded_quotient(n: int, d: int) -> int {
    (2 * n + d) / (2 * d)
}

/// The samples of one cycle: `60 / bpm` seconds for each beat, at
/// `sample_rate` samples a second, rounded to the nearest sample.
pub open spec fn cycle_samples(bpm: int, sample_rate: int, beats: int) -> int {
    rounded_quotient(60 * sample_rate * beats, bpm)
}

/// The rounded quotient is the whole number nearest to the exact one: it is
/// at most a half above it and less than a half below it.
pub proof fn rounded_quotient_is_nearest(n: int, d: int)
    requires
        0 <= n,
        0 < d,
    ensures
        2 * d * rounded_quotient(n, d) - d <= 2 * n < 2 * d * rounded_quotient(n, d) + d,
        0 <= rounded_quotient(n, d),
{
    let q = rounded_quotient(n, d);
    vstd::arithmetic::div_mod::lemma_fundamental_div_mod(2 * n + d, 2 * d);
    vstd::arithmetic::div_mod::lemma_mod_bound(2 * n + d, 2 * d);
    vstd::arithmetic::div_mod::lemma_div_pos_is_pos(2 * n + d, 2 * d);
    assert((2 * d) * q == 2 * d * q) by (nonlinear_arith);
}

/// `rand::random_ratio`: true with a chance of `numerator` in `denominator`.
/// Nothing is known of one outcome, but that it is true where the two are
/// equal and false where `numerator` is 0. The call panics where
/// `denominator` is 0 or `numerator` is the larger.
#[verifier::external_body]
fn random_ratio(numerator: u32, denominator: u32) -> (outcome: bool)
    requires
        0 < denominator,
        numerator <= denominator,
    ensures
        numerator == denominator ==> outcome,
        numerator == 0 ==> !outcome,
{
    rand::random_ratio(numerator, denominator)
}

/// The chance that a cycle that ends is played again, as a ratio: of a
/// hundred cycles, all but `drop_rate` are.
pub open spec fn retrigger_chance(drop_rate: u8) -> (u32, u32) {
    ((100 - drop_rate) as u32, 100u32)
}

/// The chance that a cycle that ends is played again, as a ratio.
pub fn retrigger_odds(drop_rate: u8) -> (odds: (u32, u32))
    requires
        drop_rate <= 100,
    ensures
        odds == retrigger_chance(drop_rate),
{
    (100 - drop_rate as u32, 100)
}

/// Decides by chance whether a cycle that ends is played again, where
/// `drop_rate` of a hundred are left out: the draw is made at the odds of
/// `retrigger_odds`. With a rate of 0 every cycle is played again, with a
/// rate of 100 none.
pub fn retrigger(drop_rate: u8) -> (sound: bool)
    requires
        drop_rate <= 100,
    ensures
        drop_rate == 0 ==> sound,
        drop_rate == 100 ==> !sound,
{
    let (numerator, denominator) = retrigger_odds(drop_rate);
    random_ratio(numerator, denominator)
}

/// The beats of one cycle of a configuration.
pub fn beats_per_sequence(config: &AppConfig) -> (beats: u16)
    requires
        config.is_valid(),
    ensures
        beats == cycle_beats(config@),
{
    let in_chords = match &config.tones {
        Some(Tones::Chords(_)) => true,
        _ => false,
    };
    if !in_chords {
        if let Some((on, off)) = config.drop_beats {
            return on as u16 + off as u16;
        }
    }
    match (&config.progression, &config.beats_per) {
        (Some(progression), Some(beats_per)) => {
            let mut total: u16 = 0;
            let mut k: usize = 0;
            while k < progression.len()
                invariant
                    k <= progression@.len() <= 24,
                    beats_per@.len() == 1 || beats_per@.len() == progression@.len(),
                    total == beats_before(beats_per@, k as int),
                    total <= 255 * k,
                decreases progression@.len() - k,
            {
                let beats: u8 = if beats_per.len() == 1 {
                    beats_per[0]
                } else {
                    beats_per[k]
                };
                total = total + beats as u16;
                k += 1;
            }
            total
        },
        _ => 1,
    }
}

/// The samples of one cycle of `beats` beats at `bpm` beats a minute.
pub fn sequence_samples(bpm: u32, sample_rate: u32, beats: u16) -> (samples: u64)
    requires
        0 < bpm,
    ensures
        samples == cycle_samples(bpm as int, sample_rate as int, beats as int),
{
    let span: u64 = 60 * (sample_rate as u64);
    assert(span * beats <= 60 * 0xffff_ffff * 0xffff) by (nonlinear_arith)
        requires
            span <= 60 * 0xffff_ffff,
            beats <= 0xffff,
    ;
    let n: u64 = span * (beats as u64);
    assert(n == 60 * sample_rate * beats) by (nonlinear_arith)
        requires
            n == span * beats,
            span == 60 * sample_rate,
    ;
    (2 * n + bpm as u64) / (2 * (bpm as u64))
}

} // verus!
