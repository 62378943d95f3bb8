//! One playback session: the tempo, the schedule, and the counter that
//! finds the end of each cycle.

use vstd::prelude::*;
use crate::audio::{
    beats_per_sequence, cycle_beats, cycle_samples, drop_percent, retrigger, sequence_samples,
};
use crate::config::AppConfig;
use crate::constants::{MAX_BPM, MIN_BPM};
use crate::sequencer::{advanced, rewound, ticked, DEFAULT_SAMPLE_RATE};
use crate::synth::{drone_layout, ids_from, time_layout, Synth};

verus! {

/// The state of one session.
pub struct Metronome {
    /// Beats per minute; may change while the session runs.
    pub bpm: u32,
    /// The schedule and its clocks.
    pub synth: Synth,
    /// Samples since the last end of a cycle.
    pub sample_counter: u64,
    /// The beats of one cycle.
    pub beats_per_sequence: u16,
    /// The cycles left out at random, in percent.
    pub drop_rate: u8,
}

/// How a frame ended.
#[derive(Clone, Copy, Debug, PartialEq, Eq, Structural)]
pub enum Frame {
    /// Within a cycle.
    Inside,
    /// At the end of a cycle that is not played again: the schedule runs on
    /// in silence.
    Dropped,
    /// At the end of a cycle that is played again: the schedule starts anew.
    Retriggered,
}

/// The counter after one more sample; it starts again at 0 where it can
/// count no further.
pub open spec fn counted(counter: u64) -> u64 {
    if counter == u64::MAX {
        0
    } else {
        (counter + 1) as u64
    }
}

/// Whether the frame that comes ends a cycle of `seq_samples` samples.
pub open spec fn ends_cycle(m: Metronome, seq_samples: u64) -> bool {
    counted(m.sample_counter) >= seq_samples
}

/// The session after one frame. Both clocks of the schedule move on by one
/// sample. Where the frame ends a cycle, the length of the cycle is taken off
/// the counter, so that what it has counted beyond stays, and the playhead
/// is rewound if the cycle `sound`s again; the samples since the start are
/// never rewound.
pub open spec fn after_frame(m: Metronome, seq_samples: u64, sound: bool) -> Metronome {
    let moved = advanced(m.synth.sequencer);
    Metronome {
        bpm: m.bpm,
        synth: Synth {
            sequencer: if ends_cycle(m, seq_samples) && sound {
                rewound(moved)
            } else {
                moved
            },
            time_events: m.synth.time_events,
            drone_events: m.synth.drone_events,
        },
        sample_counter: if ends_cycle(m, seq_samples) {
            (counted(m.sample_counter) - seq_samples) as u64
        } else {
            counted(m.sample_counter)
        },
        beats_per_sequence: m.beats_per_sequence,
        drop_rate: m.drop_rate,
    }
}

/// How the frame that comes ends.
pub open spec fn frame_end(m: Metronome, seq_samples: u64, sound: bool) -> Frame {
    if !ends_cycle(m, seq_samples) {
        Frame::Inside
    } else if sound {
        Frame::Retriggered
    } else {
        Frame::Dropped
    }
}

/// The session after as many frames as there are `sounds`, where
/// `sounds[i]` says whether a cycle that ends with frame `i` is played again.
pub open spec fn after_frames(m: Metronome, seq_samples: u64, sounds: Seq<bool>) -> Metronome
    decreases sounds.len(),
{
    if sounds.len() == 0 {
        m
    } else {
        after_frame(after_frames(m, seq_samples, sounds.drop_last()), seq_samples, sounds.last())
    }
}

/// The cycles that end within as many frames as there are `sounds`.
pub open spec fn cycles_within(m: Metronome, seq_samples: u64, sounds: Seq<bool>) -> nat
    decreases sounds.len(),
{
    if sounds.len() == 0 {
        0
    } else {
        let before = cycles_within(m, seq_samples, sounds.drop_last());
        if ends_cycle(after_frames(m, seq_samples, sounds.drop_last()), seq_samples) {
            before + 1
        } else {
            before
        }
    }
}

impl Metronome {
    /// Whether the tempo and the drop rate are in their ranges.
    pub open spec fn wf(&self) -> bool {
        &&& MIN_BPM <= self.bpm <= MAX_BPM
        &&& self.drop_rate <= 99
    }

    /// The samples of one cycle at the tempo of the moment.
    pub open spec fn seq_samples(&self, sample_rate: u32) -> u64 {
        cycle_samples(self.bpm as int, sample_rate as int, self.beats_per_sequence as int) as u64
    }

    /// A session for a configuration, at the start of its first cycle.
    pub fn new(config: &AppConfig) -> (m: Metronome)
        requires
            config.is_valid(),
        ensures
            m.wf(),
            m.bpm == config.bpm,
            m.sample_counter == 0,
            m.beats_per_sequence == cycle_beats(config@),
            m.drop_rate == drop_percent(config@),
            m.synth.sequencer.events@ == time_layout(config@) + drone_layout(config@),
            m.synth.time_events@ == ids_from(0, time_layout(config@).len() as int),
            m.synth.drone_events@ == ids_from(
                time_layout(config@).len() as int,
                drone_layout(config@).len() as int,
            ),
            m.synth.sequencer.tempo == config.bpm,
            m.synth.sequencer.sample_rate == DEFAULT_SAMPLE_RATE,
            m.synth.sequencer.playhead == 0,
            m.synth.sequencer.elapsed == 0,
    {
        Metronome {
            bpm: config.bpm,
            synth: Synth::from(config),
            sample_counter: 0,
            beats_per_sequence: beats_per_sequence(config),
            drop_rate: match config.drop_rate {
                Some(rate) => rate,
                None => 0,
            },
        }
    }

    /// Whether the tempo and the drop rate are in their ranges.
    pub fn check(&self) -> (b: bool)
        ensures
            b == self.wf(),
    {
        MIN_BPM <= self.bpm && self.bpm <= MAX_BPM && self.drop_rate <= 99
    }

    /// Takes a new tempo if it is one that a session may have, and says
    /// whether it did. The schedule and the counter stay as they are.
    pub fn set_bpm(&mut self, bpm: u32) -> (taken: bool)
        ensures
            taken == (MIN_BPM <= bpm <= MAX_BPM),
            final(self).bpm == if taken {
                bpm
            } else {
                old(self).bpm
            },
            final(self).synth == old(self).synth,
            final(self).sample_counter == old(self).sample_counter,
            final(self).beats_per_sequence == old(self).beats_per_sequence,
            final(self).drop_rate == old(self).drop_rate,
    {
        if MIN_BPM <= bpm && bpm <= MAX_BPM {
            self.bpm = bpm;
            true
        } else {
            false
        }
    }

    /// The samples of one cycle at the tempo of the moment.
    pub fn sequence_samples(&self, sample_rate: u32) -> (samples: u64)
        requires
            self.wf(),
        ensures
            samples == self.seq_samples(sample_rate),
            samples == cycle_samples(
                self.bpm as int,
                sample_rate as int,
                self.beats_per_sequence as int,
            ),
    {
        sequence_samples(self.bpm, sample_rate, self.beats_per_sequence)
    }

    /// Whether the frame that comes ends a cycle of `seq_samples` samples.
    pub fn at_cycle_end(&self, seq_samples: u64) -> (b: bool)
        ensures
            b == ends_cycle(*self, seq_samples),
    {
        self.sample_counter.wrapping_add(1) >= seq_samples
    }

    /// Plays one frame, where `sound` says whether a cycle that ends with it
    /// is played again.
    pub fn frame(&mut self, seq_samples: u64, sound: bool) -> (end: Frame)
        ensures
            *final(self) == after_frame(*old(self), seq_samples, sound),
            end == frame_end(*old(self), seq_samples, sound),
    {
        self.synth.sequencer.advance();
        let count = self.sample_counter.wrapping_add(1);
        if count >= seq_samples {
            self.sample_counter = count - seq_samples;
            if sound {
                self.synth.sequencer.reset();
                Frame::Retriggered
            } else {
                Frame::Dropped
            }
        } else {
            self.sample_counter = count;
            Frame::Inside
        }
    }

    /// Plays one frame. Where it ends a cycle, chance decides by the drop
    /// rate whether the cycle is played again; with a drop rate of 0 it
    /// always is.
    pub fn next_frame(&mut self, seq_samples: u64) -> (end: Frame)
        requires
            old(self).wf(),
        ensures
            *final(self) == after_frame(*old(self), seq_samples, end != Frame::Dropped),
            end == frame_end(*old(self), seq_samples, end != Frame::Dropped),
            old(self).drop_rate == 0 ==> end != Frame::Dropped,
            final(self).wf(),
    {
        let sound = if self.at_cycle_end(seq_samples) {
            retrigger(self.drop_rate)
        } else {
            true
        };
        self.frame(seq_samples, sound)
    }

    /// Plays `frame_count` frames at `sample_rate` samples a second, and
    /// returns the number of cycles that ended within them. Whether each of
    /// those cycles is played again is decided by chance.
    pub fn process(&mut self, frame_count: usize, sample_rate: u32) -> (cycles: usize)
        requires
            old(self).wf(),
        ensures
            final(self).wf(),
            exists|sounds: Seq<bool>|
                {
                    &&& sounds.len() == frame_count
                    &&& *final(self) == #[trigger] after_frames(
                        *old(self),
                        old(self).seq_samples(sample_rate),
                        sounds,
                    )
                    &&& cycles == cycles_within(
                        *old(self),
                        old(self).seq_samples(sample_rate),
                        sounds,
                    )
                    &&& old(self).drop_rate == 0 ==> forall|i: int|
                        0 <= i < sounds.len() ==> sounds[i]
                },
    {
        let seq_samples = self.sequence_samples(sample_rate);
        let ghost start = *self;
        let ghost sounds: Seq<bool> = Seq::empty();
        let mut cycles: usize = 0;
        let mut i: usize = 0;
        while i < frame_count
            invariant
                i <= frame_count,
                self.wf(),
                sounds.len() == i,
                cycles <= i,
                *self == after_frames(start, seq_samples, sounds),
                cycles == cycles_within(start, seq_samples, sounds),
                start.drop_rate == 0 ==> forall|j: int| 0 <= j < sounds.len() ==> sounds[j],
                self.drop_rate == start.drop_rate,
            decreases frame_count - i,
        {
            let ghost before = sounds;
            let end = self.next_frame(seq_samples);
            proof {
                sounds = before.push(end != Frame::Dropped);
                assert(sounds.drop_last() =~= before);
            }
            if end != Frame::Inside {
                cycles += 1;
            }
            i += 1;
        }
        cycles
    }
}

/// Cycles keep their phase. While the length of a cycle stays the same, the
/// frames played and the samples that the counter held before them are the
/// cycles that ended, each at its full length, and what the counter holds
/// now; and the counter stays below the length of a cycle. So the ends of
/// the cycles fall where whole cycles end, however the frames are dealt out
/// to buffers and whichever cycles are played again.
pub proof fn cycles_keep_phase(m: Metronome, seq_samples: u64, sounds: Seq<bool>)
    requires
        0 < seq_samples,
        m.sample_counter < seq_samples,
    ensures
        m.sample_counter + sounds.len() == cycles_within(m, seq_samples, sounds) * seq_samples
            + after_frames(m, seq_samples, sounds).sample_counter,
        after_frames(m, seq_samples, sounds).sample_counter < seq_samples,
    decreases sounds.len(),
{
    if sounds.len() > 0 {
        let earlier = sounds.drop_last();
        cycles_keep_phase(m, seq_samples, earlier);
        let before = cycles_within(m, seq_samples, earlier);
        let held = after_frames(m, seq_samples, earlier);
        assert(counted(held.sample_counter) == held.sample_counter + 1);
        assert((before + 1) * seq_samples == before * seq_samples + seq_samples)
            by (nonlinear_arith);
        if ends_cycle(held, seq_samples) {
            assert(cycles_within(m, seq_samples, sounds) == before + 1);
            assert(after_frames(m, seq_samples, sounds).sample_counter == held.sample_counter
                + 1 - seq_samples);
        } else {
            assert(cycles_within(m, seq_samples, sounds) == before);
            assert(after_frames(m, seq_samples, sounds).sample_counter == held.sample_counter
                + 1);
        }
    } else {
        assert(cycles_within(m, seq_samples, sounds) * seq_samples == 0) by (nonlinear_arith)
            requires
                cycles_within(m, seq_samples, sounds) == 0,
        ;
    }
}

/// Buffers do not matter: frames played in two calls leave the session as
/// the same frames played in one.
pub proof fn frames_add_up(m: Metronome, seq_samples: u64, first: Seq<bool>, second: Seq<bool>)
    ensures
        after_frames(after_frames(m, seq_samples, first), seq_samples, second) == after_frames(
            m,
            seq_samples,
            first + second,
        ),
        cycles_within(m, seq_samples, first) + cycles_within(
            after_frames(m, seq_samples, first),
            seq_samples,
            second,
        ) == cycles_within(m, seq_samples, first + second),
    decreases second.len(),
{
    if second.len() == 0 {
        assert(first + second =~= first);
    } else {
        frames_add_up(m, seq_samples, first, second.drop_last());
        assert((first + second).drop_last() =~= first + second.drop_last());
    }
}

/// No frame rewinds the drone. Whether or not a cycle is played again,
/// the samples since the start have moved on by one, and the events stand
/// as they stood: what never ends is timed as if no cycle had ended.
pub proof fn retriggers_pass_the_drone_by(m: Metronome, seq_samples: u64, sound: bool)
    ensures
        after_frame(m, seq_samples, sound).synth.sequencer.elapsed == ticked(
            m.synth.sequencer.elapsed,
        ),
        after_frame(m, seq_samples, sound).synth.sequencer.events == m.synth.sequencer.events,
        after_frame(m, seq_samples, sound).synth.sequencer.tempo == m.synth.sequencer.tempo,
        after_frame(m, seq_samples, sound).synth.sequencer.sample_rate
            == m.synth.sequencer.sample_rate,
{
}

/// The samples since the start are the frames played, as long as they can
/// be counted.
pub proof fn the_session_clock_counts_every_frame(m: Metronome, seq_samples: u64, sounds: Seq<bool>)
    requires
        m.synth.sequencer.elapsed + sounds.len() <= u64::MAX,
    ensures
        after_frames(m, seq_samples, sounds).synth.sequencer.elapsed == m.synth.sequencer.elapsed
            + sounds.len(),
    decreases sounds.len(),
{
    if sounds.len() > 0 {
        the_session_clock_counts_every_frame(m, seq_samples, sounds.drop_last());
    }
}

} // verus!
