//! The percussive click.

use vstd::prelude::*;
use crate::sequencer::{EventId, Generator, Sequencer};
use crate::synth::{beat_events, ids_from, push_beat_events};

verus! {

/// The click: one burst of filtered noise for each time it is triggered.
pub fn hihat_synth() -> (g: Generator)
    ensures
        g == Generator::Click,
{
    Generator::Click
}

/// Adds the click pattern to the sequencer: with beats to sound and to leave
/// out, a click in each of the first and silence in each of the others; else
/// one click on the one beat of the cycle. Returns the places of the events.
pub fn new_hihat_pattern(sequencer: &mut Sequencer, drop_beats: Option<(u8, u8)>) -> (ids: Vec<
    EventId,
>)
    ensures
        final(sequencer).events@ == old(sequencer).events@ + beat_events(
            drop_beats,
            seq![Generator::Click],
        ),
        ids@ == ids_from(
            old(sequencer).events@.len() as int,
            beat_events(drop_beats, seq![Generator::Click]).len() as int,
        ),
        final(sequencer).same_clocks(*old(sequencer)),
{
    let click: Vec<Generator> = vec![hihat_synth()];
    assert(click@ =~= seq![Generator::Click]);
    push_beat_events(sequencer, drop_beats, &click)
}

} // verus!
