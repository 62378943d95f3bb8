//! The schedule of one run: what the beat plays, what the drone plays, and
//! the sequencer that holds both.

use vstd::prelude::*;
use crate::config::{AppConfig, ConfigView, Tones, TonesView};
use crate::helpers::is_note;
use crate::sequencer::{bounded_event, Event, EventId, Generator, Sequencer, DEFAULT_SAMPLE_RATE};
use crate::synth::hihat::new_hihat_pattern;
use crate::synth::piano::{
    add_drone_notes, add_progression_notes, add_time_notes, chord_tones,
    chords_of_notes_are_in_tune, drone_events, events_in_tune, generators_in_tune, in_tune,
    laid_out, progressions_of_notes_are_in_tune,
};

pub mod hihat;
pub mod piano;

verus! {

/// How long a note of a fixed chord sounds, in milliseconds.
pub const NOTE_MS: u32 = 200;

/// How long a note of a progression sounds, in milliseconds.
pub const PROGRESSION_NOTE_MS: u32 = 100;

/// One event for each generator, all from beat `start` to beat `end`.
pub open spec fn chord_events(start: int, end: int, generators: Seq<Generator>) -> Seq<Event> {
    Seq::new(
        generators.len(),
        |j: int| bounded_event(start as u32, end as u32, generators[j]),
    )
}

/// `count` slots of one beat each, the first at beat `first`, and in every
/// slot one event for each generator.
pub open spec fn slots(first: int, count: int, generators: Seq<Generator>) -> Seq<Event>
    decreases count,
{
    if count <= 0 {
        Seq::empty()
    } else {
        slots(first, count - 1, generators) + chord_events(
            first + count - 1,
            first + count,
            generators,
        )
    }
}

/// What the beat plays. With beats to sound and beats to leave out: `on`
/// slots that hold the generators, then `off` slots that hold silence, back
/// to back from beat 0. Without: one slot that holds the generators.
pub open spec fn beat_events(drop_beats: Option<(u8, u8)>, generators: Seq<Generator>) -> Seq<
    Event,
> {
    match drop_beats {
        Some((on, off)) => slots(0, on as int, generators) + slots(
            on as int,
            off as int,
            seq![Generator::Silence],
        ),
        None => chord_events(0, 1, generators),
    }
}

/// Slots stand beat by beat. `count` slots hold `count` events for each
/// generator, and the event of generator `j` in slot `s` lasts from beat
/// `first + s` to the next.
pub proof fn slots_stand_in_a_row(first: int, count: int, generators: Seq<Generator>)
    requires
        0 <= count,
    ensures
        slots(first, count, generators).len() == count * generators.len(),
        forall|s: int, j: int|
            0 <= s < count && 0 <= j < generators.len() ==> #[trigger] slots(
                first,
                count,
                generators,
            )[slot_place(s, j, generators.len() as int)] == bounded_event(
                (first + s) as u32,
                (first + s + 1) as u32,
                generators[j],
            ),
    decreases count,
{
    let k = generators.len() as int;
    if count == 0 {
        assert(count * k == 0) by (nonlinear_arith)
            requires
                count == 0,
        ;
    } else {
        slots_stand_in_a_row(first, count - 1, generators);
        let before = slots(first, count - 1, generators);
        let last = chord_events(first + count - 1, first + count, generators);
        assert(count * k == (count - 1) * k + k) by (nonlinear_arith);
        assert forall|s: int, j: int| 0 <= s < count && 0 <= j < k implies #[trigger] slots(
            first,
            count,
            generators,
        )[slot_place(s, j, k)] == bounded_event(
            (first + s) as u32,
            (first + s + 1) as u32,
            generators[j],
        ) by {
            if s < count - 1 {
                assert(s * k + j < (count - 1) * k) by (nonlinear_arith)
                    requires
                        0 <= s < count - 1,
                        0 <= j < k,
                ;
                assert(0 <= s * k + j) by (nonlinear_arith)
                    requires
                        0 <= s,
                        0 <= j,
                        0 <= k,
                ;
                assert(before[slot_place(s, j, k)] == bounded_event(
                    (first + s) as u32,
                    (first + s + 1) as u32,
                    generators[j],
                ));
            } else {
                assert(s * k + j - (count - 1) * k == j) by (nonlinear_arith)
                    requires
                        s == count - 1,
                ;
                assert((before + last)[slot_place(s, j, k)] == last[j]);
            }
        }
    }
}

/// The place of the event of generator `j` in slot `s`, where every slot
/// holds `k` events.
pub open spec fn slot_place(s: int, j: int, k: int) -> int {
    s * k + j
}

/// A pattern is its beats to sound, then its beats to leave out. The first
/// `on` slots hold one event for each generator, the next `off` slots hold
/// silence, and every slot is one beat long and starts where the one before
/// it ends.
pub proof fn pattern_sounds_then_rests(on: u8, off: u8, generators: Seq<Generator>)
    ensures
        beat_events(Some((on, off)), generators).len() == on * generators.len() + off,
        forall|s: int, j: int|
            0 <= s < on && 0 <= j < generators.len() ==> #[trigger] beat_events(
                Some((on, off)),
                generators,
            )[slot_place(s, j, generators.len() as int)] == bounded_event(
                s as u32,
                (s + 1) as u32,
                generators[j],
            ),
        forall|s: int|
            0 <= s < off ==> #[trigger] beat_events(Some((on, off)), generators)[on
                * generators.len() + s] == bounded_event(
                (on + s) as u32,
                (on + s + 1) as u32,
                Generator::Silence,
            ),
{
    let k = generators.len() as int;
    let sounding = slots(0, on as int, generators);
    let resting = slots(on as int, off as int, seq![Generator::Silence]);
    slots_stand_in_a_row(0, on as int, generators);
    slots_stand_in_a_row(on as int, off as int, seq![Generator::Silence]);
    assert(resting.len() == off) by (nonlinear_arith)
        requires
            resting.len() == off * 1,
    ;
    assert forall|s: int, j: int| 0 <= s < on && 0 <= j < k implies #[trigger] beat_events(
        Some((on, off)),
        generators,
    )[slot_place(s, j, k)] == bounded_event(s as u32, (s + 1) as u32, generators[j]) by {
        assert(0 <= s * k + j < on * k) by (nonlinear_arith)
            requires
                0 <= s < on,
                0 <= j < k,
        ;
        assert(sounding[slot_place(s, j, k)] == bounded_event(
            (0 + s) as u32,
            (0 + s + 1) as u32,
            generators[j],
        ));
    }
    assert forall|s: int| 0 <= s < off implies #[trigger] beat_events(
        Some((on, off)),
        generators,
    )[on * k + s] == bounded_event((on + s) as u32, (on + s + 1) as u32, Generator::Silence) by {
        assert(s * 1 + 0 == s) by (nonlinear_arith);
        assert(resting[slot_place(s, 0, 1)] == bounded_event(
            (on + s) as u32,
            (on + s + 1) as u32,
            seq![Generator::Silence][0],
        ));
    }
}

/// `count` places in a row, the first at `first`.
pub open spec fn ids_from(first: int, count: int) -> Seq<EventId> {
    Seq::new(count as nat, |i: int| EventId((first + i) as usize))
}

/// Adds one event for each generator, all from beat `start` to beat `end`,
/// and notes their places in `ids`.
pub fn push_chord(
    sequencer: &mut Sequencer,
    ids: &mut Vec<EventId>,
    start: u32,
    end: u32,
    generators: &Vec<Generator>,
)
    ensures
        final(sequencer).events@ == old(sequencer).events@ + chord_events(
            start as int,
            end as int,
            generators@,
        ),
        final(ids)@ == old(ids)@ + ids_from(
            old(sequencer).events@.len() as int,
            generators@.len() as int,
        ),
        final(sequencer).same_clocks(*old(sequencer)),
{
    let ghost events = sequencer.events@;
    let ghost places = ids@;
    let ghost added = chord_events(start as int, end as int, generators@);
    let mut j: usize = 0;
    assert(sequencer.events@ =~= events + added.subrange(0, 0));
    assert(ids@ =~= places + ids_from(events.len() as int, 0));
    while j < generators.len()
        invariant
            j <= generators@.len(),
            added == chord_events(start as int, end as int, generators@),
            sequencer.events@ == events + added.subrange(0, j as int),
            ids@ == places + ids_from(events.len() as int, j as int),
            sequencer.same_clocks(*old(sequencer)),
        decreases generators@.len() - j,
    {
        let event = Event {
            start,
            end: Some(end),
            fade: crate::sequencer::Fade::Smooth,
            fade_in_ms: crate::sequencer::EDGE_FADE_MS,
            fade_out_ms: crate::sequencer::EDGE_FADE_MS,
            generator: generators[j],
        };
        let id = sequencer.push(event);
        ids.push(id);
        j += 1;
        assert(sequencer.events@ =~= events + added.subrange(0, j as int));
        assert(ids@ =~= places + ids_from(events.len() as int, j as int));
    }
    assert(added.subrange(0, j as int) =~= added);
}

/// Adds `count` slots of one beat each, the first at beat `first`, with one
/// event for each generator in every slot.
pub fn push_slots(
    sequencer: &mut Sequencer,
    ids: &mut Vec<EventId>,
    first: u32,
    count: u8,
    generators: &Vec<Generator>,
)
    requires
        first + count <= u32::MAX,
    ensures
        final(sequencer).events@ == old(sequencer).events@ + slots(
            first as int,
            count as int,
            generators@,
        ),
        final(ids)@ == old(ids)@ + ids_from(
            old(sequencer).events@.len() as int,
            slots(first as int, count as int, generators@).len() as int,
        ),
        final(sequencer).same_clocks(*old(sequencer)),
{
    let ghost events = sequencer.events@;
    let ghost places = ids@;
    let mut done: u8 = 0;
    assert(sequencer.events@ =~= events + slots(first as int, 0, generators@));
    assert(ids@ =~= places + ids_from(events.len() as int, 0));
    while done < count
        invariant
            done <= count,
            first + count <= u32::MAX,
            sequencer.events@ == events + slots(first as int, done as int, generators@),
            ids@ == places + ids_from(
                events.len() as int,
                slots(first as int, done as int, generators@).len() as int,
            ),
            sequencer.same_clocks(*old(sequencer)),
        decreases count - done,
    {
        let ghost before = slots(first as int, done as int, generators@);
        let start: u32 = first + done as u32;
        push_chord(sequencer, ids, start, start + 1, generators);
        done += 1;
        let ghost chord = chord_events(start as int, start + 1, generators@);
        assert(slots(first as int, done as int, generators@) == before + chord);
        assert(sequencer.events@ =~= events + (before + chord));
        assert(ids@ =~= places + ids_from(events.len() as int, (before + chord).len() as int));
    }
}

/// Adds what the beat plays and returns the places of the events.
pub fn push_beat_events(
    sequencer: &mut Sequencer,
    drop_beats: Option<(u8, u8)>,
    generators: &Vec<Generator>,
) -> (ids: Vec<EventId>)
    ensures
        final(sequencer).events@ == old(sequencer).events@ + beat_events(drop_beats, generators@),
        ids@ == ids_from(
            old(sequencer).events@.len() as int,
            beat_events(drop_beats, generators@).len() as int,
        ),
        final(sequencer).same_clocks(*old(sequencer)),
{
    let ghost events = sequencer.events@;
    let mut ids: Vec<EventId> = Vec::new();
    match drop_beats {
        Some((on, off)) => {
            push_slots(sequencer, &mut ids, 0, on, generators);
            let silence: Vec<Generator> = vec![Generator::Silence];
            assert(silence@ =~= seq![Generator::Silence]);
            push_slots(sequencer, &mut ids, on as u32, off, &silence);
            let ghost sounding = slots(0, on as int, generators@);
            let ghost silent = slots(on as int, off as int, seq![Generator::Silence]);
            assert(sequencer.events@ =~= events + (sounding + silent));
            assert(ids@ =~= ids_from(events.len() as int, (sounding + silent).len() as int));
        },
        None => {
            push_chord(sequencer, &mut ids, 0, 1, generators);
            assert(ids@ =~= ids_from(events.len() as int, generators@.len() as int));
        },
    }
    ids
}

/// What the beat of a configuration plays: the chords of the progression
/// where the tones are chords by name, the one chord where they are notes, and
/// the click where there are none. Beats to sound and to leave out shape all
/// three: the click and the one chord stand in the beats that sound, and a
/// step of the progression sounds if its first beat does.
pub open spec fn time_layout(config: ConfigView) -> Seq<Event> {
    match config.tones {
        Some(TonesView::List(notes)) => beat_events(
            config.drop_beats,
            chord_tones(notes, Some(NOTE_MS)),
        ),
        Some(TonesView::Chords(chords)) => laid_out(
            chords,
            config.progression->0,
            config.beats_per->0,
            PROGRESSION_NOTE_MS,
            config.drop_beats,
        ).events(config.progression->0.len() as int),
        None => beat_events(config.drop_beats, seq![Generator::Click]),
    }
}

/// What the drone of a configuration plays: its notes, unless tones are
/// set, beside which there is no drone.
pub open spec fn drone_layout(config: ConfigView) -> Seq<Event> {
    match config.drone {
        Some(notes) => if config.tones is Some {
            Seq::empty()
        } else {
            drone_events(notes)
        },
        None => Seq::empty(),
    }
}

/// Slots of generators that are in tune are in tune.
pub proof fn slots_stay_in_tune(first: int, count: int, generators: Seq<Generator>)
    requires
        generators_in_tune(generators),
    ensures
        events_in_tune(slots(first, count, generators)),
        events_in_tune(chord_events(first, first + 1, generators)),
    decreases count,
{
    assert forall|i: int| 0 <= i < generators.len() implies in_tune(
        (#[trigger] chord_events(first, first + 1, generators)[i]).generator,
    ) by {
        assert(in_tune(generators[i]));
    }
    if count > 0 {
        slots_stay_in_tune(first, count - 1, generators);
        let before = slots(first, count - 1, generators);
        let last = chord_events(first + count - 1, first + count, generators);
        assert forall|i: int| 0 <= i < slots(first, count, generators).len() implies in_tune(
            (#[trigger] slots(first, count, generators)[i]).generator,
        ) by {
            if i < before.len() {
                assert(slots(first, count, generators)[i] == before[i]);
            } else {
                assert(slots(first, count, generators)[i] == last[i - before.len()]);
                assert(in_tune(generators[i - before.len()]));
            }
        }
    }
}

/// What the beat plays is in tune where its generators are.
pub proof fn beats_stay_in_tune(drop_beats: Option<(u8, u8)>, generators: Seq<Generator>)
    requires
        generators_in_tune(generators),
    ensures
        events_in_tune(beat_events(drop_beats, generators)),
{
    match drop_beats {
        Some((on, off)) => {
            let silence = seq![Generator::Silence];
            assert(generators_in_tune(silence));
            slots_stay_in_tune(0, on as int, generators);
            slots_stay_in_tune(on as int, off as int, silence);
            let sounding = slots(0, on as int, generators);
            let resting = slots(on as int, off as int, silence);
            assert forall|i: int| 0 <= i < (sounding + resting).len() implies in_tune(
                (#[trigger] (sounding + resting)[i]).generator,
            ) by {
                if i < sounding.len() {
                    assert((sounding + resting)[i] == sounding[i]);
                } else {
                    assert((sounding + resting)[i] == resting[i - sounding.len()]);
                }
            }
        },
        None => {
            slots_stay_in_tune(0, 0, generators);
        },
    }
}

/// The schedule of a valid configuration is in tune: every tone on it, of
/// the beat and of the drone, sounds at the frequency of a note.
pub proof fn valid_schedules_are_in_tune(config: ConfigView)
    requires
        config.is_valid(),
    ensures
        events_in_tune(time_layout(config)),
        events_in_tune(drone_layout(config)),
        events_in_tune(time_layout(config) + drone_layout(config)),
{
    crate::config::valid_notes_have_frequencies(config);
    match config.tones {
        Some(TonesView::List(notes)) => {
            chords_of_notes_are_in_tune(notes, Some(NOTE_MS));
            beats_stay_in_tune(config.drop_beats, chord_tones(notes, Some(NOTE_MS)));
        },
        Some(TonesView::Chords(chords)) => {
            let p = laid_out(
                chords,
                config.progression->0,
                config.beats_per->0,
                PROGRESSION_NOTE_MS,
                config.drop_beats,
            );
            assert forall|id: Seq<char>, i: int|
                p.chords.contains_key(id) && 0 <= i < p.chords[id].len() implies is_note(
                #[trigger] p.chords[id][i],
            ) by {
                assert(crate::config::all_notes(chords[id]));
            }
            progressions_of_notes_are_in_tune(p, config.progression->0.len() as int);
        },
        None => {
            assert(generators_in_tune(seq![Generator::Click]));
            beats_stay_in_tune(config.drop_beats, seq![Generator::Click]);
        },
    }
    if config.drone is Some && config.tones is None {
        chords_of_notes_are_in_tune(config.drone->0, None);
    }
    let beat = time_layout(config);
    let drone = drone_layout(config);
    assert forall|i: int| 0 <= i < (beat + drone).len() implies in_tune(
        (#[trigger] (beat + drone)[i]).generator,
    ) by {
        if i < beat.len() {
            assert((beat + drone)[i] == beat[i]);
        } else {
            assert((beat + drone)[i] == drone[i - beat.len()]);
        }
    }
}

/// A sequencer with its schedule, and the places of what the beat plays and
/// of what the drone plays.
pub struct Synth {
    pub sequencer: Sequencer,
    pub time_events: Vec<EventId>,
    pub drone_events: Vec<EventId>,
}

impl Synth {
    /// Lays out the schedule of a configuration: first what the beat plays,
    /// then what the drone plays.
    pub fn from(config: &AppConfig) -> (synth: Synth)
        requires
            config.is_valid(),
        ensures
            synth.sequencer.events@ == time_layout(config@) + drone_layout(config@),
            synth.time_events@ == ids_from(0, time_layout(config@).len() as int),
            synth.drone_events@ == ids_from(
                time_layout(config@).len() as int,
                drone_layout(config@).len() as int,
            ),
            synth.sequencer.tempo == config.bpm,
            synth.sequencer.sample_rate == DEFAULT_SAMPLE_RATE,
            synth.sequencer.playhead == 0,
            synth.sequencer.elapsed == 0,
    {
        let mut sequencer = Sequencer::new(config.bpm);
        let time_events = match &config.tones {
            Some(Tones::List(notes)) => add_time_notes(
                notes.as_slice(),
                &mut sequencer,
                NOTE_MS,
                config.drop_beats,
            ),
            Some(Tones::Chords(chords)) => match (&config.progression, &config.beats_per) {
                (Some(progression), Some(beats_per)) => add_progression_notes(
                    chords,
                    progression,
                    beats_per,
                    &mut sequencer,
                    PROGRESSION_NOTE_MS,
                    config.drop_beats,
                ),
                _ => Vec::new(),
            },
            None => new_hihat_pattern(&mut sequencer, config.drop_beats),
        };
        assert(sequencer.events@ =~= time_layout(config@));
        let drone_events = match &config.drone {
            Some(notes) => if config.tones.is_some() {
                Vec::new()
            } else {
                add_drone_notes(notes.as_slice(), &mut sequencer)
            },
            None => Vec::new(),
        };
        assert(sequencer.events@ =~= time_layout(config@) + drone_layout(config@));
        assert(drone_events@ =~= ids_from(
            time_layout(config@).len() as int,
            drone_layout(config@).len() as int,
        ));
        Synth { sequencer, time_events, drone_events }
    }
}

} // verus!
