//! The tuned tone.

use vstd::prelude::*;
use crate::helpers::{note_frequency, note_to_frequency};
use crate::sequencer::{endless_event, Event, EventId, Fade, Generator, Sequencer, EDGE_FADE_MS};
use crate::synth::{beat_events, chord_events, ids_from, push_beat_events, push_chord};
use crate::text::views;
use crate::tones::ToneMap;

verus! {

/// The tone of `note`, one of `voices` that sound together. A text that
/// spells no note gives a tone of frequency 0.
pub open spec fn tone(note: Seq<char>, duration_ms: Option<u32>, voices: nat) -> Generator {
    Generator::Tone {
        frequency: match note_frequency(note) {
            Some(f) => f,
            None => 0,
        },
        duration_ms,
        voices: voices as usize,
    }
}

/// The tones of a chord: one for each note, each knowing how many they are.
pub open spec fn chord_tones(notes: Seq<Seq<char>>, duration_ms: Option<u32>) -> Seq<Generator> {
    Seq::new(notes.len(), |j: int| tone(notes[j], duration_ms, notes.len()))
}

/// What the drone plays: each note from the start of the session, without
/// end.
pub open spec fn drone_events(notes: Seq<Seq<char>>) -> Seq<Event> {
    Seq::new(notes.len(), |j: int| endless_event(tone(notes[j], None, notes.len())))
}

/// The beats of step `i` of a progression: the one value where only one is
/// given, else the value of that step.
pub open spec fn step_beats(beats_per: Seq<u8>, i: int) -> int {
    if beats_per.len() == 1 {
        beats_per[0] as int
    } else if 0 <= i < beats_per.len() {
        beats_per[i] as int
    } else {
        0
    }
}

/// The beats that the first `k` steps of a progression take together.
pub open spec fn beats_before(beats_per: Seq<u8>, k: int) -> int
    decreases k,
{
    if k <= 0 {
        0
    } else {
        beats_before(beats_per, k - 1) + step_beats(beats_per, k - 1)
    }
}

/// The notes of the chord named `id`; none where no chord has that name.
pub open spec fn chord_notes(chords: Map<Seq<char>, Seq<Seq<char>>>, id: Seq<char>) -> Seq<
    Seq<char>,
> {
    if chords.contains_key(id) {
        chords[id]
    } else {
        Seq::empty()
    }
}

/// Whether beat `beat` of the cycle sounds. Without beats to leave out every
/// beat does. With them, the beats are counted from the start of the cycle:
/// `on` beats sound, `off` beats do not, and so on in turn.
pub open spec fn beat_sounds(drop_beats: Option<(u8, u8)>, beat: int) -> bool {
    match drop_beats {
        Some((on, off)) => on + off > 0 && beat % (on + off) < on,
        None => true,
    }
}

/// A progression to lay out: the chords by name, the steps, the beats of
/// the steps, how long a note sounds, and the beats to sound and to leave
/// out, if there are any.
pub struct Progression {
    pub chords: Map<Seq<char>, Seq<Seq<char>>>,
    pub steps: Seq<Seq<char>>,
    pub beats_per: Seq<u8>,
    pub duration_ms: Option<u32>,
    pub drop_beats: Option<(u8, u8)>,
}

impl Progression {
    /// The beat at which step `k` starts: where the steps before it end.
    pub open spec fn start(self, k: int) -> int {
        beats_before(self.beats_per, k)
    }

    /// Whether step `k` sounds: whether the beat on which its chord is struck
    /// is one that sounds.
    pub open spec fn sounds(self, k: int) -> bool {
        beat_sounds(self.drop_beats, self.start(k))
    }

    /// What step `k` plays: the tones of its chord where it sounds, silence
    /// where it does not.
    pub open spec fn generators(self, k: int) -> Seq<Generator> {
        if self.sounds(k) {
            chord_tones(chord_notes(self.chords, self.steps[k]), self.duration_ms)
        } else {
            seq![Generator::Silence]
        }
    }

    /// What the first `k` steps play: each step from the beat at which the
    /// steps before it end and for as many beats as it has, all that it plays
    /// at once.
    pub open spec fn events(self, k: int) -> Seq<Event>
        decreases k,
    {
        if k <= 0 {
            Seq::empty()
        } else {
            self.events(k - 1) + chord_events(
                self.start(k - 1),
                self.start(k),
                self.generators(k - 1),
            )
        }
    }

    /// The events that the first `k` steps play, counted.
    pub open spec fn events_before(self, k: int) -> int
        decreases k,
    {
        if k <= 0 {
            0
        } else {
            self.events_before(k - 1) + self.generators(k - 1).len()
        }
    }

    /// The place of event `j` of step `s`.
    pub open spec fn place(self, s: int, j: int) -> int {
        self.events_before(s) + j
    }
}

/// The steps of a progression stand in a row. What step `s` plays starts at
/// the beat at which the steps before it end and lasts the beats of the
/// step; its events follow those of the steps before.
pub proof fn steps_stand_in_a_row(p: Progression, k: int)
    requires
        0 <= k,
    ensures
        p.events(k).len() == p.events_before(k),
        forall|s: int, j: int|
            0 <= s < k && 0 <= j < p.generators(s).len() ==> #[trigger] p.events(k)[p.place(s, j)]
                == crate::sequencer::bounded_event(
                p.start(s) as u32,
                p.start(s + 1) as u32,
                p.generators(s)[j],
            ),
        forall|s: int| 0 <= s <= k ==> 0 <= #[trigger] p.events_before(s) <= p.events_before(k),
    decreases k,
{
    if k > 0 {
        steps_stand_in_a_row(p, k - 1);
        let before = p.events(k - 1);
        let last = chord_events(p.start(k - 1), p.start(k), p.generators(k - 1));
        assert forall|s: int, j: int|
            0 <= s < k && 0 <= j < p.generators(s).len() implies #[trigger] p.events(k)[p.place(
            s,
            j,
        )] == crate::sequencer::bounded_event(
            p.start(s) as u32,
            p.start(s + 1) as u32,
            p.generators(s)[j],
        ) by {
            if s < k - 1 {
                assert(p.events_before(s + 1) <= p.events_before(k - 1));
                assert(before[p.place(s, j)] == crate::sequencer::bounded_event(
                    p.start(s) as u32,
                    p.start(s + 1) as u32,
                    p.generators(s)[j],
                ));
            } else {
                assert((before + last)[p.place(s, j)] == last[j]);
            }
        }
        assert forall|s: int| 0 <= s <= k implies 0 <= #[trigger] p.events_before(s)
            <= p.events_before(k) by {
            if s < k {
                assert(p.events_before(s) <= p.events_before(k - 1));
            }
        }
    }
}

/// A step that sounds plays the notes of its chord, each at its own
/// frequency where it is a note; a step that does not plays silence alone.
pub proof fn steps_sound_or_rest(p: Progression, k: int)
    ensures
        p.sounds(k) ==> p.generators(k).len() == chord_notes(p.chords, p.steps[k]).len(),
        p.sounds(k) ==> forall|j: int|
            0 <= j < p.generators(k).len() ==> #[trigger] p.generators(k)[j] == tone(
                chord_notes(p.chords, p.steps[k])[j],
                p.duration_ms,
                chord_notes(p.chords, p.steps[k]).len(),
            ),
        !p.sounds(k) ==> p.generators(k) == seq![Generator::Silence],
        p.drop_beats is None ==> p.sounds(k),
{
}

/// The first `k` steps take at most 255 beats each.
pub proof fn beats_before_bounds(beats_per: Seq<u8>, k: int)
    requires
        0 <= k,
    ensures
        0 <= beats_before(beats_per, k) <= 255 * k,
    decreases k,
{
    if k > 0 {
        beats_before_bounds(beats_per, k - 1);
    }
}

/// The tone of `note`: decaying within `duration_ms` milliseconds where a
/// duration is given, sustained where none is. `num_total_notes` is the
/// number of tones that sound together.
pub fn electric_piano(note: &str, duration_ms: Option<u32>, num_total_notes: usize) -> (g:
    Generator)
    ensures
        g == tone(note@, duration_ms, num_total_notes as nat),
{
    let frequency = match note_to_frequency(note) {
        Some(f) => f,
        None => 0,
    };
    Generator::Tone { frequency, duration_ms, voices: num_total_notes }
}

/// The tones of the chord `notes`.
pub fn chord_generators(notes: &[String], duration_ms: Option<u32>) -> (generators: Vec<
    Generator,
>)
    ensures
        generators@ == chord_tones(views(notes@), duration_ms),
{
    let mut generators: Vec<Generator> = Vec::new();
    let mut j: usize = 0;
    while j < notes.len()
        invariant
            j <= notes@.len(),
            generators@ == chord_tones(views(notes@), duration_ms).subrange(0, j as int),
        decreases notes@.len() - j,
    {
        generators.push(electric_piano(notes[j].as_str(), duration_ms, notes.len()));
        j += 1;
        assert(generators@ =~= chord_tones(views(notes@), duration_ms).subrange(0, j as int));
    }
    assert(generators@ =~= chord_tones(views(notes@), duration_ms));
    generators
}

/// Adds the drone notes to the sequencer: each sounds from the start and
/// never ends. Returns the places of the events.
pub fn add_drone_notes(notes: &[String], sequencer: &mut Sequencer) -> (events: Vec<EventId>)
    ensures
        final(sequencer).events@ == old(sequencer).events@ + drone_events(views(notes@)),
        events@ == ids_from(old(sequencer).events@.len() as int, notes@.len() as int),
        final(sequencer).same_clocks(*old(sequencer)),
{
    let ghost before = sequencer.events@;
    let ghost added = drone_events(views(notes@));
    let mut events: Vec<EventId> = Vec::new();
    let mut j: usize = 0;
    assert(sequencer.events@ =~= before + added.subrange(0, 0));
    assert(events@ =~= ids_from(before.len() as int, 0));
    while j < notes.len()
        invariant
            j <= notes@.len(),
            added == drone_events(views(notes@)),
            sequencer.events@ == before + added.subrange(0, j as int),
            events@ == ids_from(before.len() as int, j as int),
            sequencer.same_clocks(*old(sequencer)),
        decreases notes@.len() - j,
    {
        let event = Event {
            start: 0,
            end: None,
            fade: Fade::Smooth,
            fade_in_ms: EDGE_FADE_MS,
            fade_out_ms: EDGE_FADE_MS,
            generator: electric_piano(notes[j].as_str(), None, notes.len()),
        };
        let id = sequencer.push(event);
        events.push(id);
        j += 1;
        assert(sequencer.events@ =~= before + added.subrange(0, j as int));
        assert(events@ =~= ids_from(before.len() as int, j as int));
    }
    assert(added.subrange(0, j as int) =~= added);
    events
}

/// Adds the notes of a fixed chord to the sequencer. With beats to sound and
/// to leave out, the chord stands in each of the first and silence in each of
/// the others; else the chord stands on the one beat of the cycle. Returns
/// the places of the events.
pub fn add_time_notes(
    notes: &[String],
    sequencer: &mut Sequencer,
    note_duration_ms: u32,
    drop_beats: Option<(u8, u8)>,
) -> (events: Vec<EventId>)
    ensures
        final(sequencer).events@ == old(sequencer).events@ + beat_events(
            drop_beats,
            chord_tones(views(notes@), Some(note_duration_ms)),
        ),
        events@ == ids_from(
            old(sequencer).events@.len() as int,
            beat_events(drop_beats, chord_tones(views(notes@), Some(note_duration_ms))).len() as int,
        ),
        final(sequencer).same_clocks(*old(sequencer)),
{
    let generators = chord_generators(notes, Some(note_duration_ms));
    push_beat_events(sequencer, drop_beats, &generators)
}

/// Adds a progression to the sequencer: step by step the chord that the
/// step names, all its notes at once, for the beats of the step. With beats
/// to sound and to leave out, a step whose first beat is left out plays
/// silence. Returns the places of the events.
pub fn add_progression_notes(
    chords: &ToneMap,
    progression: &Vec<String>,
    beats_per: &Vec<u8>,
    sequencer: &mut Sequencer,
    note_duration_ms: u32,
    drop_beats: Option<(u8, u8)>,
) -> (events: Vec<EventId>)
    requires
        progression@.len() <= 0xff_ffff,
        beats_per@.len() == 1 || beats_per@.len() == progression@.len(),
    ensures
        final(sequencer).events@ == old(sequencer).events@ + laid_out(
            chords@,
            views(progression@),
            beats_per@,
            note_duration_ms,
            drop_beats,
        ).events(progression@.len() as int),
        events@ == ids_from(
            old(sequencer).events@.len() as int,
            laid_out(chords@, views(progression@), beats_per@, note_duration_ms, drop_beats).events(
                progression@.len() as int,
            ).len() as int,
        ),
        final(sequencer).same_clocks(*old(sequencer)),
{
    let ghost before = sequencer.events@;
    let ghost p = laid_out(chords@, views(progression@), beats_per@, note_duration_ms, drop_beats);
    let mut events: Vec<EventId> = Vec::new();
    let mut start: u32 = 0;
    let mut k: usize = 0;
    assert(sequencer.events@ =~= before + p.events(0));
    assert(events@ =~= ids_from(before.len() as int, 0));
    while k < progression.len()
        invariant
            k <= progression@.len(),
            progression@.len() <= 0xff_ffff,
            beats_per@.len() == 1 || beats_per@.len() == progression@.len(),
            p == laid_out(
                chords@,
                views(progression@),
                beats_per@,
                note_duration_ms,
                drop_beats,
            ),
            start == p.start(k as int),
            sequencer.events@ == before + p.events(k as int),
            events@ == ids_from(before.len() as int, p.events(k as int).len() as int),
            sequencer.same_clocks(*old(sequencer)),
        decreases progression@.len() - k,
    {
        let ghost played = p.events(k as int);
        proof {
            beats_before_bounds(beats_per@, k + 1);
        }
        let beats: u8 = if beats_per.len() == 1 {
            beats_per[0]
        } else {
            beats_per[k]
        };
        let end: u32 = start + beats as u32;
        let sounds = match drop_beats {
            Some((on, off)) => {
                let period: u32 = on as u32 + off as u32;
                period > 0 && start % period < on as u32
            },
            None => true,
        };
        assert(sounds == p.sounds(k as int));
        let generators = if !sounds {
            let silence: Vec<Generator> = vec![Generator::Silence];
            assert(silence@ =~= seq![Generator::Silence]);
            silence
        } else {
            match chords.get(progression[k].as_str()) {
                Some(notes) => chord_generators(notes.as_slice(), Some(note_duration_ms)),
                None => {
                    let none: Vec<Generator> = Vec::new();
                    assert(none@ =~= chord_tones(
                        Seq::<Seq<char>>::empty(),
                        Some(note_duration_ms),
                    ));
                    none
                },
            }
        };
        assert(generators@ == p.generators(k as int));
        push_chord(sequencer, &mut events, start, end, &generators);
        let ghost chord = chord_events(start as int, end as int, generators@);
        start = end;
        k += 1;
        assert(p.events(k as int) == played + chord);
        assert(sequencer.events@ =~= before + (played + chord));
        assert(events@ =~= ids_from(before.len() as int, (played + chord).len() as int));
    }
    events
}

/// The progression that `add_progression_notes` lays out.
pub open spec fn laid_out(
    chords: Map<Seq<char>, Seq<Seq<char>>>,
    steps: Seq<Seq<char>>,
    beats_per: Seq<u8>,
    note_duration_ms: u32,
    drop_beats: Option<(u8, u8)>,
) -> Progression {
    Progression { chords, steps, beats_per, duration_ms: Some(note_duration_ms), drop_beats }
}

/// Whether a generator, if it is a tone, has a frequency to sound at.
pub open spec fn in_tune(generator: Generator) -> bool {
    generator matches Generator::Tone { frequency, .. } ==> frequency > 0
}

/// Whether every tone among the generators has a frequency to sound at.
pub open spec fn generators_in_tune(generators: Seq<Generator>) -> bool {
    forall|j: int| 0 <= j < generators.len() ==> in_tune(#[trigger] generators[j])
}

/// Whether every tone among the events has a frequency to sound at.
pub open spec fn events_in_tune(events: Seq<Event>) -> bool {
    forall|i: int| 0 <= i < events.len() ==> in_tune((#[trigger] events[i]).generator)
}

/// The tone of a note sounds at the frequency of the note.
pub proof fn a_note_sounds_at_its_frequency(note: Seq<char>, duration_ms: Option<u32>, voices: nat)
    requires
        crate::helpers::is_note(note),
    ensures
        tone(note, duration_ms, voices) == (Generator::Tone {
            frequency: note_frequency(note)->0,
            duration_ms,
            voices: voices as usize,
        }),
        in_tune(tone(note, duration_ms, voices)),
{
    crate::helpers::every_note_has_a_frequency(note);
    let p = crate::helpers::note_pitch(note)->0;
    if p > 0 {
        crate::helpers::pitches_ascend(0, p);
    }
}

/// The tones of a chord of notes are in tune.
pub proof fn chords_of_notes_are_in_tune(notes: Seq<Seq<char>>, duration_ms: Option<u32>)
    requires
        forall|i: int| 0 <= i < notes.len() ==> crate::helpers::is_note(#[trigger] notes[i]),
    ensures
        generators_in_tune(chord_tones(notes, duration_ms)),
        events_in_tune(drone_events(notes)),
{
    assert forall|j: int| 0 <= j < notes.len() implies in_tune(
        #[trigger] chord_tones(notes, duration_ms)[j],
    ) by {
        a_note_sounds_at_its_frequency(notes[j], duration_ms, notes.len());
    }
    assert forall|j: int| 0 <= j < notes.len() implies in_tune(
        (#[trigger] drone_events(notes)[j]).generator,
    ) by {
        a_note_sounds_at_its_frequency(notes[j], None, notes.len());
    }
}

/// A progression whose chords hold notes alone is in tune.
pub proof fn progressions_of_notes_are_in_tune(p: Progression, k: int)
    requires
        forall|id: Seq<char>, i: int|
            p.chords.contains_key(id) && 0 <= i < p.chords[id].len() ==> crate::helpers::is_note(
                #[trigger] p.chords[id][i],
            ),
    ensures
        events_in_tune(p.events(k)),
    decreases k,
{
    if k > 0 {
        progressions_of_notes_are_in_tune(p, k - 1);
        let notes = chord_notes(p.chords, p.steps[k - 1]);
        assert forall|i: int| 0 <= i < notes.len() implies crate::helpers::is_note(
            #[trigger] notes[i],
        ) by {
            assert(crate::helpers::is_note(p.chords[p.steps[k - 1]][i]));
        }
        chords_of_notes_are_in_tune(notes, p.duration_ms);
        let before = p.events(k - 1);
        let last = chord_events(p.start(k - 1), p.start(k), p.generators(k - 1));
        assert forall|i: int| 0 <= i < p.events(k).len() implies in_tune(
            (#[trigger] p.events(k)[i]).generator,
        ) by {
            if i < before.len() {
                assert(p.events(k)[i] == before[i]);
            } else {
                assert(p.events(k)[i] == last[i - before.len()]);
                assert(in_tune(p.generators(k - 1)[i - before.len()]));
            }
        }
    }
}

} // verus!
