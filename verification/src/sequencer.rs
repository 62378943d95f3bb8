//! The event store and its clocks.
//!
//! Times on the schedule are whole beats; the clocks count samples. An event
//! is compared with its clock without rounding, by cross multiplication: a
//! beat lasts `60 / tempo` seconds and a sample `1 / sample_rate` seconds.
//!
//! There are two clocks. The playhead is rewound by every reset, and times
//! the events that end: they play again with each cycle. The samples since
//! the start are never rewound, and time the events that never end: a drone
//! plays on through every reset.

use vstd::prelude::*;

verus! {

/// How an event's edges are shaped.
#[derive(Clone, Copy, Debug, PartialEq, Eq, Structural)]
pub enum Fade {
    /// Equal-power crossfade.
    Power,
    /// Smooth polynomial crossfade.
    Smooth,
}

/// What an event plays. Frequencies are in hundredths of a hertz.
#[derive(Clone, Copy, Debug, PartialEq, Eq, Structural)]
pub enum Generator {
    /// A short burst of filtered noise.
    Click,
    /// A tuned tone. With a duration (in milliseconds) it decays and ends;
    /// without one it sustains. `voices` is the number of tones that sound
    /// together with it, itself included.
    Tone { frequency: u32, duration_ms: Option<u32>, voices: usize },
    /// Nothing at all.
    Silence,
}

/// A generator bound to the interval `[start, end)` of a cycle, in beats.
/// An event without an end never stops.
#[derive(Clone, Copy, Debug, PartialEq, Eq, Structural)]
pub struct Event {
    pub start: u32,
    pub end: Option<u32>,
    pub fade: Fade,
    pub fade_in_ms: u32,
    pub fade_out_ms: u32,
    pub generator: Generator,
}

/// The place of an event in its sequencer.
#[derive(Clone, Copy, Debug, PartialEq, Eq, Structural)]
pub struct EventId(pub usize);

/// The length of the fades at both edges of every scheduled event.
pub const EDGE_FADE_MS: u32 = 1;

/// The clock by which an event is timed: an event that ends goes by the
/// playhead, which a reset rewinds; an event that never ends goes by the
/// samples since the start, which nothing rewinds.
pub open spec fn event_clock(event: Event, playhead: int, elapsed: int) -> int {
    if event.end is None {
        elapsed
    } else {
        playhead
    }
}

/// Whether `event` sounds when its clock stands at `now` samples.
pub open spec fn event_active(event: Event, now: int, tempo: int, sample_rate: int) -> bool {
    &&& event.start * 60 * sample_rate <= now * tempo
    &&& match event.end {
        Some(end) => now * tempo < end * 60 * sample_rate,
        None => true,
    }
}

/// The indices below `n` of the events that sound, each by its own clock,
/// ascending.
pub open spec fn active_below(
    events: Seq<Event>,
    n: int,
    playhead: int,
    elapsed: int,
    tempo: int,
    sample_rate: int,
) -> Seq<EventId>
    decreases n,
{
    if n <= 0 {
        Seq::empty()
    } else {
        let rest = active_below(events, n - 1, playhead, elapsed, tempo, sample_rate);
        if n <= events.len() && event_active(
            events[n - 1],
            event_clock(events[n - 1], playhead, elapsed),
            tempo,
            sample_rate,
        ) {
            rest.push(EventId((n - 1) as usize))
        } else {
            rest
        }
    }
}

/// An event that lasts from beat `start` to beat `end`, with the usual fades.
pub open spec fn bounded_event(start: u32, end: u32, generator: Generator) -> Event {
    Event {
        start,
        end: Some(end),
        fade: Fade::Smooth,
        fade_in_ms: EDGE_FADE_MS,
        fade_out_ms: EDGE_FADE_MS,
        generator,
    }
}

/// An event that starts with the session and never ends.
pub open spec fn endless_event(generator: Generator) -> Event {
    Event {
        start: 0,
        end: None,
        fade: Fade::Smooth,
        fade_in_ms: EDGE_FADE_MS,
        fade_out_ms: EDGE_FADE_MS,
        generator,
    }
}

/// Events and their two clocks.
pub struct Sequencer {
    pub events: Vec<Event>,
    /// Beats per minute at which the schedule was laid out.
    pub tempo: u32,
    /// Samples per second of the clocks.
    pub sample_rate: u32,
    /// Samples since the last reset: the clock of the events that end.
    pub playhead: u64,
    /// Samples since the start: the clock of the events that never end.
    pub elapsed: u64,
}

/// The sample rate of a sequencer until it is told another.
pub const DEFAULT_SAMPLE_RATE: u32 = 44100;

/// A clock after one more sample; it stays where it is once it can count no
/// further.
pub open spec fn ticked(clock: u64) -> u64 {
    if clock < u64::MAX {
        (clock + 1) as u64
    } else {
        clock
    }
}

/// What a reset makes of a sequencer: the playhead is rewound, and the
/// samples since the start stay as they are.
pub open spec fn rewound(s: Sequencer) -> Sequencer {
    Sequencer {
        events: s.events,
        tempo: s.tempo,
        sample_rate: s.sample_rate,
        playhead: 0,
        elapsed: s.elapsed,
    }
}

/// What one sample makes of a sequencer: both clocks move on.
pub open spec fn advanced(s: Sequencer) -> Sequencer {
    Sequencer {
        events: s.events,
        tempo: s.tempo,
        sample_rate: s.sample_rate,
        playhead: ticked(s.playhead),
        elapsed: ticked(s.elapsed),
    }
}

impl Sequencer {
    /// The events that sound, in the order they were pushed.
    pub open spec fn active(&self) -> Seq<EventId> {
        active_below(
            self.events@,
            self.events@.len() as int,
            self.playhead as int,
            self.elapsed as int,
            self.tempo as int,
            self.sample_rate as int,
        )
    }

    /// Whether the sequencers differ in their events at most.
    pub open spec fn same_clocks(&self, other: Sequencer) -> bool {
        &&& self.tempo == other.tempo
        &&& self.sample_rate == other.sample_rate
        &&& self.playhead == other.playhead
        &&& self.elapsed == other.elapsed
    }

    /// An empty sequencer for a schedule laid out at `tempo` beats per minute.
    pub fn new(tempo: u32) -> (s: Sequencer)
        ensures
            s.events@ == Seq::<Event>::empty(),
            s.tempo == tempo,
            s.sample_rate == DEFAULT_SAMPLE_RATE,
            s.playhead == 0,
            s.elapsed == 0,
    {
        Sequencer {
            events: Vec::new(),
            tempo,
            sample_rate: DEFAULT_SAMPLE_RATE,
            playhead: 0,
            elapsed: 0,
        }
    }

    /// Sets the number of samples per second.
    pub fn set_sample_rate(&mut self, sample_rate: u32)
        ensures
            final(self).events == old(self).events,
            final(self).tempo == old(self).tempo,
            final(self).playhead == old(self).playhead,
            final(self).elapsed == old(self).elapsed,
            final(self).sample_rate == sample_rate,
    {
        self.sample_rate = sample_rate;
    }

    /// Adds an event and returns its place.
    pub fn push(&mut self, event: Event) -> (id: EventId)
        ensures
            final(self).events@ == old(self).events@.push(event),
            id.0 == old(self).events@.len(),
            final(self).same_clocks(*old(self)),
    {
        let id = EventId(self.events.len());
        self.events.push(event);
        id
    }

    /// Whether the event at `id` sounds, by its own clock. An `id` that
    /// names no event sounds never.
    pub fn is_active(&self, id: EventId) -> (b: bool)
        ensures
            b == (id.0 < self.events@.len() && event_active(
                self.events@[id.0 as int],
                event_clock(self.events@[id.0 as int], self.playhead as int, self.elapsed as int),
                self.tempo as int,
                self.sample_rate as int,
            )),
    {
        if id.0 >= self.events.len() {
            return false;
        }
        let event = self.events[id.0];
        let clock: u64 = match event.end {
            Some(_) => self.playhead,
            None => self.elapsed,
        };
        assert(clock * self.tempo <= 0xffff_ffff_ffff_ffff * 0xffff_ffff) by (nonlinear_arith);
        let now: u128 = (clock as u128) * (self.tempo as u128);
        let rate: u128 = 60u128 * (self.sample_rate as u128);
        assert(event.start * rate <= 0xffff_ffff * (60 * 0xffff_ffff)) by (nonlinear_arith)
            requires
                rate <= 60 * 0xffff_ffff,
        ;
        assert(event.start * rate == event.start * 60 * self.sample_rate) by (nonlinear_arith)
            requires
                rate == 60 * self.sample_rate,
        ;
        let started = (event.start as u128) * rate <= now;
        match event.end {
            Some(end) => {
                assert(end * rate <= 0xffff_ffff * (60 * 0xffff_ffff)) by (nonlinear_arith)
                    requires
                        rate <= 60 * 0xffff_ffff,
                ;
                assert(end * rate == end * 60 * self.sample_rate) by (nonlinear_arith)
                    requires
                        rate == 60 * self.sample_rate,
                ;
                started && now < (end as u128) * rate
            },
            None => started,
        }
    }

    /// Lists the events that sound.
    pub fn active_events(&self) -> (ids: Vec<EventId>)
        ensures
            ids@ == self.active(),
    {
        let mut ids: Vec<EventId> = Vec::new();
        let mut i: usize = 0;
        while i < self.events.len()
            invariant
                i <= self.events@.len(),
                ids@ == active_below(
                    self.events@,
                    i as int,
                    self.playhead as int,
                    self.elapsed as int,
                    self.tempo as int,
                    self.sample_rate as int,
                ),
            decreases self.events@.len() - i,
        {
            if self.is_active(EventId(i)) {
                ids.push(EventId(i));
            }
            i += 1;
        }
        ids
    }

    /// Moves both clocks on by one sample.
    pub fn advance(&mut self)
        ensures
            *final(self) == advanced(*old(self)),
    {
        if self.playhead < u64::MAX {
            self.playhead += 1;
        }
        if self.elapsed < u64::MAX {
            self.elapsed += 1;
        }
    }

    /// Rewinds the playhead, so that every event that ends plays again from
    /// its start. The events that never end play on.
    pub fn reset(&mut self)
        ensures
            *final(self) == rewound(*old(self)),
    {
        self.playhead = 0;
    }
}

/// Resetting twice in a row leaves the sequencer as resetting once does, and
/// so the same events sound at every sample that follows.
pub proof fn reset_twice_is_reset_once(s: Sequencer)
    ensures
        rewound(rewound(s)) == rewound(s),
        rewound(rewound(s)).active() == rewound(s).active(),
        advanced(rewound(rewound(s))) == advanced(rewound(s)),
{
}

/// A reset does not reach an event that never ends: its clock stands where
/// it stood, and it sounds after the reset exactly if it sounded before.
pub proof fn resets_pass_endless_events_by(s: Sequencer, event: Event)
    requires
        event.end is None,
    ensures
        event_clock(event, rewound(s).playhead as int, rewound(s).elapsed as int) == event_clock(
            event,
            s.playhead as int,
            s.elapsed as int,
        ),
        event_clock(event, s.playhead as int, s.elapsed as int) == s.elapsed,
        event_active(
            event,
            event_clock(event, rewound(s).playhead as int, rewound(s).elapsed as int),
            rewound(s).tempo as int,
            rewound(s).sample_rate as int,
        ) == event_active(
            event,
            event_clock(event, s.playhead as int, s.elapsed as int),
            s.tempo as int,
            s.sample_rate as int,
        ),
{
}

/// An event that never ends, once it sounds, sounds on: at the next sample
/// too, whether or not a reset comes between.
pub proof fn endless_events_sound_on(s: Sequencer, event: Event)
    requires
        event.end is None,
        event_active(
            event,
            event_clock(event, s.playhead as int, s.elapsed as int),
            s.tempo as int,
            s.sample_rate as int,
        ),
    ensures
        event_active(
            event,
            event_clock(event, advanced(s).playhead as int, advanced(s).elapsed as int),
            s.tempo as int,
            s.sample_rate as int,
        ),
        event_active(
            event,
            event_clock(
                event,
                rewound(advanced(s)).playhead as int,
                rewound(advanced(s)).elapsed as int,
            ),
            s.tempo as int,
            s.sample_rate as int,
        ),
{
    assert(s.elapsed * s.tempo <= ticked(s.elapsed) * s.tempo) by (nonlinear_arith)
        requires
            s.elapsed <= ticked(s.elapsed),
    ;
}

/// An event that starts with the session and never ends sounds at every
/// sample.
pub proof fn endless_events_always_sound(
    generator: Generator,
    playhead: u64,
    elapsed: u64,
    tempo: u32,
    sample_rate: u32,
)
    ensures
        event_active(
            endless_event(generator),
            event_clock(endless_event(generator), playhead as int, elapsed as int),
            tempo as int,
            sample_rate as int,
        ),
{
    assert(0 <= elapsed * tempo) by (nonlinear_arith);
    assert(0 * 60 * sample_rate == 0) by (nonlinear_arith);
}

/// Events that follow one another never sound together: where one ends no
/// later than the other starts, at most one of them sounds at any time of
/// their clock.
pub proof fn events_in_a_row_take_turns(
    first: Event,
    second: Event,
    now: u64,
    tempo: u32,
    sample_rate: u32,
)
    requires
        first.end is Some,
        first.end->0 <= second.start,
    ensures
        !(event_active(first, now as int, tempo as int, sample_rate as int) && event_active(
            second,
            now as int,
            tempo as int,
            sample_rate as int,
        )),
{
    assert(first.end->0 * 60 * sample_rate <= second.start * 60 * sample_rate)
        by (nonlinear_arith)
        requires
            first.end->0 <= second.start,
            0 <= sample_rate,
    ;
}

} // verus!
