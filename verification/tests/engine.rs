use metronome::audio::{beats_per_sequence, retrigger, retrigger_odds, sequence_samples};
use metronome::cli::CliOptions;
use metronome::config::AppConfig;
use metronome::metronome::{Frame, Metronome};
use metronome::sequencer::{Event, EventId, Fade, Generator, Sequencer};
use metronome::synth::hihat::{hihat_synth, new_hihat_pattern};
use metronome::synth::piano::{add_drone_notes, add_time_notes, electric_piano};
use metronome::synth::Synth;

fn base_cli() -> CliOptions {
    CliOptions {
        bpm: 120,
        file: None,
        drop_beats: None,
        drop_rate: None,
        ramp: None,
        change_rate: None,
        drone: None,
        tones: None,
        progression: None,
        beats_per: None,
        harmonic: false,
        record: false,
        analyze: false,
    }
}

fn config(cli: CliOptions) -> AppConfig {
    AppConfig::from_cli(cli).unwrap()
}

fn slot(start: u32, end: u32, generator: Generator) -> Event {
    Event { start, end: Some(end), fade: Fade::Smooth, fade_in_ms: 1, fade_out_ms: 1, generator }
}

fn tone(frequency: u32, duration_ms: Option<u32>, voices: usize) -> Generator {
    Generator::Tone { frequency, duration_ms, voices }
}

fn ids(from: usize, to: usize) -> Vec<EventId> {
    (from..to).map(EventId).collect()
}

fn seconds(event: &Event, bpm: u32) -> f64 {
    (event.end.unwrap() - event.start) as f64 * 60.0 / bpm as f64
}

#[test]
fn a_plain_click_is_one_event_on_one_beat() {
    let synth = Synth::from(&config(base_cli()));
    assert_eq!(synth.sequencer.events, vec![slot(0, 1, Generator::Click)]);
    assert_eq!(synth.time_events, ids(0, 1));
    assert!(synth.drone_events.is_empty());
    assert_eq!(synth.sequencer.tempo, 120);
    assert_eq!(synth.sequencer.playhead, 0);
    assert_eq!(beats_per_sequence(&config(base_cli())), 1);
}

#[test]
fn four_on_eight_off_at_120_bpm() {
    let config = config(CliOptions { drop_beats: Some("4,8".to_string()), ..base_cli() });
    let synth = Synth::from(&config);
    let events = &synth.sequencer.events;
    assert_eq!(events.len(), 12);
    for (i, event) in events.iter().enumerate() {
        let expected = if i < 4 { Generator::Click } else { Generator::Silence };
        assert_eq!(*event, slot(i as u32, i as u32 + 1, expected));
        assert_eq!(seconds(event, config.bpm), 0.5);
    }
    assert_eq!(synth.time_events, ids(0, 12));
    assert_eq!(beats_per_sequence(&config), 12);
    assert_eq!(sequence_samples(120, 44100, 12), 264600);

    // The pattern is played again at the end of every cycle.
    let mut metronome = Metronome::new(&config);
    assert_eq!(metronome.drop_rate, 0);
    let cycle = metronome.sequence_samples(1000);
    assert_eq!(cycle, 6000);
    for n in 1..=30000u64 {
        let end = metronome.next_frame(cycle);
        if n % 6000 == 0 {
            assert_eq!(end, Frame::Retriggered);
            assert_eq!(metronome.synth.sequencer.playhead, 0);
        } else {
            assert_eq!(end, Frame::Inside);
        }
    }
}

#[test]
fn a_fixed_chord_sounds_on_every_beat_that_is_on() {
    let config = config(CliOptions {
        tones: Some("A4,C#4".to_string()),
        drop_beats: Some("2,1".to_string()),
        harmonic: true,
        ..base_cli()
    });
    let synth = Synth::from(&config);
    let a = tone(44000, Some(200), 2);
    let c = tone(27718, Some(200), 2);
    assert_eq!(
        synth.sequencer.events,
        vec![slot(0, 1, a), slot(0, 1, c), slot(1, 2, a), slot(1, 2, c), slot(2, 3, Generator::Silence)]
    );
    assert_eq!(synth.time_events, ids(0, 5));
    assert_eq!(beats_per_sequence(&config), 3);

    let config = config_of_tones("A4,C#4");
    let synth = Synth::from(&config);
    assert_eq!(synth.sequencer.events, vec![slot(0, 1, a), slot(0, 1, c)]);
    assert_eq!(beats_per_sequence(&config), 1);
}

fn config_of_tones(tones: &str) -> AppConfig {
    config(CliOptions { tones: Some(tones.to_string()), harmonic: true, ..base_cli() })
}

#[test]
fn a_progression_places_each_chord_after_the_one_before() {
    let config = config(CliOptions {
        tones: Some("Cmaj(C4 E4 G4),Dmin(D4 F4 A4)".to_string()),
        progression: Some("Cmaj,Dmin".to_string()),
        beats_per: Some("2,3".to_string()),
        harmonic: true,
        ..base_cli()
    });
    let synth = Synth::from(&config);
    assert_eq!(
        synth.sequencer.events,
        vec![
            slot(0, 2, tone(26163, Some(100), 3)),
            slot(0, 2, tone(32963, Some(100), 3)),
            slot(0, 2, tone(39200, Some(100), 3)),
            slot(2, 5, tone(29366, Some(100), 3)),
            slot(2, 5, tone(34923, Some(100), 3)),
            slot(2, 5, tone(44000, Some(100), 3)),
        ]
    );
    assert_eq!(synth.time_events, ids(0, 6));
    assert!(synth.drone_events.is_empty());
    assert_eq!(beats_per_sequence(&config), 5);
    assert_eq!(sequence_samples(config.bpm, 44100, 5), 110250);
}

#[test]
fn a_progression_with_one_length_for_all_steps() {
    let config = config(CliOptions {
        tones: Some("X(C4),Y(D4 F4)".to_string()),
        progression: Some("X,Y,X".to_string()),
        beats_per: Some("4".to_string()),
        harmonic: true,
        ..base_cli()
    });
    let synth = Synth::from(&config);
    assert_eq!(
        synth.sequencer.events,
        vec![
            slot(0, 4, tone(26163, Some(100), 1)),
            slot(4, 8, tone(29366, Some(100), 2)),
            slot(4, 8, tone(34923, Some(100), 2)),
            slot(8, 12, tone(26163, Some(100), 1)),
        ]
    );
    assert_eq!(beats_per_sequence(&config), 12);
}

#[test]
fn drones_start_with_the_session_and_never_end() {
    let config = config(CliOptions { drone: Some("A2,E3".to_string()), ..base_cli() });
    let synth = Synth::from(&config);
    let endless = |generator| Event {
        start: 0,
        end: None,
        fade: Fade::Smooth,
        fade_in_ms: 1,
        fade_out_ms: 1,
        generator,
    };
    assert_eq!(
        synth.sequencer.events,
        vec![
            slot(0, 1, Generator::Click),
            endless(tone(11000, None, 2)),
            endless(tone(16481, None, 2)),
        ]
    );
    assert_eq!(synth.time_events, ids(0, 1));
    assert_eq!(synth.drone_events, ids(1, 3));

    // A harmonic click without tones has its drone all the same.
    let config =
        config_with(CliOptions { drone: Some("A2".to_string()), harmonic: true, ..base_cli() });
    let synth = Synth::from(&config);
    assert_eq!(
        synth.sequencer.events,
        vec![slot(0, 1, Generator::Click), endless(tone(11000, None, 1))]
    );
    assert_eq!(synth.drone_events, ids(1, 2));

    // Beside tones there is no drone, and none can be asked for.
    let synth = Synth::from(&config_of_tones("A4"));
    assert!(synth.drone_events.is_empty());
    assert_eq!(synth.sequencer.events, vec![slot(0, 1, tone(44000, Some(200), 1))]);
    assert!(AppConfig::from_cli(CliOptions {
        drone: Some("A2".to_string()),
        tones: Some("A4".to_string()),
        harmonic: true,
        ..base_cli()
    })
    .is_err());
}

fn config_with(cli: CliOptions) -> AppConfig {
    config(cli)
}

#[test]
fn generators_are_described_by_what_they_play() {
    assert_eq!(hihat_synth(), Generator::Click);
    assert_eq!(electric_piano("A4", Some(200), 3), tone(44000, Some(200), 3));
    assert_eq!(electric_piano("Cb3", None, 1), electric_piano("B2", None, 1));
    assert_eq!(electric_piano("nothing", None, 1), tone(0, None, 1));

    let mut sequencer = Sequencer::new(90);
    let first = new_hihat_pattern(&mut sequencer, Some((1, 1)));
    let second = add_time_notes(&vec!["E4".to_string()], &mut sequencer, 50, None);
    let third = add_drone_notes(&vec!["E2".to_string()], &mut sequencer);
    assert_eq!(first, ids(0, 2));
    assert_eq!(second, ids(2, 3));
    assert_eq!(third, ids(3, 4));
    assert_eq!(sequencer.events.len(), 4);
    assert_eq!(sequencer.events[2], slot(0, 1, tone(32963, Some(50), 1)));
}

#[test]
fn events_sound_from_their_start_to_their_end() {
    let mut sequencer = Sequencer::new(120);
    sequencer.set_sample_rate(44100);
    let first = sequencer.push(slot(0, 1, Generator::Click));
    let second = sequencer.push(slot(1, 2, Generator::Silence));
    let drone = sequencer.push(Event {
        start: 0,
        end: None,
        fade: Fade::Smooth,
        fade_in_ms: 1,
        fade_out_ms: 1,
        generator: tone(11000, None, 1),
    });
    assert_eq!((first, second, drone), (EventId(0), EventId(1), EventId(2)));
    let mut sounding = Vec::new();
    for _ in 0..44101 {
        sounding.push(sequencer.active_events());
        sequencer.advance();
    }
    for (at, active) in sounding.iter().enumerate() {
        let expected = if at < 22050 {
            vec![first, drone]
        } else if at < 44100 {
            vec![second, drone]
        } else {
            vec![drone]
        };
        assert_eq!(*active, expected, "at sample {}", at);
    }
    assert!(!sequencer.is_active(EventId(3)));
    assert!(sequencer.is_active(drone));
    assert!(!sequencer.is_active(first));
    sequencer.reset();
    assert!(sequencer.is_active(first));
    assert_eq!(sequencer.active_events(), vec![first, drone]);
}

#[test]
fn the_playhead_stops_where_it_can_count_no_further() {
    let mut sequencer = Sequencer::new(120);
    sequencer.playhead = u64::MAX - 1;
    sequencer.advance();
    assert_eq!(sequencer.playhead, u64::MAX);
    sequencer.advance();
    assert_eq!(sequencer.playhead, u64::MAX);
    assert_eq!(sequencer.elapsed, 2);
    sequencer.elapsed = u64::MAX;
    sequencer.advance();
    assert_eq!(sequencer.elapsed, u64::MAX);
}

#[test]
fn resetting_twice_is_resetting_once() {
    let config = config(CliOptions { drop_beats: Some("2,2".to_string()), ..base_cli() });
    let mut once = Synth::from(&config).sequencer;
    let mut twice = Synth::from(&config).sequencer;
    once.set_sample_rate(100);
    twice.set_sample_rate(100);
    for _ in 0..77 {
        once.advance();
        twice.advance();
    }
    once.reset();
    twice.reset();
    twice.reset();
    for _ in 0..500 {
        assert_eq!(once.playhead, twice.playhead);
        assert_eq!(once.elapsed, twice.elapsed);
        assert_eq!(once.active_events(), twice.active_events());
        once.advance();
        twice.advance();
    }
}

#[test]
fn a_cycle_is_rounded_to_the_nearest_sample() {
    assert_eq!(sequence_samples(120, 44100, 1), 22050);
    assert_eq!(sequence_samples(60, 48000, 1), 48000);
    assert_eq!(sequence_samples(90, 44100, 1), 29400);
    // 60 * 44100 / 131 = 20198.47...; 60 * 44100 / 137 = 19313.86...
    assert_eq!(sequence_samples(131, 44100, 1), 20198);
    assert_eq!(sequence_samples(137, 44100, 1), 19314);
    // 60 * 1 * 1 / 8 = 7.5, and a half goes upwards.
    assert_eq!(sequence_samples(8, 1, 1), 8);
    assert_eq!(sequence_samples(300, 44100, 0), 0);
    assert_eq!(sequence_samples(1, u32::MAX, u16::MAX), 60 * u32::MAX as u64 * u16::MAX as u64);
    for (bpm, rate, beats) in [(30u32, 44100u32, 1u16), (133, 48000, 7), (299, 96000, 510)] {
        let exact = 60.0 * rate as f64 * beats as f64 / bpm as f64;
        assert_eq!(sequence_samples(bpm, rate, beats), exact.round() as u64);
    }
}

#[test]
fn the_tempo_changes_only_within_its_range() {
    let mut metronome = Metronome::new(&config(base_cli()));
    assert_eq!(metronome.sequence_samples(44100), 22050);
    assert!(metronome.set_bpm(60));
    assert_eq!(metronome.bpm, 60);
    assert_eq!(metronome.sequence_samples(44100), 44100);
    assert!(!metronome.set_bpm(29));
    assert!(!metronome.set_bpm(301));
    assert_eq!(metronome.bpm, 60);
    assert!(metronome.set_bpm(30));
    assert!(metronome.set_bpm(300));
}

#[test]
fn what_the_counter_holds_beyond_a_cycle_is_kept() {
    let mut metronome = Metronome::new(&config(base_cli()));
    metronome.sample_counter = 9;
    assert!(!metronome.at_cycle_end(11));
    assert!(metronome.at_cycle_end(10));
    // The cycle has become shorter than what was counted: 10 - 4 stay.
    assert_eq!(metronome.frame(4, true), Frame::Retriggered);
    assert_eq!(metronome.sample_counter, 6);
    assert_eq!(metronome.synth.sequencer.playhead, 0);
    assert_eq!(metronome.frame(4, false), Frame::Dropped);
    assert_eq!(metronome.sample_counter, 3);
    assert_eq!(metronome.synth.sequencer.playhead, 1);
    assert_eq!(metronome.frame(5, true), Frame::Inside);
    assert_eq!(metronome.sample_counter, 4);
    assert_eq!(metronome.synth.sequencer.playhead, 2);
    metronome.sample_counter = u64::MAX;
    assert_eq!(metronome.frame(1, true), Frame::Inside);
    assert_eq!(metronome.sample_counter, 0);
}

#[test]
fn cycles_keep_their_phase_over_ten_thousand_cycles() {
    let mut metronome = Metronome::new(&config(CliOptions { bpm: 300, ..base_cli() }));
    let sample_rate = 8000;
    let cycle = metronome.sequence_samples(sample_rate);
    assert_eq!(cycle, 1600);
    let buffer = 512;
    assert!(cycle % buffer != 0);
    let mut frames: u64 = 0;
    let mut cycles: u64 = 0;
    while cycles < 10_000 {
        cycles += metronome.process(buffer as usize, sample_rate) as u64;
        frames += buffer;
        assert_eq!(cycles, frames / cycle);
        assert_eq!(metronome.sample_counter, frames % cycle);
        assert_eq!(metronome.synth.sequencer.playhead, frames % cycle);
    }
    assert_eq!(cycles, 10_000);
}

#[test]
fn about_half_of_the_cycles_are_dropped_at_a_rate_of_fifty() {
    let mut metronome =
        Metronome::new(&config(CliOptions { bpm: 300, drop_rate: Some(50), ..base_cli() }));
    assert_eq!(metronome.drop_rate, 50);
    let cycle = metronome.sequence_samples(5);
    assert_eq!(cycle, 1);
    let mut dropped = 0;
    for _ in 0..10_000 {
        match metronome.next_frame(cycle) {
            Frame::Dropped => dropped += 1,
            Frame::Retriggered => assert_eq!(metronome.synth.sequencer.playhead, 0),
            Frame::Inside => panic!("every frame ends a cycle"),
        }
    }
    assert!(4_500 < dropped && dropped < 5_500, "{} of 10000 dropped", dropped);
}

#[test]
fn chance_is_certain_at_the_ends() {
    let mut heads = 0;
    for _ in 0..2_000 {
        assert!(retrigger(0));
        assert!(!retrigger(100));
        if retrigger(50) {
            heads += 1;
        }
    }
    assert!(700 < heads && heads < 1_300, "{} of 2000", heads);
}

#[test]
fn a_session_is_sound_while_its_numbers_are_in_range() {
    let mut metronome =
        Metronome::new(&config(CliOptions { drop_rate: Some(99), ..base_cli() }));
    assert!(metronome.check());
    assert_eq!(metronome.drop_rate, 99);
    metronome.drop_rate = 100;
    assert!(!metronome.check());
    metronome.drop_rate = 0;
    metronome.bpm = 301;
    assert!(!metronome.check());
    metronome.bpm = 29;
    assert!(!metronome.check());
    metronome.bpm = 30;
    assert!(metronome.check());
}

#[test]
fn a_cycle_is_as_long_as_what_is_laid_out() {
    // A progression without chords by name: the click, and a cycle as long
    // as the steps together.
    let plain = config(CliOptions {
        progression: Some("a,b,c".to_string()),
        beats_per: Some("2".to_string()),
        harmonic: true,
        ..base_cli()
    });
    assert_eq!(beats_per_sequence(&plain), 6);
    assert_eq!(Synth::from(&plain).sequencer.events, vec![slot(0, 1, Generator::Click)]);
    // Beats to drop go before such a progression.
    let dropped = config(CliOptions {
        progression: Some("a,b,c".to_string()),
        beats_per: Some("2".to_string()),
        drop_beats: Some("1,2".to_string()),
        harmonic: true,
        ..base_cli()
    });
    assert_eq!(beats_per_sequence(&dropped), 3);
    // Beside chords by name the cycle is that of the progression, and beats
    // to drop silence the steps that start on a beat that is left out.
    let chords = config(CliOptions {
        tones: Some("a(C4),b(D4 F4)".to_string()),
        progression: Some("a,b,a,b".to_string()),
        beats_per: Some("2,2,3,1".to_string()),
        drop_beats: Some("2,2".to_string()),
        harmonic: true,
        ..base_cli()
    });
    assert_eq!(beats_per_sequence(&chords), 8);
    assert_eq!(
        Synth::from(&chords).sequencer.events,
        vec![
            slot(0, 2, tone(26163, Some(100), 1)),
            slot(2, 4, Generator::Silence),
            slot(4, 7, tone(26163, Some(100), 1)),
            slot(7, 8, Generator::Silence),
        ]
    );
    assert_eq!(Synth::from(&chords).time_events, ids(0, 4));
    // With no beat to sound every step is silent.
    let silent = config(CliOptions {
        tones: Some("a(C4)".to_string()),
        progression: Some("a,a".to_string()),
        beats_per: Some("3,4".to_string()),
        drop_beats: Some("0,0".to_string()),
        harmonic: true,
        ..base_cli()
    });
    assert_eq!(
        Synth::from(&silent).sequencer.events,
        vec![slot(0, 3, Generator::Silence), slot(3, 7, Generator::Silence)]
    );
    // Beats alone, without a progression, leave the cycle at one beat.
    let alone = config(CliOptions {
        beats_per: Some("5".to_string()),
        harmonic: true,
        ..base_cli()
    });
    assert_eq!(beats_per_sequence(&alone), 1);
}

#[test]
fn buffers_of_any_size_leave_the_same_session() {
    let config = config(CliOptions { drop_beats: Some("1,1".to_string()), ..base_cli() });
    let mut whole = Metronome::new(&config);
    let mut pieces = Metronome::new(&config);
    let sample_rate = 1000;
    assert_eq!(whole.sequence_samples(sample_rate), 1000);
    let cycles = whole.process(12_345, sample_rate);
    let mut counted = 0;
    let mut left = 12_345;
    for size in [7usize, 64, 1, 500, 999, 0, 13].iter().cycle() {
        if left == 0 {
            break;
        }
        let size = (*size).min(left);
        counted += pieces.process(size, sample_rate);
        left -= size;
    }
    assert_eq!(cycles, 12);
    assert_eq!(counted, cycles);
    assert_eq!(whole.sample_counter, 345);
    assert_eq!(pieces.sample_counter, whole.sample_counter);
    assert_eq!(pieces.synth.sequencer.playhead, whole.synth.sequencer.playhead);
    assert_eq!(whole.synth.sequencer.playhead, 345);
}

#[test]
fn the_odds_are_all_but_the_drop_rate_in_a_hundred() {
    assert_eq!(retrigger_odds(0), (100, 100));
    assert_eq!(retrigger_odds(1), (99, 100));
    assert_eq!(retrigger_odds(50), (50, 100));
    assert_eq!(retrigger_odds(99), (1, 100));
    assert_eq!(retrigger_odds(100), (0, 100));
}

#[test]
fn no_reset_reaches_the_drone() {
    let config = config(CliOptions { drone: Some("A2".to_string()), ..base_cli() });
    let mut metronome = Metronome::new(&config);
    let drone = metronome.synth.drone_events[0];
    let click = metronome.synth.time_events[0];
    metronome.synth.sequencer.set_sample_rate(1000);
    let cycle = metronome.sequence_samples(1000);
    assert_eq!(cycle, 500);
    for frame in 1..=1750u64 {
        let end = metronome.next_frame(cycle);
        let sequencer = &metronome.synth.sequencer;
        // The clock of the drone counts every frame; the playhead starts
        // again with every cycle.
        assert_eq!(sequencer.elapsed, frame);
        assert_eq!(sequencer.playhead, frame % cycle);
        assert_eq!(end == Frame::Retriggered, frame % cycle == 0);
        assert!(sequencer.is_active(drone));
        assert!(sequencer.is_active(click));
    }
    // A drone that starts late has started for good, whatever is reset.
    let mut sequencer = Sequencer::new(60);
    sequencer.set_sample_rate(10);
    let late = sequencer.push(Event {
        start: 2,
        end: None,
        fade: Fade::Smooth,
        fade_in_ms: 1,
        fade_out_ms: 1,
        generator: tone(11000, None, 1),
    });
    let beat = sequencer.push(slot(2, 3, Generator::Click));
    for _ in 0..19 {
        sequencer.advance();
    }
    assert!(!sequencer.is_active(late));
    assert!(!sequencer.is_active(beat));
    sequencer.advance();
    assert!(sequencer.is_active(late));
    assert!(sequencer.is_active(beat));
    sequencer.reset();
    assert_eq!((sequencer.playhead, sequencer.elapsed), (0, 20));
    assert!(sequencer.is_active(late));
    assert!(!sequencer.is_active(beat));
    assert_eq!(sequencer.active_events(), vec![late]);
}
