use metronome::cli::CliOptions;
use metronome::config::{AppConfig, Tones};
use metronome::tones::ToneMap;
use std::collections::HashMap;

fn base_cli() -> CliOptions {
    CliOptions {
        bpm: 120,
        file: None,
        drop_beats: None,
        drop_rate: None,
        ramp: None,
        change_rate: None,
        drone: None,
        tones: None,
        progression: None,
        beats_per: None,
        harmonic: false,
        record: false,
        analyze: false,
    }
}

fn strings(items: &[&str]) -> Vec<String> {
    items.iter().map(|s| s.to_string()).collect()
}

fn as_hash_map(map: &ToneMap) -> HashMap<String, Vec<String>> {
    map.chords.iter().map(|chord| (chord.id.clone(), chord.notes.clone())).collect()
}

fn error_of(cli: CliOptions) -> String {
    AppConfig::from_cli(cli).unwrap_err()
}

#[test]
fn bpm_is_a_number() {
    let config = AppConfig::from_cli(base_cli()).unwrap();
    assert_eq!(config.bpm, 120);
}

#[test]
fn drop_beats_is_a_tuple_given_two_nums() {
    let cli = CliOptions { drop_beats: Some(String::from("4,8")), ..base_cli() };
    let config = AppConfig::from_cli(cli).unwrap();
    assert_eq!(config.drop_beats, Some((4, 8)));
}

#[test]
fn drop_beats_is_a_tuple_given_one_num() {
    let cli = CliOptions { drop_beats: Some(String::from("4")), ..base_cli() };
    let config = AppConfig::from_cli(cli).unwrap();
    assert_eq!(config.drop_beats, Some((4, 4)));
}

#[test]
fn drop_rate_is_a_number() {
    let cli = CliOptions { drop_rate: Some(50), ..base_cli() };
    let config = AppConfig::from_cli(cli).unwrap();
    assert_eq!(config.drop_rate, Some(50));
}

#[test]
fn ramp_is_a_number() {
    let cli = CliOptions { ramp: Some(150), ..base_cli() };
    let config = AppConfig::from_cli(cli).unwrap();
    assert_eq!(config.ramp, Some(150));
}

#[test]
fn change_rate_is_a_number() {
    let cli = CliOptions { change_rate: Some(50), ..base_cli() };
    let config = AppConfig::from_cli(cli).unwrap();
    assert_eq!(config.change_rate, Some(50));
}

#[test]
fn drone_is_a_vec_of_strings() {
    let cases: [(&str, Vec<&str>); 2] =
        [("A2", vec!["A2"]), ("A#5,Ab2,Bb3,C#4", vec!["A#5", "Ab2", "Bb3", "C#4"])];
    for (drone, expected) in cases {
        let cli = CliOptions { drone: Some(String::from(drone)), ..base_cli() };
        let config = AppConfig::from_cli(cli).unwrap();
        assert_eq!(config.drone, Some(strings(&expected)));
    }
}

#[test]
fn get_drone_fails_if_note_is_invalid() {
    for drone in ["H", "A3,B3,C3,Z3", "A3,B3,C3,H3", "A3,B3,C3,D3,E3", "A,B3,C3", "A&", "Ab9"] {
        let cli = CliOptions { drone: Some(String::from(drone)), harmonic: true, ..base_cli() };
        let config = AppConfig::from_cli(cli);
        assert!(config.is_err());
    }
}

#[test]
fn tones_list_is_a_vec_of_strings() {
    let cases: [(&str, Vec<&str>); 2] =
        [("A2", vec!["A2"]), ("A#5,Ab2,Bb3,C#4", vec!["A#5", "Ab2", "Bb3", "C#4"])];
    for (tones, expected) in cases {
        let cli = CliOptions { tones: Some(String::from(tones)), harmonic: true, ..base_cli() };
        let config = AppConfig::from_cli(cli).unwrap();
        assert_eq!(config.tones, Some(Tones::List(strings(&expected))));
    }
}

#[test]
fn tones_list_fails_on_invalid_input() {
    for tones in ["H", "A3,B3,C3,Z3", "A3,B3,C3,H3", "A3,B3,C3,G3,F3", "A,B3,C3", "A&", "Ab9"] {
        let cli = CliOptions { tones: Some(String::from(tones)), harmonic: true, ..base_cli() };
        let config = AppConfig::from_cli(cli);
        assert!(config.is_err());
    }
}

#[test]
fn tones_map_is_a_hashmap_of_strings() {
    let cases: [(&str, Vec<&str>, Vec<Vec<&str>>, &str); 2] = [
        ("Cmaj(A5 B2 C3)", vec!["Cmaj"], vec![vec!["A5", "B2", "C3"]], "Cmaj"),
        (
            "Cmaj(A5 B2 C3),yyy(Ab3 G#2)",
            vec!["Cmaj", "yyy"],
            vec![vec!["A5", "B2", "C3"], vec!["Ab3", "G#2"]],
            "Cmaj,yyy,Cmaj",
        ),
    ];
    for (tones, expected_keys, expected_values, progression) in cases {
        let cli = CliOptions {
            tones: Some(String::from(tones)),
            beats_per: Some(String::from("4")),
            progression: Some(String::from(progression)),
            harmonic: true,
            ..base_cli()
        };
        let config = AppConfig::from_cli(cli).unwrap();
        let expected_map: HashMap<String, Vec<String>> = expected_keys
            .iter()
            .zip(expected_values.iter())
            .map(|(k, v)| (k.to_string(), v.iter().map(|s| s.to_string()).collect()))
            .collect();
        match config.tones {
            Some(Tones::Chords(map)) => {
                assert_eq!(as_hash_map(&map), expected_map);
                assert_eq!(map.len(), expected_keys.len());
                for (key, value) in expected_keys.iter().zip(expected_values.iter()) {
                    assert!(map.contains_key(key));
                    assert_eq!(map.get(key), Some(&strings(value)));
                }
                assert_eq!(map.get("nothing"), None);
            }
            other => panic!("expected chords, got {:?}", other),
        }
    }
}

#[test]
fn invalid_tone_map_keys_fail() {
    let cases = [
        ("12345678910(A1 B2 C3)", "12345678910"),
        ("{(A1 B2 C3)", "{"),
        ("a (A1 B2 C3)", "a "),
    ];
    for (tones, progression) in cases {
        let cli = CliOptions {
            tones: Some(String::from(tones)),
            progression: Some(String::from(progression)),
            beats_per: Some(String::from("4")),
            harmonic: true,
            ..base_cli()
        };
        let config = AppConfig::from_cli(cli);
        assert!(config.is_err());
    }
}

#[test]
fn invalid_tone_map_values_fail() {
    let cases = [
        "A(H)",
        "A(A3,B3,C3,Z3)",
        "A(A3,B3,C3,C2,C1)",
        "A(H3,B3,C3)",
        "A(A4,B,C3)",
        "A(A&)",
        "A(Ab9)",
        "A(A3),B(B3),C(C3),D(D3),E(E3),F(F3),G(G3)A(G3),B(F3),C(E3),D(D3),E(D3),F(B3),G(A3)",
    ];
    for tones in cases {
        let cli = CliOptions { tones: Some(String::from(tones)), harmonic: true, ..base_cli() };
        let config = AppConfig::from_cli(cli);
        assert!(config.is_err());
    }
}

#[test]
fn progression_works_with_beats_per_same_length() {
    let cli = CliOptions {
        progression: Some(String::from("Cmaj,Dmin,E7")),
        beats_per: Some(String::from("4,3,2")),
        harmonic: true,
        ..base_cli()
    };
    let config = AppConfig::from_cli(cli).unwrap();
    assert_eq!(config.progression, Some(strings(&["Cmaj", "Dmin", "E7"])));
    assert_eq!(config.beats_per, Some(vec![4, 3, 2]));
}

#[test]
fn progression_fails_if_len_over_24() {
    let cli = CliOptions {
        progression: Some(String::from("1,2,1,2,1,2,1,2,1,2,1,2,1,2,1,2,1,2,1,2,1,2,1,2,1")),
        tones: Some(String::from("1(A3),2(B3)")),
        beats_per: Some(String::from("4")),
        harmonic: true,
        ..base_cli()
    };
    assert_eq!(error_of(cli), "Progression must be at most 24 chords long");
}

#[test]
fn progression_of_24_chords_is_accepted() {
    let cli = CliOptions {
        progression: Some(String::from("1,2,1,2,1,2,1,2,1,2,1,2,1,2,1,2,1,2,1,2,1,2,1,2")),
        tones: Some(String::from("1(A3),2(B3)")),
        beats_per: Some(String::from("4")),
        harmonic: true,
        ..base_cli()
    };
    let config = AppConfig::from_cli(cli).unwrap();
    assert_eq!(config.progression.unwrap().len(), 24);
}

#[test]
fn progression_works_with_beats_per_single_value() {
    let cli = CliOptions {
        progression: Some(String::from("Cmaj,Dmin,E7")),
        beats_per: Some(String::from("4")),
        harmonic: true,
        ..base_cli()
    };
    let config = AppConfig::from_cli(cli).unwrap();
    assert_eq!(config.progression, Some(strings(&["Cmaj", "Dmin", "E7"])));
    assert_eq!(config.beats_per, Some(vec![4]));
}

#[test]
fn progression_and_beats_per_length_mismatch() {
    let cli = CliOptions {
        progression: Some(String::from("Cmaj,Dmin,E7")),
        beats_per: Some(String::from("4,3")),
        harmonic: true,
        ..base_cli()
    };
    assert_eq!(
        error_of(cli),
        "If progression is set, beats-per must be the same length, or a single number."
    );
}

#[test]
fn progression_and_tones_mismatch() {
    let cli = CliOptions {
        progression: Some(String::from("Cmaj,Dmin,E7")),
        tones: Some(String::from("Cmaj(A1 B2 C3),Dmin(Ab3 G#2)")),
        harmonic: true,
        ..base_cli()
    };
    let config = AppConfig::from_cli(cli);
    assert!(config.is_err());
}

#[test]
fn progression_and_tones_with_other_names_are_refused() {
    for (tones, progression) in [
        ("Cmaj(A2 B2 C3),Dmin(Ab3 G#2)", "Cmaj,Dmin,E7"),
        ("Cmaj(A2 B2 C3),Dmin(Ab3 G#2)", "Cmaj"),
    ] {
        let cli = CliOptions {
            progression: Some(String::from(progression)),
            tones: Some(String::from(tones)),
            beats_per: Some(String::from("2")),
            harmonic: true,
            ..base_cli()
        };
        assert_eq!(
            error_of(cli),
            "If progression is set, tones should represent chords matching the progression."
        );
    }
}

#[test]
fn no_tones_progression_or_beats_per_if_not_harmonic() {
    let cli = CliOptions {
        progression: Some(String::from("Cmaj,Dmin,E7")),
        beats_per: Some(String::from("4,3,2")),
        ..base_cli()
    };
    assert_eq!(
        error_of(cli),
        "Cannot set tones, progression, or beats-per if click is not harmonic."
    );
}

#[test]
fn no_simultaneous_drop_beats_and_drop_rate() {
    let cli =
        CliOptions { drop_beats: Some(String::from("4,8")), drop_rate: Some(50), ..base_cli() };
    assert_eq!(
        error_of(cli),
        "Cannot set both drop-beats and drop-rate. Please choose one or the other."
    );
}

#[test]
fn no_drop_beats_or_rate_with_ramp() {
    let cli = CliOptions { drop_beats: Some(String::from("4,8")), ramp: Some(150), ..base_cli() };
    assert_eq!(error_of(cli), "Cannot drop beats if ramp is set. Please choose one or the other.");
    let cli = CliOptions { drop_rate: Some(10), ramp: Some(150), ..base_cli() };
    assert_eq!(error_of(cli), "Cannot drop beats if ramp is set. Please choose one or the other.");
}

#[test]
fn progression_requires_beats_per() {
    let cli = CliOptions {
        progression: Some(String::from("Cmaj,Dmin,E7")),
        harmonic: true,
        ..base_cli()
    };
    assert_eq!(
        error_of(cli),
        "If progression is set, beats-per must also be set. Please set beats-per."
    );
}

#[test]
fn no_simultaneous_drone_and_tones() {
    let cli = CliOptions {
        drone: Some(String::from("A1")),
        tones: Some(String::from("Cmaj(A1 B2 C3)")),
        harmonic: true,
        ..base_cli()
    };
    let config = AppConfig::from_cli(cli);
    assert!(config.is_err());
    let cli = CliOptions {
        drone: Some(String::from("A2")),
        tones: Some(String::from("C3,E3")),
        harmonic: true,
        ..base_cli()
    };
    assert_eq!(error_of(cli), "Cannot set both drone and tones. Please choose one or the other.");
}

#[test]
fn tones_map_needs_progression_and_beats_per() {
    let cli = CliOptions {
        tones: Some(String::from("Cmaj(A2 B2 C3)")),
        harmonic: true,
        ..base_cli()
    };
    assert_eq!(error_of(cli), "If tones is a map, progression and beats-per must also be set.");
}

#[test]
fn numbers_out_of_range_are_named() {
    let cli = CliOptions { bpm: 29, ..base_cli() };
    assert_eq!(error_of(cli), "Invalid value for bpm: 29 is outside the range [30, 300]");
    let cli = CliOptions { bpm: 301, ..base_cli() };
    assert_eq!(error_of(cli), "Invalid value for bpm: 301 is outside the range [30, 300]");
    let cli = CliOptions { drop_rate: Some(0), ..base_cli() };
    assert_eq!(error_of(cli), "Invalid value for drop-rate: 0 is outside the range [1, 99]");
    let cli = CliOptions { drop_rate: Some(100), ..base_cli() };
    assert_eq!(error_of(cli), "Invalid value for drop-rate: 100 is outside the range [1, 99]");
    let cli = CliOptions { ramp: Some(1000), ..base_cli() };
    assert_eq!(error_of(cli), "Invalid value for ramp: 1000 is outside the range [30, 300]");
    let cli = CliOptions { change_rate: Some(255), ..base_cli() };
    assert_eq!(error_of(cli), "Invalid value for change-rate: 255 is outside the range [1, 99]");
    for bpm in [30, 300] {
        assert!(AppConfig::from_cli(CliOptions { bpm, ..base_cli() }).is_ok());
    }
}

#[test]
fn the_first_fault_is_the_one_reported() {
    let cli = CliOptions {
        bpm: 10,
        drop_rate: Some(0),
        drone: Some(String::from("H")),
        ..base_cli()
    };
    assert_eq!(error_of(cli), "Invalid value for bpm: 10 is outside the range [30, 300]");
    let cli = CliOptions {
        drone: Some(String::from("H")),
        drop_beats: Some(String::from("x")),
        ..base_cli()
    };
    assert!(error_of(cli).starts_with("Invalid note format for H."));
}

#[test]
fn list_errors_are_spelled_out() {
    let note_help = ". Expected format: <note><octave> where <note> is a letter A-G, followed by an optional # or b, and <octave> is a number 1-6";
    let chord_help = ". Expected format: <ID>(<notes>) where <ID> is made of alphanumeric characters and special characters _ + - #";
    let cli = CliOptions { drone: Some(String::from("A3, Z3")), ..base_cli() };
    assert_eq!(error_of(cli), format!("Invalid note format for Z3{}", note_help));
    let cli = CliOptions { drone: Some(String::from("A3,B3,C3,D3,E3")), ..base_cli() };
    assert_eq!(error_of(cli), "Note list must contain between 1 and 4 notes.");
    let cli =
        CliOptions { tones: Some(String::from("A3,B3,C3,D3,E3")), harmonic: true, ..base_cli() };
    assert_eq!(error_of(cli), "Note list must contain between 1 and 4 notes.");
    let cli = CliOptions { tones: Some(String::from("?")), harmonic: true, ..base_cli() };
    assert_eq!(error_of(cli), "Received an unexpected value for tones: ?.");
    let cli = CliOptions {
        tones: Some(String::from("A(A3),B(B3),C(C3),D(D3),E(E3),F(F3),G(G3),H(A3),I(A3),J(A3),K(A3)")),
        harmonic: true,
        ..base_cli()
    };
    assert_eq!(error_of(cli), "Chord list must contain between 1 and 10 chords.");
    let cli =
        CliOptions { tones: Some(String::from("A(A3),B(B3")), harmonic: true, ..base_cli() };
    assert_eq!(error_of(cli), format!("Invalid chord format for B(B3{}", chord_help));
    let cli =
        CliOptions { tones: Some(String::from("A(A3)(B3)")), harmonic: true, ..base_cli() };
    assert_eq!(error_of(cli), format!("Invalid chord format for A(A3)(B3){}", chord_help));
    let cli =
        CliOptions { tones: Some(String::from("A(A3 X3)")), harmonic: true, ..base_cli() };
    assert_eq!(error_of(cli), format!("Invalid note format for X3{}", note_help));
    let cli = CliOptions {
        tones: Some(String::from("A(A3 B3 C3 D3 E3)")),
        harmonic: true,
        ..base_cli()
    };
    assert_eq!(error_of(cli), "Note list must contain between 1 and 4 notes.");
    let cli = CliOptions { drop_beats: Some(String::from("1,2,3")), ..base_cli() };
    assert_eq!(error_of(cli), "Invalid number of values for drop-beats: 3. Expected 1 or 2.");
    let cli = CliOptions { drop_beats: Some(String::from("1,x")), ..base_cli() };
    assert_eq!(
        error_of(cli),
        "Problem parsing value 'x' for drop-beats: invalid digit found in string"
    );
    let cli = CliOptions { drop_beats: Some(String::from("256")), ..base_cli() };
    assert_eq!(
        error_of(cli),
        "Problem parsing value '256' for drop-beats: number too large to fit in target type"
    );
    let cli = CliOptions { beats_per: Some(String::from("4,")), harmonic: true, ..base_cli() };
    assert_eq!(
        error_of(cli),
        "Problem parsing value '' for beats-per: cannot parse integer from empty string"
    );
}

#[test]
fn a_later_chord_takes_the_place_of_an_earlier_one() {
    let cli = CliOptions {
        tones: Some(String::from("X(A3), Y(B3) ,X( C3  D3 )")),
        progression: Some(String::from("X,Y")),
        beats_per: Some(String::from("1,2")),
        harmonic: true,
        ..base_cli()
    };
    let config = AppConfig::from_cli(cli).unwrap();
    match config.tones {
        Some(Tones::Chords(map)) => {
            assert_eq!(map.len(), 2);
            assert_eq!(map.get("X"), Some(&strings(&["C3", "D3"])));
            assert_eq!(map.get("Y"), Some(&strings(&["B3"])));
        }
        other => panic!("expected chords, got {:?}", other),
    }
}

#[test]
fn a_note_is_the_whole_text() {
    let note_help = ". Expected format: <note><octave> where <note> is a letter A-G, followed by an optional # or b, and <octave> is a number 1-6";
    let cli = CliOptions { drone: Some(String::from("A3x")), ..base_cli() };
    assert_eq!(error_of(cli), format!("Invalid note format for A3x{}", note_help));
    let cli = CliOptions { drone: Some(String::from(" A3 ,C#4xyz")), ..base_cli() };
    assert_eq!(error_of(cli), format!("Invalid note format for C#4xyz{}", note_help));
    let cli =
        CliOptions { tones: Some(String::from("A3,B3 2")), harmonic: true, ..base_cli() };
    assert_eq!(error_of(cli), format!("Invalid note format for B3 2{}", note_help));
    let cli = CliOptions { tones: Some(String::from("A33")), harmonic: true, ..base_cli() };
    assert_eq!(error_of(cli), format!("Invalid note format for A33{}", note_help));
    let cli = CliOptions {
        tones: Some(String::from("X(A3 Bb4b)")),
        progression: Some(String::from("X")),
        beats_per: Some(String::from("1")),
        harmonic: true,
        ..base_cli()
    };
    assert_eq!(error_of(cli), format!("Invalid note format for Bb4b{}", note_help));

    // What is let through are whole notes, trimmed, and each has a frequency.
    let cli = CliOptions { drone: Some(String::from(" A3 ,C#4")), ..base_cli() };
    let config = AppConfig::from_cli(cli).unwrap();
    assert_eq!(config.drone, Some(strings(&["A3", "C#4"])));
    for note in config.drone.unwrap() {
        assert!(metronome::helpers::note_to_frequency(&note).is_some());
        assert!(metronome::helpers::spells_note(&note));
    }
    assert!(!metronome::helpers::spells_note("A3x"));
    assert!(!metronome::helpers::spells_note(""));
}

#[test]
fn change_rate_without_ramp_is_warned_of() {
    let config =
        AppConfig::from_cli(CliOptions { change_rate: Some(5), ..base_cli() }).unwrap();
    assert_eq!(
        config.change_rate_warning(),
        Some(
            "Warning: change-rate is set but ramp is not. change-rate will be ignored."
                .to_string()
        )
    );
    let config = AppConfig::from_cli(CliOptions {
        change_rate: Some(5),
        ramp: Some(100),
        ..base_cli()
    })
    .unwrap();
    assert_eq!(config.change_rate_warning(), None);
    assert_eq!(AppConfig::from_cli(base_cli()).unwrap().change_rate_warning(), None);
}

#[test]
fn what_is_read_passes_the_check_and_what_is_bent_does_not() {
    let read = AppConfig::from_cli(CliOptions {
        tones: Some(String::from("X(A3),Y(B3 C4)")),
        progression: Some(String::from("X,Y,X")),
        beats_per: Some(String::from("2")),
        harmonic: true,
        ..base_cli()
    })
    .unwrap();
    assert!(read.check());
    assert!(AppConfig::from_cli(base_cli()).unwrap().check());

    let mut bent = read.clone();
    bent.bpm = 29;
    assert!(!bent.check());
    let mut bent = read.clone();
    bent.drop_rate = Some(100);
    assert!(!bent.check());
    let mut bent = read.clone();
    bent.ramp = Some(301);
    assert!(!bent.check());
    let mut bent = read.clone();
    bent.change_rate = Some(0);
    assert!(!bent.check());
    let mut bent = read.clone();
    bent.progression = Some(strings(&["X"; 25]));
    assert!(!bent.check());
    let mut bent = read.clone();
    bent.progression = Some(strings(&["X", "Z"]));
    assert!(!bent.check());
    let mut bent = read.clone();
    bent.beats_per = Some(vec![1, 2]);
    assert!(!bent.check());
    let mut bent = read.clone();
    bent.harmonic = false;
    assert!(!bent.check());
    let mut bent = read.clone();
    bent.drone = Some(strings(&["A2"]));
    assert!(!bent.check());
    let mut bent = read.clone();
    bent.tones = Some(Tones::List(strings(&["A2", "B2", "C3", "D3", "E3"])));
    assert!(!bent.check());
    let mut bent = read.clone();
    if let Some(Tones::Chords(map)) = &mut bent.tones {
        map.insert("X".to_string(), strings(&["A2", "B2", "C3", "D3", "E3"]));
    }
    assert!(!bent.check());
    let mut bent = read.clone();
    bent.tones = Some(Tones::List(strings(&["A2", "B2x"])));
    assert!(!bent.check());
    let mut bent = read.clone();
    if let Some(Tones::Chords(map)) = &mut bent.tones {
        map.insert("X".to_string(), strings(&["A2", "H2"]));
    }
    assert!(!bent.check());
    let mut bent = AppConfig::from_cli(base_cli()).unwrap();
    bent.drone = Some(strings(&["A2", "A"]));
    assert!(!bent.check());
    bent.drone = Some(strings(&["A2", "B2", "C3", "D3", "E3"]));
    assert!(!bent.check());
    bent.drone = Some(strings(&["A2", "B2", "C3", "D3"]));
    assert!(bent.check());
}
