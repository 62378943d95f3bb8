use metronome::helpers::{
    note_to_frequency, parse_comma_separated, parse_comma_separated_option, validate_and_extract,
    validate_and_extract_option,
};

fn hertz(note: &str) -> Option<f32> {
    note_to_frequency(note).map(|f| f as f32 / 100.0)
}

#[test]
fn test_note_to_frequency() {
    assert_eq!(hertz("Cb2"), Some(61.74));
    assert_eq!(hertz("A4"), Some(440.0));
    assert_eq!(hertz("C4"), Some(261.63));
    assert_eq!(hertz("G#3"), Some(207.65));
    assert_eq!(hertz("Bb5"), Some(932.33));
    assert_eq!(note_to_frequency("B#5"), Some(104650));
}

#[test]
fn test_correct_enharmonics() {
    for (a, b) in [("Cb3", "B2"), ("D#4", "Eb4"), ("Ab3", "G#3"), ("Fb2", "E2"), ("E#2", "F2")] {
        assert!(note_to_frequency(a).is_some());
        assert_eq!(note_to_frequency(a), note_to_frequency(b));
    }
}

#[test]
fn test_note_to_frequency_invalid() {
    for note in ["H4", "D#0", "", "A#", "G#6", "A3x", "a3", "C#b4"] {
        assert_eq!(note_to_frequency(note), None);
    }
}

#[test]
fn test_validate_and_extract() {
    assert_eq!(validate_and_extract(50u32, 30, 100, "bpm"), Ok(50));
    assert_eq!(validate_and_extract(30u32, 30, 100, "bpm"), Ok(30));
    assert_eq!(validate_and_extract(100u32, 30, 100, "bpm"), Ok(100));
    assert_eq!(
        validate_and_extract(20u32, 30, 100, "bpm"),
        Err("Invalid value for bpm: 20 is outside the range [30, 100]".to_string())
    );
    assert_eq!(
        validate_and_extract(150u32, 30, 100, "bpm"),
        Err("Invalid value for bpm: 150 is outside the range [30, 100]".to_string())
    );
    assert_eq!(
        validate_and_extract(0u8, 1, 99, "drop-rate"),
        Err("Invalid value for drop-rate: 0 is outside the range [1, 99]".to_string())
    );
}

#[test]
fn test_validate_and_extract_option() {
    assert_eq!(validate_and_extract_option(Some(50u32), 30, 100, "bpm"), Ok(Some(50)));
    assert_eq!(validate_and_extract_option(Some(30u32), 30, 100, "bpm"), Ok(Some(30)));
    assert_eq!(validate_and_extract_option(Some(100u32), 30, 100, "bpm"), Ok(Some(100)));
    assert_eq!(
        validate_and_extract_option(Some(20u32), 30, 100, "bpm"),
        Err("Invalid value for bpm: 20 is outside the range [30, 100]".to_string())
    );
    assert_eq!(
        validate_and_extract_option(Some(150u32), 30, 100, "bpm"),
        Err("Invalid value for bpm: 150 is outside the range [30, 100]".to_string())
    );
    assert_eq!(validate_and_extract_option(None::<u32>, 30, 100, "bpm"), Ok(None));
}

#[test]
fn test_parse_comma_separated_nums() {
    let result: Result<Vec<u32>, String> = parse_comma_separated("1,2,3", "numbers");
    assert_eq!(result, Ok(vec![1, 2, 3]));
    let result: Result<Vec<u32>, String> = parse_comma_separated("1,2,abc", "numbers");
    assert!(result.unwrap_err().contains("Problem parsing value 'abc' for numbers"));
}

#[test]
fn test_parse_comma_separated_strings() {
    let result: Result<Vec<String>, String> = parse_comma_separated("one,two,three", "numbers");
    assert_eq!(result.unwrap(), vec!["one", "two", "three"]);
}

#[test]
fn test_parse_comma_separated_num_option() {
    let result: Result<Option<Vec<u32>>, String> =
        parse_comma_separated_option(Some("1,2,3".to_string()), "numbers");
    assert_eq!(result, Ok(Some(vec![1, 2, 3])));
    let result: Result<Option<Vec<u32>>, String> =
        parse_comma_separated_option(Some("1,2,abc".to_string()), "numbers");
    assert!(result.unwrap_err().contains("Problem parsing value 'abc' for numbers"));
    let result: Result<Option<Vec<u32>>, String> = parse_comma_separated_option(None, "numbers");
    assert_eq!(result, Ok(None));
}

#[test]
fn parsing_agrees_with_the_standard_library() {
    let samples = [
        "", "+", "-", "0", "007", "+5", "-5", "255", "256", "99x", "300x", "2x", " 7 ", "7 ,8",
        "4294967295", "4294967296", "99999999999999999999", "1_0", "١", "+-1", "++1", "1+",
    ];
    for text in samples {
        let ours: Result<Vec<u8>, String> = parse_comma_separated(text, "n");
        let theirs: Result<Vec<u8>, String> = text
            .split(',')
            .map(|s| {
                s.trim()
                    .parse::<u8>()
                    .map_err(|err| format!("Problem parsing value '{}' for {}: {}", s, "n", err))
            })
            .collect();
        assert_eq!(ours, theirs);
        let ours: Result<Vec<u32>, String> = parse_comma_separated(text, "n");
        let theirs: Result<Vec<u32>, String> = text
            .split(',')
            .map(|s| {
                s.trim()
                    .parse::<u32>()
                    .map_err(|err| format!("Problem parsing value '{}' for {}: {}", s, "n", err))
            })
            .collect();
        assert_eq!(ours, theirs);
    }
}
