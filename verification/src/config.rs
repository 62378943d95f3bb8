//! The checked configuration of one run, and how it is read from the options.

use vstd::prelude::*;
use crate::cli::CliOptions;
use crate::constants::{MAX_BPM, MAX_CHORDS, MAX_NOTES, MAX_PROGRESSION, MIN_BPM};
use crate::helpers::{
    begins_with_note, is_note, note_frequency, parse_comma_separated, parse_comma_separated_option, range_problem,
    read_comma_separated, read_list, spells_note, starts_with_note, validate_and_extract,
    validate_and_extract_option, Parameter,
};
use crate::number::{decimal, render_number};
use crate::text::{chars_of, split, split_text, split_words, trim, trim_text, views, words};
use crate::tones::{chord_map, ToneMap};

verus! {

/// The tones of a harmonic click.
#[derive(Clone, Debug, PartialEq)]
pub enum Tones {
    /// Notes that sound together on every beat.
    List(Vec<String>),
    /// Chords by name, for a progression.
    Chords(ToneMap),
}

/// A configuration that has passed every check.
#[derive(Clone, Debug)]
pub struct AppConfig {
    pub bpm: u32,
    pub drop_beats: Option<(u8, u8)>,
    pub drop_rate: Option<u8>,
    pub ramp: Option<u32>,
    pub change_rate: Option<u8>,
    pub drone: Option<Vec<String>>,
    pub tones: Option<Tones>,
    pub progression: Option<Vec<String>>,
    pub beats_per: Option<Vec<u8>>,
    pub harmonic: bool,
}

/// What the tones are, in contracts.
pub enum TonesView {
    List(Seq<Seq<char>>),
    Chords(Map<Seq<char>, Seq<Seq<char>>>),
}

/// What a configuration is, in contracts.
pub struct ConfigView {
    pub bpm: u32,
    pub drop_beats: Option<(u8, u8)>,
    pub drop_rate: Option<u8>,
    pub ramp: Option<u32>,
    pub change_rate: Option<u8>,
    pub drone: Option<Seq<Seq<char>>>,
    pub tones: Option<TonesView>,
    pub progression: Option<Seq<Seq<char>>>,
    pub beats_per: Option<Seq<u8>>,
    pub harmonic: bool,
}

/// What the options are, in contracts: the fields that the configuration is
/// read from.
pub struct OptionsView {
    pub bpm: u32,
    pub drop_beats: Option<Seq<char>>,
    pub drop_rate: Option<u8>,
    pub ramp: Option<u32>,
    pub change_rate: Option<u8>,
    pub drone: Option<Seq<char>>,
    pub tones: Option<Seq<char>>,
    pub progression: Option<Seq<char>>,
    pub beats_per: Option<Seq<char>>,
    pub harmonic: bool,
}

/// What a text that may be absent is, in contracts.
pub open spec fn text_view(s: Option<String>) -> Option<Seq<char>> {
    match s {
        Some(s) => Some(s@),
        None => None,
    }
}

/// What a list that may be absent is, in contracts.
pub open spec fn list_view(list: Option<Vec<String>>) -> Option<Seq<Seq<char>>> {
    match list {
        Some(list) => Some(views(list@)),
        None => None,
    }
}

impl View for Tones {
    type V = TonesView;

    open spec fn view(&self) -> TonesView {
        match self {
            Tones::List(list) => TonesView::List(views(list@)),
            Tones::Chords(map) => TonesView::Chords(map@),
        }
    }
}

impl View for AppConfig {
    type V = ConfigView;

    open spec fn view(&self) -> ConfigView {
        ConfigView {
            bpm: self.bpm,
            drop_beats: self.drop_beats,
            drop_rate: self.drop_rate,
            ramp: self.ramp,
            change_rate: self.change_rate,
            drone: list_view(self.drone),
            tones: match self.tones {
                Some(t) => Some(t@),
                None => None,
            },
            progression: list_view(self.progression),
            beats_per: match self.beats_per {
                Some(b) => Some(b@),
                None => None,
            },
            harmonic: self.harmonic,
        }
    }
}

impl View for CliOptions {
    type V = OptionsView;

    open spec fn view(&self) -> OptionsView {
        OptionsView {
            bpm: self.bpm,
            drop_beats: text_view(self.drop_beats),
            drop_rate: self.drop_rate,
            ramp: self.ramp,
            change_rate: self.change_rate,
            drone: text_view(self.drone),
            tones: text_view(self.tones),
            progression: text_view(self.progression),
            beats_per: text_view(self.beats_per),
            harmonic: self.harmonic,
        }
    }
}

// What is said of a configuration that is refused.

/// Said of more than four notes.
pub open spec fn too_many_notes() -> Seq<char> {
    "Note list must contain between 1 and 4 notes."@
}

/// Said of more than ten chords.
pub open spec fn too_many_chords() -> Seq<char> {
    "Chord list must contain between 1 and 10 chords."@
}

/// Said of a progression of more than 24 steps.
pub open spec fn too_long_progression() -> Seq<char> {
    "Progression must be at most 24 chords long"@
}

/// Said of a text that spells no note.
pub open spec fn invalid_note(note: Seq<char>) -> Seq<char> {
    "Invalid note format for "@ + note
        + ". Expected format: <note><octave> where <note> is a letter A-G, followed by an optional # or b, and <octave> is a number 1-6"@
}

/// Said of a text that is no chord.
pub open spec fn invalid_chord(chord: Seq<char>) -> Seq<char> {
    "Invalid chord format for "@ + chord
        + ". Expected format: <ID>(<notes>) where <ID> is made of alphanumeric characters and special characters _ + - #"@
}

/// Said of tones that begin neither with a chord nor with a note.
pub open spec fn unexpected_tones(list: Seq<char>) -> Seq<char> {
    "Received an unexpected value for tones: "@ + list + "."@
}

/// Said of beats to drop that are neither one number nor two.
pub open spec fn wrong_drop_beats_count(count: nat) -> Seq<char> {
    "Invalid number of values for drop-beats: "@ + decimal(count) + ". Expected 1 or 2."@
}

/// Said of tones, a progression or beats for it beside a click that is not
/// harmonic.
pub open spec fn not_harmonic() -> Seq<char> {
    "Cannot set tones, progression, or beats-per if click is not harmonic."@
}

/// Said of chords by name without a progression or without beats for it.
pub open spec fn map_needs_progression() -> Seq<char> {
    "If tones is a map, progression and beats-per must also be set."@
}

/// Said of beats to drop beside a drop rate.
pub open spec fn both_drop_beats_and_rate() -> Seq<char> {
    "Cannot set both drop-beats and drop-rate. Please choose one or the other."@
}

/// Said of beats to drop, or a drop rate, beside a tempo to ramp to.
pub open spec fn drop_with_ramp() -> Seq<char> {
    "Cannot drop beats if ramp is set. Please choose one or the other."@
}

/// Said of a progression without beats for its steps.
pub open spec fn progression_needs_beats_per() -> Seq<char> {
    "If progression is set, beats-per must also be set. Please set beats-per."@
}

/// Said of beats that are neither one for all steps nor one for each.
pub open spec fn beats_per_length_mismatch() -> Seq<char> {
    "If progression is set, beats-per must be the same length, or a single number."@
}

/// Said of a progression whose chords are not just those that the tones
/// name.
pub open spec fn progression_tones_mismatch() -> Seq<char> {
    "If progression is set, tones should represent chords matching the progression."@
}

/// Said of a drone beside tones.
pub open spec fn both_drone_and_tones() -> Seq<char> {
    "Cannot set both drone and tones. Please choose one or the other."@
}

/// Said of a rate of change without a tempo to ramp to.
pub open spec fn change_rate_ignored() -> Seq<char> {
    "Warning: change-rate is set but ramp is not. change-rate will be ignored."@
}

// How the lists are read.

/// The pieces of `list` between its commas, each trimmed.
pub open spec fn trimmed_pieces(list: Seq<char>) -> Seq<Seq<char>> {
    split(list, seq![',']).map_values(|piece: Seq<char>| trim(piece))
}

/// Whether every text of the list spells a note.
pub open spec fn all_notes(notes: Seq<Seq<char>>) -> bool {
    forall|i: int| 0 <= i < notes.len() ==> is_note(#[trigger] notes[i])
}

/// The first of `notes` that spells no note.
pub open spec fn first_bad_note(notes: Seq<Seq<char>>) -> Option<Seq<char>>
    decreases notes.len(),
{
    if notes.len() == 0 {
        None
    } else {
        match first_bad_note(notes.drop_last()) {
            Some(note) => Some(note),
            None => if is_note(notes.last()) {
                None
            } else {
                Some(notes.last())
            },
        }
    }
}

/// A list has no bad note exactly when all of it are notes.
pub proof fn no_bad_note_means_all_are_notes(notes: Seq<Seq<char>>)
    ensures
        first_bad_note(notes) is None <==> all_notes(notes),
    decreases notes.len(),
{
    if notes.len() > 0 {
        no_bad_note_means_all_are_notes(notes.drop_last());
        if all_notes(notes) {
            assert forall|i: int| 0 <= i < notes.drop_last().len() implies is_note(
                #[trigger] notes.drop_last()[i],
            ) by {
                assert(is_note(notes[i]));
            }
            assert(is_note(notes[notes.len() - 1]));
        }
        if first_bad_note(notes) is None {
            assert forall|i: int| 0 <= i < notes.len() implies is_note(#[trigger] notes[i]) by {
                if i < notes.len() - 1 {
                    assert(is_note(notes.drop_last()[i]));
                }
            }
        }
    }
}

/// The characters that a chord's name is made of.
pub open spec fn is_id_char(c: char) -> bool {
    ||| 'A' <= c <= 'Z'
    ||| 'a' <= c <= 'z'
    ||| '0' <= c <= '9'
    ||| c == '_'
    ||| c == '+'
    ||| c == '-'
    ||| c == '#'
}

/// Whether `s` begins with a name of `k` characters, an opening bracket,
/// something other than a closing bracket, and further on a closing bracket.
pub open spec fn chord_opens_at(s: Seq<char>, k: int) -> bool {
    &&& 1 <= k <= 10
    &&& k + 1 < s.len()
    &&& forall|i: int| 0 <= i < k ==> is_id_char(#[trigger] s[i])
    &&& s[k] == '('
    &&& s[k + 1] != ')'
    &&& exists|j: int| k + 1 < j < s.len() && #[trigger] s[j] == ')'
}

/// Whether `s` begins with a chord: a name of one to ten characters and
/// something in brackets.
pub open spec fn starts_with_chord(s: Seq<char>) -> bool {
    exists|k: int| chord_opens_at(s, k)
}

/// The name and the notes of the chord that `chord` spells.
pub open spec fn chord_of(chord: Seq<char>) -> Result<(Seq<char>, Seq<Seq<char>>), Seq<char>> {
    let parts = split(chord, seq!['(', ')']);
    if !starts_with_chord(chord) || parts.len() != 3 {
        Err(invalid_chord(chord))
    } else {
        let notes = words(parts[1]);
        match first_bad_note(notes) {
            Some(note) => Err(invalid_note(note)),
            None => if notes.len() > MAX_NOTES {
                Err(too_many_notes())
            } else {
                Ok((trim(parts[0]), notes))
            },
        }
    }
}

/// The map that the chords of `list` spell, read in order; the first chord
/// that is refused decides the error.
pub open spec fn tone_map_of(list: Seq<Seq<char>>) -> Result<
    Map<Seq<char>, Seq<Seq<char>>>,
    Seq<char>,
>
    decreases list.len(),
{
    if list.len() == 0 {
        Ok(Map::empty())
    } else {
        match tone_map_of(list.drop_last()) {
            Err(e) => Err(e),
            Ok(map) => match chord_of(list.last()) {
                Err(e) => Err(e),
                Ok((id, notes)) => Ok(map.insert(id, notes)),
            },
        }
    }
}

/// The drone notes that the option spells.
pub open spec fn drone_of(drone: Option<Seq<char>>) -> Result<
    Option<Seq<Seq<char>>>,
    Seq<char>,
> {
    match drone {
        None => Ok(None),
        Some(list) => {
            let notes = trimmed_pieces(list);
            if notes.len() > MAX_NOTES {
                Err(too_many_notes())
            } else {
                match first_bad_note(notes) {
                    Some(note) => Err(invalid_note(note)),
                    None => Ok(Some(notes)),
                }
            }
        },
    }
}

/// The progression that the option spells.
pub open spec fn progression_of(progression: Option<Seq<char>>) -> Result<
    Option<Seq<Seq<char>>>,
    Seq<char>,
> {
    match progression {
        None => Ok(None),
        Some(list) => {
            let chords = trimmed_pieces(list);
            if chords.len() > MAX_PROGRESSION {
                Err(too_long_progression())
            } else {
                Ok(Some(chords))
            }
        },
    }
}

/// The beats for each chord that the option spells.
pub open spec fn beats_per_of(beats_per: Option<Seq<char>>) -> Result<Option<Seq<u8>>, Seq<char>> {
    match beats_per {
        None => Ok(None),
        Some(list) => match read_comma_separated::<u8>(list, "beats-per"@) {
            Ok(beats) => Ok(Some(beats)),
            Err(e) => Err(e),
        },
    }
}

/// The beats to sound and to leave out that the option spells.
pub open spec fn drop_beats_of(dropped: Option<Seq<char>>) -> Result<Option<(u8, u8)>, Seq<char>> {
    match dropped {
        None => Ok(None),
        Some(val) => match read_comma_separated::<u8>(val, "drop-beats"@) {
            Err(e) => Err(e),
            Ok(parts) => if parts.len() == 1 {
                Ok(Some((parts[0], parts[0])))
            } else if parts.len() == 2 {
                Ok(Some((parts[0], parts[1])))
            } else {
                Err(wrong_drop_beats_count(parts.len()))
            },
        },
    }
}

/// The tones that the option spells: chords where it begins with a chord,
/// else notes where it begins with a note.
pub open spec fn tones_of(tones: Option<Seq<char>>) -> Result<Option<TonesView>, Seq<char>> {
    match tones {
        None => Ok(None),
        Some(list) => {
            let pieces = trimmed_pieces(list);
            if starts_with_chord(list) {
                if pieces.len() > MAX_CHORDS {
                    Err(too_many_chords())
                } else {
                    match tone_map_of(pieces) {
                        Ok(map) => Ok(Some(TonesView::Chords(map))),
                        Err(e) => Err(e),
                    }
                }
            } else if starts_with_note(list) {
                if pieces.len() > MAX_NOTES {
                    Err(too_many_notes())
                } else {
                    match first_bad_note(pieces) {
                        Some(note) => Err(invalid_note(note)),
                        None => Ok(Some(TonesView::List(pieces))),
                    }
                }
            } else {
                Err(unexpected_tones(list))
            }
        },
    }
}

/// What is said of a value that may be absent and must lie in a range.
pub open spec fn range_check(val: Option<int>, low: int, high: int, name: Seq<char>) -> Option<
    Seq<char>,
> {
    match val {
        Some(v) => if low <= v <= high {
            None
        } else {
            Some(range_problem(name, decimal(v as nat), decimal(low as nat), decimal(high as nat)))
        },
        None => None,
    }
}

/// A small number that may be absent, as a whole number.
pub open spec fn as_int_u8(v: Option<u8>) -> Option<int> {
    match v {
        Some(v) => Some(v as int),
        None => None,
    }
}

/// A number that may be absent, as a whole number.
pub open spec fn as_int_u32(v: Option<u32>) -> Option<int> {
    match v {
        Some(v) => Some(v as int),
        None => None,
    }
}

impl ConfigView {
    /// The first rule between the settings that the configuration breaks,
    /// with what is said of it.
    pub open spec fn logical_problem(self) -> Option<Seq<char>> {
        if !self.harmonic && (self.tones is Some || self.progression is Some
            || self.beats_per is Some) {
            Some(not_harmonic())
        } else if self.tones is Some && self.tones->0 is Chords && (self.progression is None
            || self.beats_per is None) {
            Some(map_needs_progression())
        } else if self.drop_beats is Some && self.drop_rate is Some {
            Some(both_drop_beats_and_rate())
        } else if (self.drop_beats is Some || self.drop_rate is Some) && self.ramp is Some {
            Some(drop_with_ramp())
        } else if self.progression is Some && self.beats_per is None {
            Some(progression_needs_beats_per())
        } else if self.progression is Some && self.beats_per is Some && self.beats_per->0.len()
            != 1 && self.progression->0.len() != self.beats_per->0.len() {
            Some(beats_per_length_mismatch())
        } else if self.progression is Some && self.tones is Some && self.tones->0 is Chords
            && self.tones->0->Chords_0.dom() != self.progression->0.to_set() {
            Some(progression_tones_mismatch())
        } else if self.drone is Some && self.tones is Some {
            Some(both_drone_and_tones())
        } else {
            None
        }
    }

    /// Whether the configuration is one that the options can give: every
    /// value in its range, every list within its length, every note a note,
    /// and no rule between the settings broken.
    pub open spec fn is_valid(self) -> bool {
        &&& MIN_BPM <= self.bpm <= MAX_BPM
        &&& self.drop_rate is Some ==> 1 <= self.drop_rate->0 <= 99
        &&& self.ramp is Some ==> MIN_BPM <= self.ramp->0 <= MAX_BPM
        &&& self.change_rate is Some ==> 1 <= self.change_rate->0 <= 99
        &&& self.drone is Some ==> self.drone->0.len() <= MAX_NOTES && all_notes(self.drone->0)
        &&& self.progression is Some ==> self.progression->0.len() <= MAX_PROGRESSION
        &&& match self.tones {
            Some(TonesView::List(notes)) => notes.len() <= MAX_NOTES && all_notes(notes),
            Some(TonesView::Chords(map)) => forall|id: Seq<char>| #[trigger]
                map.contains_key(id) ==> map[id].len() <= MAX_NOTES && all_notes(map[id]),
            None => true,
        }
        &&& self.logical_problem() is None
    }
}

/// The configuration that the options spell, or what is said of the first
/// thing that is wrong with them.
pub open spec fn config_of(cli: OptionsView) -> Result<ConfigView, Seq<char>> {
    if let Some(e) = range_check(Some(cli.bpm as int), 30, 300, "bpm"@) {
        Err(e)
    } else if let Some(e) = range_check(as_int_u8(cli.drop_rate), 1, 99, "drop-rate"@) {
        Err(e)
    } else if let Some(e) = range_check(as_int_u32(cli.ramp), 30, 300, "ramp"@) {
        Err(e)
    } else if let Some(e) = range_check(as_int_u8(cli.change_rate), 1, 99, "change-rate"@) {
        Err(e)
    } else if let Err(e) = drone_of(cli.drone) {
        Err(e)
    } else if let Err(e) = progression_of(cli.progression) {
        Err(e)
    } else if let Err(e) = beats_per_of(cli.beats_per) {
        Err(e)
    } else if let Err(e) = drop_beats_of(cli.drop_beats) {
        Err(e)
    } else if let Err(e) = tones_of(cli.tones) {
        Err(e)
    } else {
        let config = ConfigView {
            bpm: cli.bpm,
            drop_beats: drop_beats_of(cli.drop_beats)->Ok_0,
            drop_rate: cli.drop_rate,
            ramp: cli.ramp,
            change_rate: cli.change_rate,
            drone: drone_of(cli.drone)->Ok_0,
            tones: tones_of(cli.tones)->Ok_0,
            progression: progression_of(cli.progression)->Ok_0,
            beats_per: beats_per_of(cli.beats_per)->Ok_0,
            harmonic: cli.harmonic,
        };
        match config.logical_problem() {
            Some(e) => Err(e),
            None => Ok(config),
        }
    }
}

// Reading, piece by piece.

/// A list of strings reads as its trimmed pieces, and never fails.
pub proof fn strings_read_as_trimmed_pieces(list: Seq<char>, name: Seq<char>)
    ensures
        read_comma_separated::<String>(list, name) == Ok::<Seq<Seq<char>>, Seq<char>>(
            trimmed_pieces(list),
        ),
{
    pieces_read_as_trimmed(split(list, seq![',']), name);
}

proof fn pieces_read_as_trimmed(pieces: Seq<Seq<char>>, name: Seq<char>)
    ensures
        read_list::<String>(pieces, name) == Ok::<Seq<Seq<char>>, Seq<char>>(
            pieces.map_values(|piece: Seq<char>| trim(piece)),
        ),
    decreases pieces.len(),
{
    let trimmed = pieces.map_values(|piece: Seq<char>| trim(piece));
    if pieces.len() == 0 {
        assert(trimmed =~= Seq::<Seq<char>>::empty());
    } else {
        pieces_read_as_trimmed(pieces.drop_last(), name);
        let before = pieces.drop_last().map_values(|piece: Seq<char>| trim(piece));
        assert(before.push(trim(pieces.last())) =~= trimmed);
    }
}

/// Once a note among the first `k` is bad, it is the first bad note of all.
proof fn bad_note_stays(notes: Seq<Seq<char>>, k: int)
    requires
        0 <= k <= notes.len(),
        first_bad_note(notes.subrange(0, k)) is Some,
    ensures
        first_bad_note(notes) == first_bad_note(notes.subrange(0, k)),
    decreases notes.len() - k,
{
    if k == notes.len() {
        assert(notes.subrange(0, k) =~= notes);
    } else {
        assert(notes.subrange(0, k + 1).drop_last() =~= notes.subrange(0, k));
        bad_note_stays(notes, k + 1);
    }
}

/// Once a chord among the first `k` is refused, the whole list is refused
/// for it.
proof fn refused_chord_stays(list: Seq<Seq<char>>, k: int)
    requires
        0 <= k <= list.len(),
        tone_map_of(list.subrange(0, k)) is Err,
    ensures
        tone_map_of(list) == tone_map_of(list.subrange(0, k)),
    decreases list.len() - k,
{
    if k == list.len() {
        assert(list.subrange(0, k) =~= list);
    } else {
        assert(list.subrange(0, k + 1).drop_last() =~= list.subrange(0, k));
        refused_chord_stays(list, k + 1);
    }
}

/// `a`, `b` and `c` in a row.
fn join(a: &str, b: &str, c: &str) -> (s: String)
    ensures
        s@ == a@ + b@ + c@,
{
    let mut s = String::from_str(a);
    s.append(b);
    s.append(c);
    s
}

fn invalid_note_message(note: &str) -> (s: String)
    ensures
        s@ == invalid_note(note@),
{
    join(
        "Invalid note format for ",
        note,
        ". Expected format: <note><octave> where <note> is a letter A-G, followed by an optional # or b, and <octave> is a number 1-6",
    )
}

fn invalid_chord_message(chord: &str) -> (s: String)
    ensures
        s@ == invalid_chord(chord@),
{
    join(
        "Invalid chord format for ",
        chord,
        ". Expected format: <ID>(<notes>) where <ID> is made of alphanumeric characters and special characters _ + - #",
    )
}

/// Reads a list of strings that commas separate.
fn parse_strings(list: &str, name: &str) -> (pieces: Vec<String>)
    ensures
        views(pieces@) == trimmed_pieces(list@),
{
    proof {
        strings_read_as_trimmed_pieces(list@, name@);
    }
    match parse_comma_separated::<String>(list, name) {
        Ok(pieces) => {
            assert(crate::helpers::models::<String>(pieces@) =~= views(pieces@));
            pieces
        },
        Err(_) => Vec::new(),
    }
}

/// Asks of every text that it spells a note, and names the first that does
/// not.
pub fn check_notes(notes: &Vec<String>) -> (r: Result<(), String>)
    ensures
        match first_bad_note(views(notes@)) {
            Some(note) => r is Err && r->Err_0@ == invalid_note(note),
            None => r is Ok,
        },
{
    let ghost all = views(notes@);
    let mut i: usize = 0;
    assert(all.subrange(0, 0) =~= Seq::<Seq<char>>::empty());
    while i < notes.len()
        invariant
            i <= notes@.len(),
            all == views(notes@),
            first_bad_note(all.subrange(0, i as int)) is None,
        decreases notes@.len() - i,
    {
        proof {
            assert(all.subrange(0, i + 1).drop_last() =~= all.subrange(0, i as int));
            assert(all.subrange(0, i + 1).last() == notes@[i as int]@);
        }
        if !spells_note(notes[i].as_str()) {
            proof {
                bad_note_stays(all, i + 1);
            }
            return Err(invalid_note_message(notes[i].as_str()));
        }
        i += 1;
    }
    assert(all.subrange(0, i as int) =~= all);
    Ok(())
}

fn id_char(c: char) -> (b: bool)
    ensures
        b == is_id_char(c),
{
    (c >= 'A' && c <= 'Z') || (c >= 'a' && c <= 'z') || (c >= '0' && c <= '9') || c == '_' || c
        == '+' || c == '-' || c == '#'
}

/// Whether `text` begins with a chord.
pub fn begins_with_chord(text: &str) -> (b: bool)
    ensures
        b == starts_with_chord(text@),
{
    let v = chars_of(text);
    let n = v.len();
    let mut k: usize = 0;
    while k < n && id_char(v[k])
        invariant
            n == v@.len(),
            k <= n,
            forall|i: int| 0 <= i < k ==> is_id_char(#[trigger] v@[i]),
        decreases n - k,
    {
        k += 1;
    }
    // A name ends where the bracket opens, so it can only be this long.
    assert forall|other: int| other != k implies !chord_opens_at(v@, other) by {
        if chord_opens_at(v@, other) {
            if other < k {
                assert(is_id_char(v@[other]));
            } else {
                assert(is_id_char(v@[k as int]));
            }
        }
    }
    if k < 1 || k > 10 || n < 2 || k >= n - 1 || v[k] != '(' || v[k + 1] == ')' {
        assert(!chord_opens_at(v@, k as int));
        return false;
    }
    let mut j: usize = k + 2;
    while j < n
        invariant
            n == v@.len(),
            k + 2 <= j <= n,
            v@ == text@,
            1 <= k <= 10,
            forall|i: int| 0 <= i < k ==> is_id_char(#[trigger] v@[i]),
            v@[k as int] == '(',
            v@[k + 1] != ')',
            forall|other: int| other != k ==> !chord_opens_at(v@, other),
            forall|i: int| k + 1 < i < j ==> v@[i] != ')',
        decreases n - j,
    {
        if v[j] == ')' {
            assert(chord_opens_at(v@, k as int));
            return true;
        }
        j += 1;
    }
    assert(!chord_opens_at(v@, k as int));
    false
}

impl AppConfig {
    /// Whether the configuration is one that the options can give.
    pub open spec fn is_valid(&self) -> bool {
        self@.is_valid()
    }

    fn get_progression(progression: Option<String>) -> (r: Result<Option<Vec<String>>, String>)
        ensures
            match progression_of(text_view(progression)) {
                Ok(p) => r is Ok && list_view(r->Ok_0) == p,
                Err(e) => r is Err && r->Err_0@ == e,
            },
    {
        match progression {
            Some(list) => {
                let chords = parse_strings(list.as_str(), "progression");
                if chords.len() > MAX_PROGRESSION {
                    return Err(String::from_str("Progression must be at most 24 chords long"));
                }
                Ok(Some(chords))
            },
            None => Ok(None),
        }
    }

    fn get_drone(drone: Option<String>) -> (r: Result<Option<Vec<String>>, String>)
        ensures
            match drone_of(text_view(drone)) {
                Ok(d) => r is Ok && list_view(r->Ok_0) == d,
                Err(e) => r is Err && r->Err_0@ == e,
            },
    {
        match drone {
            Some(list) => {
                let notes = parse_strings(list.as_str(), "drone");
                if notes.len() > MAX_NOTES {
                    return Err(
                        String::from_str("Note list must contain between 1 and 4 notes."),
                    );
                }
                match check_notes(&notes) {
                    Ok(()) => Ok(Some(notes)),
                    Err(e) => Err(e),
                }
            },
            None => Ok(None),
        }
    }

    fn get_drop_beats(dropped: Option<String>) -> (r: Result<Option<(u8, u8)>, String>)
        ensures
            match drop_beats_of(text_view(dropped)) {
                Ok(d) => r == Ok::<Option<(u8, u8)>, String>(d),
                Err(e) => r is Err && r->Err_0@ == e,
            },
    {
        match dropped {
            Some(val) => {
                match parse_comma_separated::<u8>(val.as_str(), "drop-beats") {
                    Err(e) => Err(e),
                    Ok(parts) => {
                        assert(crate::helpers::models::<u8>(parts@) =~= parts@);
                        if parts.len() == 1 {
                            Ok(Some((parts[0], parts[0])))
                        } else if parts.len() == 2 {
                            Ok(Some((parts[0], parts[1])))
                        } else {
                            let count = render_number(parts.len() as u64);
                            Err(
                                join(
                                    "Invalid number of values for drop-beats: ",
                                    count.as_str(),
                                    ". Expected 1 or 2.",
                                ),
                            )
                        }
                    },
                }
            },
            None => Ok(None),
        }
    }

    fn get_beats_per(beats_per: Option<String>) -> (r: Result<Option<Vec<u8>>, String>)
        ensures
            match beats_per_of(text_view(beats_per)) {
                Ok(b) => r is Ok && match r->Ok_0 {
                    Some(list) => b == Some(list@),
                    None => b is None,
                },
                Err(e) => r is Err && r->Err_0@ == e,
            },
    {
        match parse_comma_separated_option::<u8>(beats_per, "beats-per") {
            Ok(Some(list)) => {
                assert(crate::helpers::models::<u8>(list@) =~= list@);
                Ok(Some(list))
            },
            Ok(None) => Ok(None),
            Err(e) => Err(e),
        }
    }

    /// Reads one chord: its name, and its notes in brackets with white
    /// space between them.
    fn parse_chord(chord: &str) -> (r: Result<(String, Vec<String>), String>)
        ensures
            match chord_of(chord@) {
                Ok((id, notes)) => r is Ok && r->Ok_0.0@ == id && views(r->Ok_0.1@) == notes,
                Err(e) => r is Err && r->Err_0@ == e,
            },
    {
        let brackets: Vec<char> = vec!['(', ')'];
        assert(brackets@ =~= seq!['(', ')']);
        let parts = split_text(chord, &brackets);
        if !begins_with_chord(chord) || parts.len() != 3 {
            return Err(invalid_chord_message(chord));
        }
        let id = trim_text(parts[0].as_str());
        let notes = split_words(parts[1].as_str());
        match check_notes(&notes) {
            Err(e) => Err(e),
            Ok(()) => {
                if notes.len() > MAX_NOTES {
                    Err(String::from_str("Note list must contain between 1 and 4 notes."))
                } else {
                    Ok((id, notes))
                }
            },
        }
    }

    /// Reads each chord of the list and puts its notes under its name.
    fn build_tone_map(list: &Vec<String>) -> (r: Result<ToneMap, String>)
        ensures
            match tone_map_of(views(list@)) {
                Ok(map) => r is Ok && r->Ok_0@ == map && r->Ok_0.wf(),
                Err(e) => r is Err && r->Err_0@ == e,
            },
    {
        let ghost all = views(list@);
        let mut chord_map = ToneMap::new();
        let mut i: usize = 0;
        assert(all.subrange(0, 0) =~= Seq::<Seq<char>>::empty());
        while i < list.len()
            invariant
                i <= list@.len(),
                all == views(list@),
                chord_map.wf(),
                tone_map_of(all.subrange(0, i as int)) == Ok::<
                    Map<Seq<char>, Seq<Seq<char>>>,
                    Seq<char>,
                >(chord_map@),
            decreases list@.len() - i,
        {
            proof {
                assert(all.subrange(0, i + 1).drop_last() =~= all.subrange(0, i as int));
                assert(all.subrange(0, i + 1).last() == list@[i as int]@);
            }
            match Self::parse_chord(list[i].as_str()) {
                Err(e) => {
                    proof {
                        refused_chord_stays(all, i + 1);
                    }
                    return Err(e);
                },
                Ok((id, notes)) => {
                    chord_map.insert(id, notes);
                },
            }
            i += 1;
        }
        assert(all.subrange(0, i as int) =~= all);
        Ok(chord_map)
    }

    /// Reads the tones: chords by name where the text begins with a chord,
    /// notes where it begins with a note.
    fn get_tones(tones: Option<String>) -> (r: Result<Option<Tones>, String>)
        ensures
            match tones_of(text_view(tones)) {
                Ok(t) => r is Ok && match r->Ok_0 {
                    Some(found) => t == Some(found@) && (found is Chords ==> found->Chords_0.wf()),
                    None => t is None,
                },
                Err(e) => r is Err && r->Err_0@ == e,
            },
    {
        match tones {
            Some(list) => {
                let pieces = parse_strings(list.as_str(), "tones");
                if begins_with_chord(list.as_str()) {
                    if pieces.len() > MAX_CHORDS {
                        return Err(
                            String::from_str("Chord list must contain between 1 and 10 chords."),
                        );
                    }
                    match Self::build_tone_map(&pieces) {
                        Ok(map) => Ok(Some(Tones::Chords(map))),
                        Err(e) => Err(e),
                    }
                } else if begins_with_note(list.as_str()) {
                    if pieces.len() > MAX_NOTES {
                        return Err(
                            String::from_str("Note list must contain between 1 and 4 notes."),
                        );
                    }
                    match check_notes(&pieces) {
                        Ok(()) => Ok(Some(Tones::List(pieces))),
                        Err(e) => Err(e),
                    }
                } else {
                    Err(join("Received an unexpected value for tones: ", list.as_str(), "."))
                }
            },
            None => Ok(None),
        }
    }
}

/// Whether `id` is one of `list`.
fn list_contains(list: &Vec<String>, id: &str) -> (b: bool)
    ensures
        b == views(list@).contains(id@),
{
    let mut i: usize = 0;
    while i < list.len()
        invariant
            i <= list@.len(),
            forall|j: int| 0 <= j < i ==> views(list@)[j] != id@,
        decreases list@.len() - i,
    {
        if crate::text::same_text(list[i].as_str(), id) {
            assert(views(list@)[i as int] == id@);
            return true;
        }
        i += 1;
    }
    false
}

/// Whether the names of `map` are just the chords of `progression`.
fn same_chords(map: &ToneMap, progression: &Vec<String>) -> (b: bool)
    ensures
        b == (map@.dom() == views(progression@).to_set()),
{
    let ghost named = views(progression@);
    proof {
        crate::tones::chord_map_names(map.chords@);
    }
    let mut i: usize = 0;
    while i < progression.len()
        invariant
            i <= progression@.len(),
            named == views(progression@),
            forall|j: int| 0 <= j < i ==> map@.contains_key(#[trigger] named[j]),
        decreases progression@.len() - i,
    {
        if !map.contains_key(progression[i].as_str()) {
            assert(named.to_set().contains(named[i as int]));
            return false;
        }
        i += 1;
    }
    let mut k: usize = 0;
    while k < map.chords.len()
        invariant
            k <= map.chords@.len(),
            named == views(progression@),
            forall|j: int| 0 <= j < named.len() ==> map@.contains_key(#[trigger] named[j]),
            forall|j: int| 0 <= j < k ==> named.contains(#[trigger] map.chords@[j].id@),
            forall|id: Seq<char>| #[trigger]
                chord_map(map.chords@).contains_key(id) <==> exists|i: int|
                    0 <= i < map.chords@.len() && #[trigger] map.chords@[i].id@ == id,
        decreases map.chords@.len() - k,
    {
        if !list_contains(progression, map.chords[k].id.as_str()) {
            assert(map@.contains_key(map.chords@[k as int].id@));
            assert(!named.to_set().contains(map.chords@[k as int].id@));
            return false;
        }
        k += 1;
    }
    proof {
        assert forall|id: Seq<char>| map@.dom().contains(id) <==> named.to_set().contains(
            id,
        ) by {
            if map@.dom().contains(id) {
                let i = choose|i: int|
                    0 <= i < map.chords@.len() && #[trigger] map.chords@[i].id@ == id;
                assert(named.contains(map.chords@[i].id@));
            }
            if named.to_set().contains(id) {
                let j = choose|j: int| 0 <= j < named.len() && named[j] == id;
                assert(map@.contains_key(named[j]));
            }
        }
        assert(map@.dom() =~= named.to_set());
    }
    true
}

/// Every chord of a map that was read has at most four notes, and each of
/// them is a note.
pub proof fn read_chords_are_small(list: Seq<Seq<char>>)
    requires
        tone_map_of(list) is Ok,
    ensures
        forall|id: Seq<char>| #[trigger]
            tone_map_of(list)->Ok_0.contains_key(id) ==> tone_map_of(list)->Ok_0[id].len()
                <= MAX_NOTES && all_notes(tone_map_of(list)->Ok_0[id]),
    decreases list.len(),
{
    if list.len() > 0 {
        read_chords_are_small(list.drop_last());
        let notes = words(split(list.last(), seq!['(', ')'])[1]);
        no_bad_note_means_all_are_notes(notes);
    }
}

/// Whether every text of the list spells a note.
pub fn all_are_notes(notes: &Vec<String>) -> (b: bool)
    ensures
        b == all_notes(views(notes@)),
{
    let ghost all = views(notes@);
    let mut i: usize = 0;
    while i < notes.len()
        invariant
            i <= notes@.len(),
            all == views(notes@),
            forall|j: int| 0 <= j < i ==> is_note(#[trigger] all[j]),
        decreases notes@.len() - i,
    {
        if !spells_note(notes[i].as_str()) {
            assert(!is_note(all[i as int]));
            return false;
        }
        i += 1;
    }
    true
}

/// Whether every chord of the map has at most four notes, each of them a
/// note.
fn chords_are_sound(map: &ToneMap) -> (b: bool)
    ensures
        b == forall|id: Seq<char>| #[trigger]
            map@.contains_key(id) ==> map@[id].len() <= MAX_NOTES && all_notes(map@[id]),
{
    proof {
        crate::tones::chord_map_names(map.chords@);
    }
    let n = map.chords.len();
    let mut k: usize = 0;
    while k < n
        invariant
            n == map.chords@.len(),
            k <= n,
            forall|a: int|
                0 <= a < k ==> map@[#[trigger] map.chords@[a].id@].len() <= MAX_NOTES
                    && all_notes(map@[map.chords@[a].id@]),
            forall|id: Seq<char>| #[trigger]
                chord_map(map.chords@).contains_key(id) <==> exists|a: int|
                    0 <= a < n && #[trigger] map.chords@[a].id@ == id,
        decreases n - k,
    {
        let id = map.chords[k].id.as_str();
        assert(map@.contains_key(id@));
        let sound = match map.get(id) {
            Some(notes) => notes.len() <= MAX_NOTES && all_are_notes(notes),
            None => true,
        };
        if !sound {
            return false;
        }
        k += 1;
    }
    assert forall|id: Seq<char>| #[trigger] map@.contains_key(id) implies map@[id].len()
        <= MAX_NOTES && all_notes(map@[id]) by {
        let a = choose|a: int| 0 <= a < n && #[trigger] map.chords@[a].id@ == id;
        assert(map@[map.chords@[a].id@].len() <= MAX_NOTES);
    }
    true
}

impl AppConfig {
    /// Tones, a progression and beats for it go with a harmonic click alone.
    pub fn no_tones_progression_or_beats_per_if_not_harmonic(&self) -> (r: Result<(), String>)
        ensures
            r is Ok <==> !(!self.harmonic && (self.tones is Some || self.progression is Some
                || self.beats_per is Some)),
            r is Err ==> r->Err_0@ == not_harmonic(),
    {
        if !self.harmonic && (self.tones.is_some() || self.progression.is_some()
            || self.beats_per.is_some()) {
            Err(
                String::from_str(
                    "Cannot set tones, progression, or beats-per if click is not harmonic.",
                ),
            )
        } else {
            Ok(())
        }
    }

    /// Chords by name need a progression and beats for it.
    pub fn progression_and_beats_per_set_if_tones_is_map(&self) -> (r: Result<(), String>)
        ensures
            r is Ok <==> !(self.tones is Some && self.tones->0 is Chords && (
            self.progression is None || self.beats_per is None)),
            r is Err ==> r->Err_0@ == map_needs_progression(),
    {
        if let Some(Tones::Chords(_)) = &self.tones {
            if self.progression.is_none() || self.beats_per.is_none() {
                return Err(
                    String::from_str(
                        "If tones is a map, progression and beats-per must also be set.",
                    ),
                );
            }
        }
        Ok(())
    }

    /// Beats to drop and a drop rate exclude one another.
    pub fn no_simultaneous_drop_beats_and_drop_rate(&self) -> (r: Result<(), String>)
        ensures
            r is Ok <==> !(self.drop_beats is Some && self.drop_rate is Some),
            r is Err ==> r->Err_0@ == both_drop_beats_and_rate(),
    {
        if self.drop_beats.is_some() && self.drop_rate.is_some() {
            Err(
                String::from_str(
                    "Cannot set both drop-beats and drop-rate. Please choose one or the other.",
                ),
            )
        } else {
            Ok(())
        }
    }

    /// Nothing is dropped while the tempo ramps.
    pub fn no_drop_beats_or_rate_with_ramp(&self) -> (r: Result<(), String>)
        ensures
            r is Ok <==> !((self.drop_beats is Some || self.drop_rate is Some)
                && self.ramp is Some),
            r is Err ==> r->Err_0@ == drop_with_ramp(),
    {
        if (self.drop_beats.is_some() || self.drop_rate.is_some()) && self.ramp.is_some() {
            Err(
                String::from_str(
                    "Cannot drop beats if ramp is set. Please choose one or the other.",
                ),
            )
        } else {
            Ok(())
        }
    }

    /// A progression needs beats for its steps.
    pub fn progression_requires_beats_per(&self) -> (r: Result<(), String>)
        ensures
            r is Ok <==> !(self.progression is Some && self.beats_per is None),
            r is Err ==> r->Err_0@ == progression_needs_beats_per(),
    {
        if self.progression.is_some() && self.beats_per.is_none() {
            Err(
                String::from_str(
                    "If progression is set, beats-per must also be set. Please set beats-per.",
                ),
            )
        } else {
            Ok(())
        }
    }

    /// The beats are one for all steps or one for each.
    pub fn progression_and_beats_per_length_match(&self) -> (r: Result<(), String>)
        ensures
            r is Ok <==> !(self.progression is Some && self.beats_per is Some
                && self.beats_per->0@.len() != 1 && self.progression->0@.len()
                != self.beats_per->0@.len()),
            r is Err ==> r->Err_0@ == beats_per_length_mismatch(),
    {
        if let (Some(progression), Some(beats_per)) = (&self.progression, &self.beats_per) {
            if beats_per.len() != 1 && progression.len() != beats_per.len() {
                return Err(
                    String::from_str(
                        "If progression is set, beats-per must be the same length, or a single number.",
                    ),
                );
            }
        }
        Ok(())
    }

    /// The chords of the progression are just those that the tones name.
    pub fn progression_and_tones_match(&self) -> (r: Result<(), String>)
        ensures
            r is Ok <==> !(self.progression is Some && self.tones is Some
                && self.tones->0 is Chords && self.tones->0->Chords_0@.dom() != views(
                self.progression->0@,
            ).to_set()),
            r is Err ==> r->Err_0@ == progression_tones_mismatch(),
    {
        if let (Some(progression), Some(Tones::Chords(tones))) = (&self.progression, &self.tones) {
            if !same_chords(tones, progression) {
                return Err(
                    String::from_str(
                        "If progression is set, tones should represent chords matching the progression.",
                    ),
                );
            }
        }
        Ok(())
    }

    /// A drone and tones exclude one another.
    pub fn no_simultaneous_drone_and_tones(&self) -> (r: Result<(), String>)
        ensures
            r is Ok <==> !(self.drone is Some && self.tones is Some),
            r is Err ==> r->Err_0@ == both_drone_and_tones(),
    {
        if self.drone.is_some() && self.tones.is_some() {
            Err(
                String::from_str(
                    "Cannot set both drone and tones. Please choose one or the other.",
                ),
            )
        } else {
            Ok(())
        }
    }

    /// Holds the settings against every rule between them, in order, and
    /// says what the first broken one asks.
    pub fn perform_logical_validations(&self) -> (r: Result<(), String>)
        ensures
            match self@.logical_problem() {
                Some(e) => r is Err && r->Err_0@ == e,
                None => r is Ok,
            },
    {
        if let Err(e) = self.no_tones_progression_or_beats_per_if_not_harmonic() {
            return Err(e);
        }
        if let Err(e) = self.progression_and_beats_per_set_if_tones_is_map() {
            return Err(e);
        }
        if let Err(e) = self.no_simultaneous_drop_beats_and_drop_rate() {
            return Err(e);
        }
        if let Err(e) = self.no_drop_beats_or_rate_with_ramp() {
            return Err(e);
        }
        if let Err(e) = self.progression_requires_beats_per() {
            return Err(e);
        }
        if let Err(e) = self.progression_and_beats_per_length_match() {
            return Err(e);
        }
        if let Err(e) = self.progression_and_tones_match() {
            return Err(e);
        }
        if let Err(e) = self.no_simultaneous_drone_and_tones() {
            return Err(e);
        }
        Ok(())
    }

    /// What there is to warn of a rate of change without a tempo to ramp to.
    pub fn change_rate_warning(&self) -> (w: Option<String>)
        ensures
            self.change_rate is Some && self.ramp is None ==> w is Some && w->0@
                == change_rate_ignored(),
            !(self.change_rate is Some && self.ramp is None) ==> w is None,
    {
        if self.change_rate.is_some() && self.ramp.is_none() {
            Some(
                String::from_str(
                    "Warning: change-rate is set but ramp is not. change-rate will be ignored.",
                ),
            )
        } else {
            None
        }
    }

    /// Reads the configuration from the options: the numbers first, then
    /// the lists, then the rules between the settings.
    pub fn from_cli(cli: CliOptions) -> (r: Result<AppConfig, String>)
        ensures
            match config_of(cli@) {
                Ok(config) => r is Ok && r->Ok_0@ == config && r->Ok_0.is_valid(),
                Err(e) => r is Err && r->Err_0@ == e,
            },
    {
        let bpm = match validate_and_extract(cli.bpm, MIN_BPM, MAX_BPM, "bpm") {
            Ok(v) => v,
            Err(e) => {
                return Err(e);
            },
        };
        let drop_rate = match validate_and_extract_option(cli.drop_rate, 1, 99, "drop-rate") {
            Ok(v) => v,
            Err(e) => {
                return Err(e);
            },
        };
        let ramp = match validate_and_extract_option(cli.ramp, MIN_BPM, MAX_BPM, "ramp") {
            Ok(v) => v,
            Err(e) => {
                return Err(e);
            },
        };
        let change_rate = match validate_and_extract_option(
            cli.change_rate,
            1,
            99,
            "change-rate",
        ) {
            Ok(v) => v,
            Err(e) => {
                return Err(e);
            },
        };
        let drone = match Self::get_drone(cli.drone) {
            Ok(v) => v,
            Err(e) => {
                return Err(e);
            },
        };
        let progression = match Self::get_progression(cli.progression) {
            Ok(v) => v,
            Err(e) => {
                return Err(e);
            },
        };
        let beats_per = match Self::get_beats_per(cli.beats_per) {
            Ok(v) => v,
            Err(e) => {
                return Err(e);
            },
        };
        let drop_beats = match Self::get_drop_beats(cli.drop_beats) {
            Ok(v) => v,
            Err(e) => {
                return Err(e);
            },
        };
        let tones = match Self::get_tones(cli.tones) {
            Ok(v) => v,
            Err(e) => {
                return Err(e);
            },
        };
        proof {
            read_notes_are_notes(cli@);
        }
        let config = AppConfig {
            bpm,
            drop_beats,
            drop_rate,
            ramp,
            change_rate,
            drone,
            tones,
            progression,
            beats_per,
            harmonic: cli.harmonic,
        };
        match config.perform_logical_validations() {
            Ok(()) => Ok(config),
            Err(e) => Err(e),
        }
    }
}

impl AppConfig {
    /// Whether the configuration is one that the options can give.
    pub fn check(&self) -> (b: bool)
        ensures
            b == self.is_valid(),
    {
        if self.bpm < MIN_BPM || self.bpm > MAX_BPM {
            return false;
        }
        if let Some(rate) = self.drop_rate {
            if rate < 1 || rate > 99 {
                return false;
            }
        }
        if let Some(ramp) = self.ramp {
            if ramp < MIN_BPM || ramp > MAX_BPM {
                return false;
            }
        }
        if let Some(rate) = self.change_rate {
            if rate < 1 || rate > 99 {
                return false;
            }
        }
        if let Some(notes) = &self.drone {
            if notes.len() > MAX_NOTES || !all_are_notes(notes) {
                return false;
            }
        }
        if let Some(chords) = &self.progression {
            if chords.len() > MAX_PROGRESSION {
                return false;
            }
        }
        match &self.tones {
            Some(Tones::List(notes)) => {
                if notes.len() > MAX_NOTES || !all_are_notes(notes) {
                    return false;
                }
            },
            Some(Tones::Chords(map)) => {
                if !chords_are_sound(map) {
                    return false;
                }
            },
            None => {},
        }
        self.perform_logical_validations().is_ok()
    }
}

/// What the readers let through is notes: the drone, the notes of a list
/// and the notes of every chord.
proof fn read_notes_are_notes(cli: OptionsView)
    ensures
        drone_of(cli.drone) matches Ok(Some(notes)) ==> all_notes(notes),
        tones_of(cli.tones) matches Ok(Some(TonesView::List(notes))) ==> all_notes(notes),
        tones_of(cli.tones) matches Ok(Some(TonesView::Chords(map))) ==> forall|id: Seq<char>|
         #[trigger]
            map.contains_key(id) ==> map[id].len() <= MAX_NOTES && all_notes(map[id]),
{
    if cli.drone is Some {
        no_bad_note_means_all_are_notes(trimmed_pieces(cli.drone->0));
    }
    if cli.tones is Some {
        no_bad_note_means_all_are_notes(trimmed_pieces(cli.tones->0));
        if starts_with_chord(cli.tones->0) && tone_map_of(trimmed_pieces(cli.tones->0)) is Ok {
            read_chords_are_small(trimmed_pieces(cli.tones->0));
        }
    }
}

/// Whatever the options, a configuration that is read from them is valid.
pub proof fn read_configurations_are_valid(cli: OptionsView)
    requires
        config_of(cli) is Ok,
    ensures
        config_of(cli)->Ok_0.is_valid(),
{
    read_notes_are_notes(cli);
}

/// Every note of a valid configuration has a frequency: the notes of the
/// drone, of a list of tones, and of every chord.
pub proof fn valid_notes_have_frequencies(config: ConfigView)
    requires
        config.is_valid(),
    ensures
        config.drone matches Some(notes) ==> forall|i: int|
            0 <= i < notes.len() ==> note_frequency(#[trigger] notes[i]) is Some,
        config.tones matches Some(TonesView::List(notes)) ==> forall|i: int|
            0 <= i < notes.len() ==> note_frequency(#[trigger] notes[i]) is Some,
        config.tones matches Some(TonesView::Chords(map)) ==> forall|id: Seq<char>, i: int|
            map.contains_key(id) && 0 <= i < map[id].len() ==> note_frequency(
                #[trigger] map[id][i],
            ) is Some,
{
    if let Some(notes) = config.drone {
        assert forall|i: int| 0 <= i < notes.len() implies note_frequency(
            #[trigger] notes[i],
        ) is Some by {
            assert(is_note(notes[i]));
        }
    }
    match config.tones {
        Some(TonesView::List(notes)) => {
            assert forall|i: int| 0 <= i < notes.len() implies note_frequency(
                #[trigger] notes[i],
            ) is Some by {
                assert(is_note(notes[i]));
            }
        },
        Some(TonesView::Chords(map)) => {
            assert forall|id: Seq<char>, i: int|
                map.contains_key(id) && 0 <= i < map[id].len() implies note_frequency(
                #[trigger] map[id][i],
            ) is Some by {
                assert(all_notes(map[id]));
                assert(is_note(map[id][i]));
            }
        },
        None => {},
    }
}

/// Whatever the options, every note of a configuration that is read from
/// them has a frequency: no text that only begins like a note gets through.
pub proof fn read_notes_have_frequencies(cli: OptionsView)
    requires
        config_of(cli) is Ok,
    ensures
        config_of(cli)->Ok_0.drone matches Some(notes) ==> forall|i: int|
            0 <= i < notes.len() ==> note_frequency(#[trigger] notes[i]) is Some,
        config_of(cli)->Ok_0.tones matches Some(TonesView::List(notes)) ==> forall|i: int|
            0 <= i < notes.len() ==> note_frequency(#[trigger] notes[i]) is Some,
        config_of(cli)->Ok_0.tones matches Some(TonesView::Chords(map)) ==> forall|
            id: Seq<char>,
            i: int,
        |
            map.contains_key(id) && 0 <= i < map[id].len() ==> note_frequency(
                #[trigger] map[id][i],
            ) is Some,
{
    read_configurations_are_valid(cli);
    valid_notes_have_frequencies(config_of(cli)->Ok_0);
}

/// With beats to sound and beats to leave out, no cycle is left out at
/// random: a valid configuration has no drop rate beside them.
pub proof fn patterns_have_no_drop_rate(config: ConfigView)
    requires
        config.is_valid(),
        config.drop_beats is Some,
    ensures
        config.drop_rate is None,
        config.ramp is None,
{
}

} // verus!
