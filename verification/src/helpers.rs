//! Notes and their frequencies, and the reading and checking of parameters.

use vstd::prelude::*;
use crate::constants::{PITCH_COUNT, PITCH_FREQUENCIES};
use crate::number::{decimal, parse_number, parse_unsigned, render_number, IntError};
use crate::text::{chars_of, split, split_text, trim, trim_text};

verus! {

/// Semitones from C up to the natural note `c`.
pub open spec fn letter_step(c: char) -> Option<int> {
    if c == 'C' {
        Some(0)
    } else if c == 'D' {
        Some(2)
    } else if c == 'E' {
        Some(4)
    } else if c == 'F' {
        Some(5)
    } else if c == 'G' {
        Some(7)
    } else if c == 'A' {
        Some(9)
    } else if c == 'B' {
        Some(11)
    } else {
        None
    }
}

/// Semitones that the accidental `c` adds.
pub open spec fn accidental_step(c: char) -> Option<int> {
    if c == '#' {
        Some(1)
    } else if c == 'b' {
        Some(-1)
    } else {
        None
    }
}

/// The octave that the digit `c` names.
pub open spec fn octave_number(c: char) -> Option<int> {
    if '2' <= c <= '5' {
        Some(c as u32 - '0' as u32)
    } else {
        None
    }
}

/// Semitones from B1 up to the note that `s` spells: a letter from A to G, at
/// most one accidental, and an octave from 2 to 5.
pub open spec fn note_pitch(s: Seq<char>) -> Option<int> {
    if s.len() == 2 && letter_step(s[0]) is Some && octave_number(s[1]) is Some {
        Some(12 * (octave_number(s[1])->0 - 2) + letter_step(s[0])->0 + 1)
    } else if s.len() == 3 && letter_step(s[0]) is Some && accidental_step(s[1]) is Some
        && octave_number(s[2]) is Some {
        Some(
            12 * (octave_number(s[2])->0 - 2) + letter_step(s[0])->0 + accidental_step(s[1])->0
                + 1,
        )
    } else {
        None
    }
}

/// Whether `s` spells a note.
pub open spec fn is_note(s: Seq<char>) -> bool {
    note_pitch(s) is Some
}

/// The frequency of the note that `s` spells, in hundredths of a hertz.
pub open spec fn note_frequency(s: Seq<char>) -> Option<u32> {
    match note_pitch(s) {
        Some(p) => Some(PITCH_FREQUENCIES[p]),
        None => None,
    }
}

/// Whether `s` begins with a note.
pub open spec fn starts_with_note(s: Seq<char>) -> bool {
    &&& s.len() >= 2
    &&& letter_step(s[0]) is Some
    &&& {
        ||| octave_number(s[1]) is Some
        ||| s.len() >= 3 && accidental_step(s[1]) is Some && octave_number(s[2]) is Some
    }
}

fn letter_of(c: char) -> (r: Option<usize>)
    ensures
        match letter_step(c) {
            Some(k) => r == Some(k as usize) && 0 <= k <= 11,
            None => r is None,
        },
{
    if c == 'C' {
        Some(0)
    } else if c == 'D' {
        Some(2)
    } else if c == 'E' {
        Some(4)
    } else if c == 'F' {
        Some(5)
    } else if c == 'G' {
        Some(7)
    } else if c == 'A' {
        Some(9)
    } else if c == 'B' {
        Some(11)
    } else {
        None
    }
}

fn octave_of(c: char) -> (r: Option<usize>)
    ensures
        match octave_number(c) {
            Some(k) => r == Some(k as usize) && 2 <= k <= 5,
            None => r is None,
        },
{
    if c >= '2' && c <= '5' {
        Some((c as u32 - '0' as u32) as usize)
    } else {
        None
    }
}

/// The frequency of `note` in hundredths of a hertz, or nothing where `note`
/// spells no note.
pub fn note_to_frequency(note: &str) -> (f: Option<u32>)
    ensures
        f == note_frequency(note@),
{
    let v = chars_of(note);
    if v.len() == 2 {
        match (letter_of(v[0]), octave_of(v[1])) {
            (Some(l), Some(o)) => Some(PITCH_FREQUENCIES[12 * (o - 2) + l + 1]),
            _ => None,
        }
    } else if v.len() == 3 {
        match (letter_of(v[0]), octave_of(v[2])) {
            (Some(l), Some(o)) => {
                if v[1] == '#' {
                    Some(PITCH_FREQUENCIES[12 * (o - 2) + l + 2])
                } else if v[1] == 'b' {
                    Some(PITCH_FREQUENCIES[12 * (o - 2) + l])
                } else {
                    None
                }
            },
            _ => None,
        }
    } else {
        None
    }
}

/// Whether `text` spells a note, from its first character to its last.
pub fn spells_note(text: &str) -> (b: bool)
    ensures
        b == is_note(text@),
{
    note_to_frequency(text).is_some()
}

/// Whether `text` begins with a note.
pub fn begins_with_note(text: &str) -> (b: bool)
    ensures
        b == starts_with_note(text@),
{
    let v = chars_of(text);
    if v.len() < 2 || letter_of(v[0]).is_none() {
        return false;
    }
    if octave_of(v[1]).is_some() {
        return true;
    }
    v.len() >= 3 && (v[1] == '#' || v[1] == 'b') && octave_of(v[2]).is_some()
}

/// Every spelling of a note has a frequency, and a spelling that has one is
/// a note. The pitch of a note lies within the table.
pub proof fn every_note_has_a_frequency(s: Seq<char>)
    ensures
        is_note(s) <==> note_frequency(s) is Some,
        is_note(s) ==> 0 <= note_pitch(s)->0 < PITCH_COUNT,
        is_note(s) ==> starts_with_note(s),
{
}

/// Two spellings have the same frequency exactly when they name the same
/// pitch: the frequency is that of the pitch, whatever the spelling, and no
/// two pitches share one.
pub proof fn frequency_follows_pitch(a: Seq<char>, b: Seq<char>)
    requires
        is_note(a),
        is_note(b),
    ensures
        note_frequency(a) == note_frequency(b) <==> note_pitch(a) == note_pitch(b),
{
    pitches_ascend(note_pitch(a)->0, note_pitch(b)->0);
    pitches_ascend(note_pitch(b)->0, note_pitch(a)->0);
}

/// A sharp raises a note by a semitone and a flat lowers it by one, so that
/// a sharpened note is the same pitch as the flattened note a whole tone
/// above it, and a note spelled across the line between two octaves (a flat
/// C, a sharp B) is the one beside it.
pub proof fn accidentals_shift_by_a_semitone(letter: char, octave: char)
    requires
        letter_step(letter) is Some,
        octave_number(octave) is Some,
    ensures
        note_pitch(seq![letter, '#', octave]) == Some(note_pitch(seq![letter, octave])->0 + 1),
        note_pitch(seq![letter, 'b', octave]) == Some(note_pitch(seq![letter, octave])->0 - 1),
        is_note(seq![letter, octave]),
{
    let natural = seq![letter, octave];
    let sharp = seq![letter, '#', octave];
    let flat = seq![letter, 'b', octave];
    assert(natural.len() == 2 && natural[0] == letter && natural[1] == octave);
    assert(sharp.len() == 3 && sharp[0] == letter && sharp[1] == '#' && sharp[2] == octave);
    assert(flat.len() == 3 && flat[0] == letter && flat[1] == 'b' && flat[2] == octave);
}

/// A higher pitch has a higher frequency.
pub proof fn pitches_ascend(low: int, high: int)
    requires
        0 <= low < PITCH_COUNT,
        0 <= high < PITCH_COUNT,
    ensures
        low < high ==> PITCH_FREQUENCIES[low] < PITCH_FREQUENCIES[high],
    decreases high - low,
{
    if low + 1 < high {
        pitches_ascend(low, high - 1);
        pitches_ascend(high - 1, high);
    }
}

/// A value that can be read from text and shown as text.
pub trait Parameter: Sized {
    /// What a value is, in contracts.
    type Model;

    spec fn model(&self) -> Self::Model;

    /// The text that a value shows as.
    spec fn shown(m: Self::Model) -> Seq<char>;

    /// The value that `text` spells, or why it spells none.
    spec fn read(text: Seq<char>) -> Result<Self::Model, Seq<char>>;

    fn show(&self) -> (s: String)
        ensures
            s@ == Self::shown(self.model()),
    ;

    fn parse(text: &str) -> (r: Result<Self, String>)
        ensures
            match Self::read(text@) {
                Ok(m) => r is Ok && r->Ok_0.model() == m,
                Err(why) => r is Err && r->Err_0@ == why,
            },
    ;
}

/// A parameter whose values are ordered.
pub trait Bounded: Parameter + Copy {
    /// The place of a value in the order.
    spec fn rank(&self) -> int;

    fn at_most(&self, other: &Self) -> (b: bool)
        ensures
            b == (self.rank() <= other.rank()),
    ;
}

/// What is said of a text that is no number.
pub open spec fn int_error_text(e: IntError) -> Seq<char> {
    match e {
        IntError::Empty => "cannot parse integer from empty string"@,
        IntError::InvalidDigit => "invalid digit found in string"@,
        IntError::Overflow => "number too large to fit in target type"@,
    }
}

/// The number that `text` spells, or what is said when it spells none.
pub open spec fn read_number(text: Seq<char>, max: nat) -> Result<nat, Seq<char>> {
    match parse_unsigned(text, max) {
        Ok(n) => Ok(n),
        Err(e) => Err(int_error_text(e)),
    }
}

fn int_error_message(e: IntError) -> (s: String)
    ensures
        s@ == int_error_text(e),
{
    match e {
        IntError::Empty => String::from_str("cannot parse integer from empty string"),
        IntError::InvalidDigit => String::from_str("invalid digit found in string"),
        IntError::Overflow => String::from_str("number too large to fit in target type"),
    }
}

impl Parameter for u8 {
    type Model = u8;

    open spec fn model(&self) -> u8 {
        *self
    }

    open spec fn shown(m: u8) -> Seq<char> {
        decimal(m as nat)
    }

    open spec fn read(text: Seq<char>) -> Result<u8, Seq<char>> {
        match read_number(text, 255) {
            Ok(n) => Ok(n as u8),
            Err(why) => Err(why),
        }
    }

    fn show(&self) -> (s: String) {
        render_number(*self as u64)
    }

    fn parse(text: &str) -> (r: Result<u8, String>) {
        match parse_number(text, 255) {
            Ok(n) => Ok(n as u8),
            Err(e) => Err(int_error_message(e)),
        }
    }
}

impl Parameter for u32 {
    type Model = u32;

    open spec fn model(&self) -> u32 {
        *self
    }

    open spec fn shown(m: u32) -> Seq<char> {
        decimal(m as nat)
    }

    open spec fn read(text: Seq<char>) -> Result<u32, Seq<char>> {
        match read_number(text, 0xffff_ffff) {
            Ok(n) => Ok(n as u32),
            Err(why) => Err(why),
        }
    }

    fn show(&self) -> (s: String) {
        render_number(*self as u64)
    }

    fn parse(text: &str) -> (r: Result<u32, String>) {
        match parse_number(text, 0xffff_ffff) {
            Ok(n) => Ok(n),
            Err(e) => Err(int_error_message(e)),
        }
    }
}

impl Parameter for String {
    type Model = Seq<char>;

    open spec fn model(&self) -> Seq<char> {
        self@
    }

    open spec fn shown(m: Seq<char>) -> Seq<char> {
        m
    }

    open spec fn read(text: Seq<char>) -> Result<Seq<char>, Seq<char>> {
        Ok(text)
    }

    fn show(&self) -> (s: String) {
        self.clone()
    }

    fn parse(text: &str) -> (r: Result<String, String>) {
        Ok(String::from_str(text))
    }
}

impl Bounded for u8 {
    open spec fn rank(&self) -> int {
        *self as int
    }

    fn at_most(&self, other: &u8) -> (b: bool) {
        *self <= *other
    }
}

impl Bounded for u32 {
    open spec fn rank(&self) -> int {
        *self as int
    }

    fn at_most(&self, other: &u32) -> (b: bool) {
        *self <= *other
    }
}

/// What is said of a value outside its range.
pub open spec fn range_problem(
    name: Seq<char>,
    val: Seq<char>,
    low: Seq<char>,
    high: Seq<char>,
) -> Seq<char> {
    "Invalid value for "@ + name + ": "@ + val + " is outside the range ["@ + low + ", "@ + high
        + "]"@
}

/// What is said of an item of a list that cannot be read.
pub open spec fn parse_problem(item: Seq<char>, name: Seq<char>, why: Seq<char>) -> Seq<char> {
    "Problem parsing value '"@ + item + "' for "@ + name + ": "@ + why
}

/// Returns `val` if it lies between `low` and `high`, both included, and
/// else says which parameter is out of range.
pub fn validate_and_extract<T: Bounded>(val: T, low: T, high: T, param_name: &str) -> (r: Result<
    T,
    String,
>)
    ensures
        low.rank() <= val.rank() <= high.rank() ==> r == Ok::<T, String>(val),
        !(low.rank() <= val.rank() <= high.rank()) ==> r is Err && r->Err_0@ == range_problem(
            param_name@,
            T::shown(val.model()),
            T::shown(low.model()),
            T::shown(high.model()),
        ),
{
    if low.at_most(&val) && val.at_most(&high) {
        Ok(val)
    } else {
        let mut s = String::from_str("Invalid value for ");
        s.append(param_name);
        s.append(": ");
        s.append(val.show().as_str());
        s.append(" is outside the range [");
        s.append(low.show().as_str());
        s.append(", ");
        s.append(high.show().as_str());
        s.append("]");
        Err(s)
    }
}

/// As `validate_and_extract`, for a value that may be absent: nothing is
/// asked of an absent one.
pub fn validate_and_extract_option<T: Bounded>(
    val: Option<T>,
    low: T,
    high: T,
    param_name: &str,
) -> (r: Result<Option<T>, String>)
    ensures
        val is None ==> r == Ok::<Option<T>, String>(None),
        val is Some && low.rank() <= val->0.rank() <= high.rank() ==> r == Ok::<Option<T>, String>(
            val,
        ),
        val is Some && !(low.rank() <= val->0.rank() <= high.rank()) ==> r is Err && r->Err_0@
            == range_problem(
            param_name@,
            T::shown(val->0.model()),
            T::shown(low.model()),
            T::shown(high.model()),
        ),
{
    match val {
        Some(v) => match validate_and_extract(v, low, high, param_name) {
            Ok(v) => Ok(Some(v)),
            Err(e) => Err(e),
        },
        None => Ok(None),
    }
}

/// The values that the pieces spell once trimmed, or what is said of the
/// first piece that spells none.
pub open spec fn read_list<T: Parameter>(pieces: Seq<Seq<char>>, name: Seq<char>) -> Result<
    Seq<T::Model>,
    Seq<char>,
>
    decreases pieces.len(),
{
    if pieces.len() == 0 {
        Ok(Seq::empty())
    } else {
        match read_list::<T>(pieces.drop_last(), name) {
            Err(e) => Err(e),
            Ok(before) => match T::read(trim(pieces.last())) {
                Ok(m) => Ok(before.push(m)),
                Err(why) => Err(parse_problem(pieces.last(), name, why)),
            },
        }
    }
}

/// The models of a list of values.
pub open spec fn models<T: Parameter>(list: Seq<T>) -> Seq<T::Model> {
    list.map_values(|t: T| t.model())
}

/// What reading the list `val` gives: its pieces between commas, each
/// trimmed and read.
pub open spec fn read_comma_separated<T: Parameter>(val: Seq<char>, name: Seq<char>) -> Result<
    Seq<T::Model>,
    Seq<char>,
> {
    read_list::<T>(split(val, seq![',']), name)
}

/// Once reading the first `k` pieces has failed, reading them all fails the
/// same way.
proof fn read_list_fails_on<T: Parameter>(pieces: Seq<Seq<char>>, k: int, name: Seq<char>)
    requires
        0 <= k <= pieces.len(),
        read_list::<T>(pieces.subrange(0, k), name) is Err,
    ensures
        read_list::<T>(pieces, name) == read_list::<T>(pieces.subrange(0, k), name),
    decreases pieces.len() - k,
{
    if k == pieces.len() {
        assert(pieces.subrange(0, k) =~= pieces);
    } else {
        assert(pieces.subrange(0, k + 1).drop_last() =~= pieces.subrange(0, k));
        read_list_fails_on::<T>(pieces, k + 1, name);
    }
}

/// Reads a list of values that commas separate.
pub fn parse_comma_separated<T: Parameter>(val: &str, param_name: &str) -> (r: Result<
    Vec<T>,
    String,
>)
    ensures
        match read_comma_separated::<T>(val@, param_name@) {
            Ok(ms) => r is Ok && models(r->Ok_0@) == ms,
            Err(e) => r is Err && r->Err_0@ == e,
        },
{
    let seps: Vec<char> = vec![','];
    assert(seps@ =~= seq![',']);
    let pieces = split_text(val, &seps);
    let ghost all = split(val@, seq![',']);
    let mut list: Vec<T> = Vec::new();
    let mut i: usize = 0;
    assert(all.subrange(0, 0) =~= Seq::<Seq<char>>::empty());
    assert(models(list@) =~= Seq::<T::Model>::empty());
    while i < pieces.len()
        invariant
            i <= pieces@.len(),
            all == crate::text::views(pieces@),
            all == split(val@, seq![',']),
            read_list::<T>(all.subrange(0, i as int), param_name@) == Ok::<
                Seq<T::Model>,
                Seq<char>,
            >(models(list@)),
        decreases pieces@.len() - i,
    {
        let piece = pieces[i].as_str();
        let trimmed = trim_text(piece);
        proof {
            assert(all.subrange(0, i + 1).drop_last() =~= all.subrange(0, i as int));
            assert(all.subrange(0, i + 1).last() == piece@);
        }
        match T::parse(trimmed.as_str()) {
            Ok(value) => {
                let ghost done = list@;
                list.push(value);
                assert(models(list@) =~= models(done).push(value.model()));
            },
            Err(why) => {
                let mut s = String::from_str("Problem parsing value '");
                s.append(piece);
                s.append("' for ");
                s.append(param_name);
                s.append(": ");
                s.append(why.as_str());
                proof {
                    assert(s@ =~= parse_problem(piece@, param_name@, why@));
                    assert(T::read(trim(piece@)) == Err::<T::Model, Seq<char>>(why@));
                    assert(read_list::<T>(all.subrange(0, i + 1), param_name@) == Err::<
                        Seq<T::Model>,
                        Seq<char>,
                    >(s@));
                    read_list_fails_on::<T>(all, i + 1, param_name@);
                }
                return Err(s);
            },
        }
        i += 1;
    }
    assert(all.subrange(0, i as int) =~= all);
    Ok(list)
}

/// As `parse_comma_separated`, for a list that may be absent.
pub fn parse_comma_separated_option<T: Parameter>(val: Option<String>, param_name: &str) -> (r:
    Result<Option<Vec<T>>, String>)
    ensures
        val is None ==> r == Ok::<Option<Vec<T>>, String>(None),
        val is Some ==> match read_comma_separated::<T>(val->0@, param_name@) {
            Ok(ms) => r is Ok && r->Ok_0 is Some && models(r->Ok_0->0@) == ms,
            Err(e) => r is Err && r->Err_0@ == e,
        },
{
    match val {
        Some(s) => match parse_comma_separated(s.as_str(), param_name) {
            Ok(list) => Ok(Some(list)),
            Err(e) => Err(e),
        },
        None => Ok(None),
    }
}

} // verus!
