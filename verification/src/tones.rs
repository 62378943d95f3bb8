//! Chords by name.

use vstd::prelude::*;
use crate::text::{same_text, views};

verus! {

/// A chord: its name and its notes.
#[derive(Clone, Debug, PartialEq)]
pub struct Chord {
    pub id: String,
    pub notes: Vec<String>,
}

/// Chords that are found by their names. Two maps are equal when they hold
/// the same notes under the same names, in whatever order.
#[derive(Clone, Debug)]
pub struct ToneMap {
    pub chords: Vec<Chord>,
}

/// The map that a list of chords spells: a later chord takes the place of an
/// earlier one of the same name.
pub open spec fn chord_map(chords: Seq<Chord>) -> Map<Seq<char>, Seq<Seq<char>>>
    decreases chords.len(),
{
    if chords.len() == 0 {
        Map::empty()
    } else {
        chord_map(chords.drop_last()).insert(chords.last().id@, views(chords.last().notes@))
    }
}

/// Whether no two chords of the list share a name.
pub open spec fn distinct_names(chords: Seq<Chord>) -> bool {
    forall|i: int, j: int| 0 <= i < j < chords.len() ==> chords[i].id@ != chords[j].id@
}

/// Whether the chord at `i` is the last of its name.
pub open spec fn last_of_its_name(chords: Seq<Chord>, i: int) -> bool {
    forall|j: int| i < j < chords.len() ==> chords[j].id@ != chords[i].id@
}

/// The names in a chord map are the names of its chords, and under each name
/// stand the notes of the last chord of that name.
pub proof fn chord_map_names(chords: Seq<Chord>)
    ensures
        forall|k: Seq<char>| #[trigger]
            chord_map(chords).contains_key(k) <==> exists|i: int|
                0 <= i < chords.len() && #[trigger] chords[i].id@ == k,
        forall|i: int|
            0 <= i < chords.len() && last_of_its_name(chords, i) ==> chord_map(
                chords,
            )[#[trigger] chords[i].id@] == views(chords[i].notes@),
    decreases chords.len(),
{
    if chords.len() > 0 {
        let init = chords.drop_last();
        chord_map_names(init);
        assert forall|k: Seq<char>| #[trigger]
            chord_map(chords).contains_key(k) implies exists|i: int|
            0 <= i < chords.len() && #[trigger] chords[i].id@ == k by {
            if k == chords.last().id@ {
                assert(chords[chords.len() - 1].id@ == k);
            } else {
                assert(chord_map(init).contains_key(k));
                let i = choose|i: int| 0 <= i < init.len() && #[trigger] init[i].id@ == k;
                assert(chords[i].id@ == k);
            }
        }
        assert forall|k: Seq<char>|
            (exists|i: int|
                0 <= i < chords.len() && #[trigger] chords[i].id@ == k) implies #[trigger]
            chord_map(chords).contains_key(k) by {
            let i = choose|i: int| 0 <= i < chords.len() && #[trigger] chords[i].id@ == k;
            if i < chords.len() - 1 {
                assert(init[i].id@ == k);
                assert(chord_map(init).contains_key(k));
            }
        }
        assert forall|i: int|
            0 <= i < chords.len() && last_of_its_name(chords, i) implies chord_map(
            chords,
        )[#[trigger] chords[i].id@] == views(chords[i].notes@) by {
            if i < chords.len() - 1 {
                assert(init[i].id@ == chords[i].id@);
                assert(chords[chords.len() - 1].id@ != chords[i].id@);
                assert forall|j: int| i < j < init.len() implies init[j].id@ != init[i].id@ by {
                    assert(chords[j].id@ != chords[i].id@);
                }
            }
        }
    }
}

/// Putting another chord in the place of the last one of the same name
/// changes the map as an insertion does.
proof fn chord_map_replace(chords: Seq<Chord>, i: int, chord: Chord)
    requires
        0 <= i < chords.len(),
        last_of_its_name(chords, i),
        chords[i].id@ == chord.id@,
    ensures
        chord_map(chords.update(i, chord)) == chord_map(chords).insert(
            chord.id@,
            views(chord.notes@),
        ),
    decreases chords.len(),
{
    let after = chords.update(i, chord);
    if i == chords.len() - 1 {
        assert(after.drop_last() =~= chords.drop_last());
        assert(chord_map(after) =~= chord_map(chords).insert(chord.id@, views(chord.notes@)));
    } else {
        let init = chords.drop_last();
        assert(after.drop_last() =~= init.update(i, chord));
        assert forall|j: int| i < j < init.len() implies init[j].id@ != init[i].id@ by {
            assert(chords[j].id@ != chords[i].id@);
        }
        chord_map_replace(init, i, chord);
        assert(chords[chords.len() - 1].id@ != chords[i].id@);
        assert(chord_map(after) =~= chord_map(chords).insert(chord.id@, views(chord.notes@)));
    }
}

impl View for ToneMap {
    type V = Map<Seq<char>, Seq<Seq<char>>>;

    open spec fn view(&self) -> Map<Seq<char>, Seq<Seq<char>>> {
        chord_map(self.chords@)
    }
}

/// Whether the two lists hold the same texts in the same order.
pub fn same_list(a: &Vec<String>, b: &Vec<String>) -> (same: bool)
    ensures
        same == (views(a@) == views(b@)),
{
    if a.len() != b.len() {
        assert(views(a@).len() != views(b@).len());
        return false;
    }
    let mut i: usize = 0;
    while i < a.len()
        invariant
            a@.len() == b@.len(),
            i <= a@.len(),
            forall|j: int| 0 <= j < i ==> a@[j]@ == b@[j]@,
        decreases a@.len() - i,
    {
        if !same_text(a[i].as_str(), b[i].as_str()) {
            assert(views(a@)[i as int] != views(b@)[i as int]);
            return false;
        }
        i += 1;
    }
    assert(views(a@) =~= views(b@));
    true
}

impl ToneMap {
    /// Whether every name stands once.
    pub open spec fn wf(&self) -> bool {
        distinct_names(self.chords@)
    }

    /// A map without chords.
    pub fn new() -> (m: ToneMap)
        ensures
            m.wf(),
            m@ == Map::<Seq<char>, Seq<Seq<char>>>::empty(),
            m.chords@.len() == 0,
    {
        ToneMap { chords: Vec::new() }
    }

    /// Where the chord named `id` stands: the last of that name.
    pub fn position(&self, id: &str) -> (at: Option<usize>)
        ensures
            match at {
                Some(i) => i < self.chords@.len() && self.chords@[i as int].id@ == id@
                    && last_of_its_name(self.chords@, i as int),
                None => forall|j: int| 0 <= j < self.chords@.len() ==> self.chords@[j].id@ != id@,
            },
    {
        let mut i: usize = self.chords.len();
        while i > 0
            invariant
                i <= self.chords@.len(),
                forall|j: int| i <= j < self.chords@.len() ==> self.chords@[j].id@ != id@,
            decreases i,
        {
            i -= 1;
            if same_text(self.chords[i].id.as_str(), id) {
                return Some(i);
            }
        }
        None
    }

    /// Whether a chord is named `id`.
    pub fn contains_key(&self, id: &str) -> (b: bool)
        ensures
            b == self@.contains_key(id@),
    {
        proof {
            chord_map_names(self.chords@);
        }
        self.position(id).is_some()
    }

    /// The notes of the chord named `id`.
    pub fn get(&self, id: &str) -> (notes: Option<&Vec<String>>)
        ensures
            match notes {
                Some(list) => self@.contains_key(id@) && views(list@) == self@[id@],
                None => !self@.contains_key(id@),
            },
    {
        proof {
            chord_map_names(self.chords@);
        }
        match self.position(id) {
            Some(i) => Some(&self.chords[i].notes),
            None => None,
        }
    }

    /// Puts `notes` under the name `id`, in the place of the notes that stood
    /// there, if any did.
    pub fn insert(&mut self, id: String, notes: Vec<String>)
        ensures
            final(self)@ == old(self)@.insert(id@, views(notes@)),
            old(self).wf() ==> final(self).wf(),
    {
        let chord = Chord { id, notes };
        match self.position(chord.id.as_str()) {
            Some(i) => {
                proof {
                    chord_map_replace(self.chords@, i as int, chord);
                }
                self.chords.set(i, chord);
            },
            None => {
                let ghost before = self.chords@;
                self.chords.push(chord);
                assert(self.chords@.drop_last() =~= before);
            },
        }
    }

    /// The number of chords.
    pub fn len(&self) -> (n: usize)
        ensures
            n == self.chords@.len(),
    {
        self.chords.len()
    }

    /// Whether every chord that `other` names stands in this map under the
    /// same name with the same notes.
    pub fn holds_all_of(&self, other: &ToneMap) -> (b: bool)
        ensures
            b == forall|id: Seq<char>| #[trigger]
                other@.contains_key(id) ==> self@.contains_key(id) && self@[id] == other@[id],
    {
        proof {
            chord_map_names(other.chords@);
        }
        let mut i: usize = 0;
        while i < other.chords.len()
            invariant
                i <= other.chords@.len(),
                forall|j: int|
                    0 <= j < i ==> self@.contains_key(#[trigger] other.chords@[j].id@)
                        && self@[other.chords@[j].id@] == other@[other.chords@[j].id@],
                forall|id: Seq<char>| #[trigger]
                    chord_map(other.chords@).contains_key(id) <==> exists|j: int|
                        0 <= j < other.chords@.len() && #[trigger] other.chords@[j].id@ == id,
            decreases other.chords@.len() - i,
        {
            let id = other.chords[i].id.as_str();
            assert(other@.contains_key(id@));
            let same = match (self.get(id), other.get(id)) {
                (Some(ours), Some(theirs)) => same_list(ours, theirs),
                _ => false,
            };
            if !same {
                return false;
            }
            i += 1;
        }
        assert forall|id: Seq<char>| #[trigger] other@.contains_key(id) implies self@.contains_key(
            id,
        ) && self@[id] == other@[id] by {
            let j = choose|j: int|
                0 <= j < other.chords@.len() && #[trigger] other.chords@[j].id@ == id;
            assert(self@.contains_key(other.chords@[j].id@));
        }
        true
    }
}

impl PartialEq for ToneMap {
    fn eq(&self, other: &ToneMap) -> (same: bool) {
        let same = self.holds_all_of(other) && other.holds_all_of(self);
        proof {
            if same {
                assert(self@ =~= other@);
            }
        }
        same
    }
}

impl vstd::std_specs::cmp::PartialEqSpecImpl for ToneMap {
    open spec fn obeys_eq_spec() -> bool {
        true
    }

    open spec fn eq_spec(&self, other: &ToneMap) -> bool {
        self@ == other@
    }
}

} // verus!
