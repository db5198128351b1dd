//! Tables that give some characters a set of targets each.

use crate::randomizer::character_set::CharacterSet;
use crate::randomizer::characters::{Character, CHARACTER_COUNT};
use crate::randomizer::target_set::TargetSet;
use crate::randomizer::targets::Target;
use vstd::prelude::*;

verus! {

/// What a table gives a character: its set, or no target where it has none.
pub open spec fn entry(m: Map<Character, Set<Target>>, c: Character) -> Set<Target> {
    if m.contains_key(c) {
        m[c]
    } else {
        Set::empty()
    }
}

/// The table that gives each character what either of two tables gives it.
pub open spec fn merged(
    a: Map<Character, Set<Target>>,
    b: Map<Character, Set<Target>>,
) -> Map<Character, Set<Target>> {
    Map::new(
        |c: Character| a.contains_key(c) || b.contains_key(c),
        |c: Character| entry(a, c).union(entry(b, c)),
    )
}

/// Merging is associative, and the empty table changes nothing.
pub proof fn lemma_merged(
    a: Map<Character, Set<Target>>,
    b: Map<Character, Set<Target>>,
    c: Map<Character, Set<Target>>,
)
    ensures
        merged(merged(a, b), c) == merged(a, merged(b, c)),
        merged(a, Map::empty()) == a,
        merged(Map::empty(), a) == a,
        merged(a, b) == merged(b, a),
{
    assert(merged(merged(a, b), c) =~~= merged(a, merged(b, c)));
    assert(merged(a, Map::empty()) =~~= a);
    assert(merged(Map::empty(), a) =~~= a);
    assert(merged(a, b) =~~= merged(b, a));
}

/// A table from characters to sets of targets. A character may be in the
/// table with an empty set, which is not the same as being out of it.
#[derive(Clone, Copy, Debug, PartialEq, Eq)]
pub struct TargetTable {
    rows: [Option<TargetSet>; CHARACTER_COUNT],
}

impl View for TargetTable {
    type V = Map<Character, Set<Target>>;

    closed spec fn view(&self) -> Map<Character, Set<Target>> {
        Map::new(
            |c: Character| self.rows@[c.spec_index()] is Some,
            |c: Character| self.rows@[c.spec_index()].unwrap()@,
        )
    }
}

impl TargetTable {
    /// The empty table.
    pub fn new() -> (r: Self)
        ensures
            r@ == Map::<Character, Set<Target>>::empty(),
    {
        let r = TargetTable { rows: [None; CHARACTER_COUNT] };
        proof {
            Character::lemma_index_bijection();
            let filled = vstd::array::spec_array_fill_for_copy_type::<
                Option<TargetSet>,
                CHARACTER_COUNT,
            >(None);
            assert(r.rows == filled);
            assert(forall|i: int| 0 <= i < CHARACTER_COUNT ==> filled@[i] is None);
            assert(r@ =~= Map::<Character, Set<Target>>::empty());
        }
        r
    }

    /// The set that the table gives a character, if it gives one.
    pub fn get(&self, c: &Character) -> (r: Option<TargetSet>)
        ensures
            match r {
                Some(set) => self@.contains_key(*c) && set@ == self@[*c],
                None => !self@.contains_key(*c),
            },
    {
        self.rows[c.index()]
    }

    pub fn contains_key(&self, c: &Character) -> (r: bool)
        ensures
            r == self@.contains_key(*c),
    {
        self.rows[c.index()].is_some()
    }

    /// Gives a character a set, in place of the one it had.
    pub fn insert(&mut self, c: Character, set: TargetSet)
        ensures
            final(self)@ == old(self)@.insert(c, set@),
    {
        self.rows[c.index()] = Some(set);
        assert(self@ =~= old(self)@.insert(c, set@));
    }

    /// Takes a character out of the table.
    pub fn remove(&mut self, c: &Character)
        ensures
            final(self)@ == old(self)@.remove(*c),
    {
        self.rows[c.index()] = None;
        assert(self@ =~= old(self)@.remove(*c));
    }

    /// Adds one target to a character's set, starting the set if the
    /// character had none.
    pub fn add(&mut self, c: Character, t: Target)
        ensures
            final(self)@ == old(self)@.insert(c, entry(old(self)@, c).insert(t)),
    {
        let mut set = match self.get(&c) {
            Some(set) => set,
            None => TargetSet::new(),
        };
        set.insert(t);
        self.insert(c, set);
    }

    /// Adds targets to a character's set, starting the set if the character
    /// had none; the character is in the table afterwards even where no
    /// target was added.
    pub fn add_all(&mut self, c: Character, targets: &TargetSet)
        ensures
            final(self)@ == old(self)@.insert(c, entry(old(self)@, c).union(targets@)),
    {
        let mut set = match self.get(&c) {
            Some(set) => set,
            None => TargetSet::new(),
        };
        set.extend(targets);
        self.insert(c, set);
    }

    pub fn is_empty(&self) -> (r: bool)
        ensures
            r == (self@ == Map::<Character, Set<Target>>::empty()),
    {
        let mut i: usize = 0;
        while i < CHARACTER_COUNT
            invariant
                i <= CHARACTER_COUNT,
                forall|j: int| 0 <= j < i ==> self.rows@[j] is None,
            decreases CHARACTER_COUNT - i,
        {
            if self.rows[i].is_some() {
                proof {
                    Character::lemma_index_bijection();
                    assert(self@.contains_key(Character::spec_at(i as int)));
                }
                return false;
            }
            i += 1;
        }
        proof {
            Character::lemma_index_bijection();
            assert(self@ =~= Map::<Character, Set<Target>>::empty());
        }
        true
    }

    /// The characters that the table gives a set.
    pub fn key_set(&self) -> (r: CharacterSet)
        ensures
            r@ == self@.dom(),
    {
        let mut r = CharacterSet::new();
        let mut i: usize = 0;
        while i < CHARACTER_COUNT
            invariant
                i <= CHARACTER_COUNT,
                forall|c: Character|
                    r@.contains(c) <==> (c.spec_index() < i && self@.contains_key(c)),
            decreases CHARACTER_COUNT - i,
        {
            proof {
                Character::lemma_index_bijection();
            }
            if self.rows[i].is_some() {
                r.insert(Character::at(i));
            }
            i += 1;
        }
        proof {
            Character::lemma_index_bijection();
            assert(r@ =~= self@.dom());
        }
        r
    }

    /// The characters that the table gives a set, in the order of
    /// declaration.
    pub fn keys(&self) -> (v: Vec<Character>)
        ensures
            v@ == CharacterSet::members(self@.dom()),
    {
        self.key_set().to_vec()
    }

    /// Keeps the characters of a set and drops the others.
    pub fn restrict(&mut self, keep: &CharacterSet)
        ensures
            final(self)@ == old(self)@.restrict(keep@),
    {
        let mut r = *self;
        let mut i: usize = 0;
        while i < CHARACTER_COUNT
            invariant
                i <= CHARACTER_COUNT,
                forall|c: Character|
                    #![trigger r@.contains_key(c)]
                    r@.contains_key(c) <==> (self@.contains_key(c) && (c.spec_index() >= i
                        || keep@.contains(c))),
                forall|c: Character| #[trigger] r@.contains_key(c) ==> r@[c] == self@[c],
            decreases CHARACTER_COUNT - i,
        {
            proof {
                Character::lemma_index_bijection();
            }
            let c = Character::at(i);
            if !keep.contains(&c) {
                r.remove(&c);
            }
            i += 1;
        }
        proof {
            Character::lemma_index_bijection();
            assert(r@ =~= self@.restrict(keep@));
        }
        *self = r;
    }

    /// Drops the characters of a set.
    pub fn remove_keys(&mut self, gone: &CharacterSet)
        ensures
            final(self)@ == old(self)@.remove_keys(gone@),
    {
        let mut r = *self;
        let mut i: usize = 0;
        while i < CHARACTER_COUNT
            invariant
                i <= CHARACTER_COUNT,
                forall|c: Character|
                    #![trigger r@.contains_key(c)]
                    r@.contains_key(c) <==> (self@.contains_key(c) && (c.spec_index() >= i
                        || !gone@.contains(c))),
                forall|c: Character| #[trigger] r@.contains_key(c) ==> r@[c] == self@[c],
            decreases CHARACTER_COUNT - i,
        {
            proof {
                Character::lemma_index_bijection();
            }
            let c = Character::at(i);
            if gone.contains(&c) {
                r.remove(&c);
            }
            i += 1;
        }
        proof {
            Character::lemma_index_bijection();
            assert(r@ =~= self@.remove_keys(gone@));
        }
        *self = r;
    }

    /// Keeps, in every character's set, the targets of a set and drops the
    /// others. No character leaves the table.
    pub fn retain_targets(&mut self, keep: &TargetSet)
        ensures
            final(self)@ == old(self)@.map_values(|ts: Set<Target>| ts.intersect(keep@)),
    {
        let mut r = *self;
        let mut i: usize = 0;
        while i < CHARACTER_COUNT
            invariant
                i <= CHARACTER_COUNT,
                forall|c: Character| r@.contains_key(c) <==> self@.contains_key(c),
                forall|c: Character|
                    r@.contains_key(c) && c.spec_index() < i ==> r@[c] == self@[c].intersect(
                        keep@,
                    ),
                forall|c: Character| r@.contains_key(c) && c.spec_index() >= i ==> r@[c] == self@[c],
            decreases CHARACTER_COUNT - i,
        {
            proof {
                Character::lemma_index_bijection();
            }
            let c = Character::at(i);
            match r.get(&c) {
                Some(set) => {
                    r.insert(c, set.intersection(keep));
                },
                None => {},
            }
            i += 1;
        }
        proof {
            Character::lemma_index_bijection();
            assert(r@ =~= self@.map_values(|ts: Set<Target>| ts.intersect(keep@)));
        }
        *self = r;
    }

    /// Drops the targets of a set from every character's set. No character
    /// leaves the table.
    pub fn remove_targets(&mut self, gone: &TargetSet)
        ensures
            final(self)@ == old(self)@.map_values(|ts: Set<Target>| ts.difference(gone@)),
    {
        let mut r = *self;
        let mut i: usize = 0;
        while i < CHARACTER_COUNT
            invariant
                i <= CHARACTER_COUNT,
                forall|c: Character| r@.contains_key(c) <==> self@.contains_key(c),
                forall|c: Character|
                    r@.contains_key(c) && c.spec_index() < i ==> r@[c] == self@[c].difference(
                        gone@,
                    ),
                forall|c: Character| r@.contains_key(c) && c.spec_index() >= i ==> r@[c] == self@[c],
            decreases CHARACTER_COUNT - i,
        {
            proof {
                Character::lemma_index_bijection();
            }
            let c = Character::at(i);
            match r.get(&c) {
                Some(set) => {
                    r.insert(c, set.difference(gone));
                },
                None => {},
            }
            i += 1;
        }
        proof {
            Character::lemma_index_bijection();
            assert(r@ =~= self@.map_values(|ts: Set<Target>| ts.difference(gone@)));
        }
        *self = r;
    }

    /// Adds to each character's set what another table gives it.
    pub fn merge(&mut self, other: &TargetTable)
        ensures
            final(self)@ == merged(old(self)@, other@),
    {
        let mut r = *self;
        let mut i: usize = 0;
        while i < CHARACTER_COUNT
            invariant
                i <= CHARACTER_COUNT,
                forall|c: Character|
                    c.spec_index() < i ==> (r@.contains_key(c) <==> merged(
                        self@,
                        other@,
                    ).contains_key(c)),
                forall|c: Character|
                    c.spec_index() < i && r@.contains_key(c) ==> r@[c] == merged(self@, other@)[c],
                forall|c: Character|
                    c.spec_index() >= i ==> (r@.contains_key(c) <==> self@.contains_key(c)),
                forall|c: Character|
                    c.spec_index() >= i && r@.contains_key(c) ==> r@[c] == self@[c],
            decreases CHARACTER_COUNT - i,
        {
            proof {
                Character::lemma_index_bijection();
            }
            let c = Character::at(i);
            match other.get(&c) {
                Some(set) => {
                    r.add_all(c, &set);
                },
                None => {},
            }
            i += 1;
        }
        proof {
            Character::lemma_index_bijection();
            assert(r@ =~~= merged(self@, other@));
        }
        *self = r;
    }
}

} // verus!
