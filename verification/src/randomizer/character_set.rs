//! Sets of characters.

use crate::randomizer::characters::{Character, CHARACTER_COUNT};
use vstd::prelude::*;

verus! {

/// A set of characters, held as one flag per character.
#[derive(Clone, Copy, Debug, PartialEq, Eq)]
pub struct CharacterSet {
    present: [bool; CHARACTER_COUNT],
}

impl View for CharacterSet {
    type V = Set<Character>;

    closed spec fn view(&self) -> Set<Character> {
        Set::new(|t: Character| self.present@[t.spec_index()])
    }
}

impl CharacterSet {
    /// The members of `s` whose position is below `n`, in the order of
    /// declaration.
    pub open spec fn members_below(s: Set<Character>, n: int) -> Seq<Character>
        decreases n,
    {
        if n <= 0 {
            Seq::empty()
        } else {
            let rest = Self::members_below(s, n - 1);
            let t = Character::spec_at(n - 1);
            if s.contains(t) {
                rest.push(t)
            } else {
                rest
            }
        }
    }

    /// The members of `s` in the order of declaration.
    pub open spec fn members(s: Set<Character>) -> Seq<Character> {
        Self::members_below(s, CHARACTER_COUNT as int)
    }

    /// `members_below` lists exactly the members below `n`, each once, by
    /// rising position.
    pub proof fn lemma_members_below(s: Set<Character>, n: int)
        requires
            0 <= n <= CHARACTER_COUNT,
        ensures
            Self::members_below(s, n).len() <= n,
            forall|t: Character|
                #![trigger Self::members_below(s, n).contains(t)]
                #![trigger s.contains(t)]
                Self::members_below(s, n).contains(t) <==> (s.contains(t) && t.spec_index() < n),
            forall|i: int, j: int|
                0 <= i < j < Self::members_below(s, n).len() ==> (#[trigger] Self::members_below(
                    s,
                    n,
                )[i]).spec_index() < (#[trigger] Self::members_below(s, n)[j]).spec_index(),
        decreases n,
    {
        Character::lemma_index_bijection();
        if n > 0 {
            Self::lemma_members_below(s, n - 1);
            let rest = Self::members_below(s, n - 1);
            let t = Character::spec_at(n - 1);
            let all = Self::members_below(s, n);
            assert forall|u: Character| all.contains(u) <==> (s.contains(u) && u.spec_index()
                < n) by {
                if s.contains(t) {
                    assert(all == rest.push(t));
                    if all.contains(u) {
                        let k = choose|k: int| 0 <= k < all.len() && all[k] == u;
                        if k < rest.len() {
                            assert(rest[k] == u);
                            assert(rest.contains(u));
                        }
                    }
                    if s.contains(u) && u.spec_index() < n {
                        if u.spec_index() < n - 1 {
                            assert(rest.contains(u));
                            let k = choose|k: int| 0 <= k < rest.len() && rest[k] == u;
                            assert(all[k] == u);
                        } else {
                            assert(u == t);
                            assert(all[rest.len() as int] == u);
                        }
                    }
                } else {
                    assert(all == rest);
                    if s.contains(u) && u.spec_index() < n {
                        assert(u != t);
                    }
                }
            }
            assert forall|i: int, j: int| 0 <= i < j < all.len() implies (#[trigger] all[i]).spec_index()
                < (#[trigger] all[j]).spec_index() by {
                if s.contains(t) && j == rest.len() {
                    assert(rest.contains(rest[i]));
                }
            }
        }
    }

    /// `members` lists exactly the members of the set, each once.
    pub proof fn lemma_members(s: Set<Character>)
        ensures
            Self::members(s).len() <= CHARACTER_COUNT,
            Self::members(s).no_duplicates(),
            forall|t: Character|
                #![trigger Self::members(s).contains(t)]
                #![trigger s.contains(t)]
                Self::members(s).contains(t) <==> s.contains(t),
            Self::members(s).len() == 0 <==> s == Set::<Character>::empty(),
            Self::members(s).to_set() == s,
            s.finite(),
            s.len() == Self::members(s).len(),
    {
        Character::lemma_index_bijection();
        Self::lemma_members_below(s, CHARACTER_COUNT as int);
        let all = Self::members(s);
        assert(all.to_set() =~= s);
        vstd::seq_lib::seq_to_set_is_finite(all);
        all.unique_seq_to_set();
        if all.len() == 0 {
            assert forall|t: Character| !s.contains(t) by {
                if s.contains(t) {
                    assert(all.contains(t));
                }
            }
            assert(s =~= Set::<Character>::empty());
        } else {
            assert(all.contains(all[0]));
        }
    }

    /// The empty set.
    pub fn new() -> (r: Self)
        ensures
            r@ == Set::<Character>::empty(),
    {
        let r = CharacterSet { present: [false; CHARACTER_COUNT] };
        proof {
            Character::lemma_index_bijection();
            let filled = vstd::array::spec_array_fill_for_copy_type::<bool, CHARACTER_COUNT>(false);
            assert(r.present == filled);
            assert(forall|i: int| 0 <= i < CHARACTER_COUNT ==> !filled@[i]);
            assert(r@ =~= Set::<Character>::empty());
        }
        r
    }

    /// The set of all characters.
    pub fn full() -> (r: Self)
        ensures
            r@ == Set::<Character>::full(),
    {
        let r = CharacterSet { present: [true; CHARACTER_COUNT] };
        proof {
            Character::lemma_index_bijection();
            let filled = vstd::array::spec_array_fill_for_copy_type::<bool, CHARACTER_COUNT>(true);
            assert(r.present == filled);
            assert(forall|i: int| 0 <= i < CHARACTER_COUNT ==> filled@[i]);
            assert(r@ =~= Set::<Character>::full());
        }
        r
    }

    pub fn contains(&self, t: &Character) -> (r: bool)
        ensures
            r == self@.contains(*t),
    {
        self.present[t.index()]
    }

    /// Adds a character, and says whether it was new to the set.
    pub fn insert(&mut self, t: Character) -> (r: bool)
        ensures
            final(self)@ == old(self)@.insert(t),
            r == !old(self)@.contains(t),
    {
        let i = t.index();
        let was = self.present[i];
        self.present[i] = true;
        assert(self@ =~= old(self)@.insert(t));
        !was
    }

    /// Takes a character out, and says whether it was in the set.
    pub fn remove(&mut self, t: &Character) -> (r: bool)
        ensures
            final(self)@ == old(self)@.remove(*t),
            r == old(self)@.contains(*t),
    {
        let i = t.index();
        let was = self.present[i];
        self.present[i] = false;
        assert(self@ =~= old(self)@.remove(*t));
        was
    }

    pub fn is_empty(&self) -> (r: bool)
        ensures
            r == (self@ == Set::<Character>::empty()),
    {
        let mut i: usize = 0;
        while i < CHARACTER_COUNT
            invariant
                i <= CHARACTER_COUNT,
                forall|j: int| 0 <= j < i ==> !self.present@[j],
            decreases CHARACTER_COUNT - i,
        {
            if self.present[i] {
                proof {
                    Character::lemma_index_bijection();
                    assert(self@.contains(Character::spec_at(i as int)));
                }
                return false;
            }
            i += 1;
        }
        proof {
            Character::lemma_index_bijection();
            assert(self@ =~= Set::<Character>::empty());
        }
        true
    }

    /// The number of characters in the set.
    pub fn len(&self) -> (n: usize)
        ensures
            self@.finite(),
            n == self@.len(),
            n <= CHARACTER_COUNT,
    {
        proof {
            Self::lemma_members(self@);
        }
        let mut n: usize = 0;
        let mut i: usize = 0;
        while i < CHARACTER_COUNT
            invariant
                i <= CHARACTER_COUNT,
                n <= i,
                n == Self::members_below(self@, i as int).len(),
            decreases CHARACTER_COUNT - i,
        {
            proof {
                Character::lemma_index_bijection();
            }
            if self.present[i] {
                n += 1;
            }
            i += 1;
        }
        n
    }

    /// The characters of the set in the order of declaration.
    pub fn to_vec(&self) -> (v: Vec<Character>)
        ensures
            v@ == Self::members(self@),
    {
        let mut v: Vec<Character> = Vec::new();
        let mut i: usize = 0;
        while i < CHARACTER_COUNT
            invariant
                i <= CHARACTER_COUNT,
                v@ == Self::members_below(self@, i as int),
            decreases CHARACTER_COUNT - i,
        {
            proof {
                Character::lemma_index_bijection();
            }
            if self.present[i] {
                v.push(Character::at(i));
            }
            i += 1;
        }
        v
    }

    /// The set of the characters that a list holds.
    pub fn from_vec(items: &Vec<Character>) -> (r: Self)
        ensures
            r@ == items@.to_set(),
    {
        let mut r = CharacterSet::new();
        let mut i: usize = 0;
        while i < items.len()
            invariant
                i <= items.len(),
                r@ == items@.take(i as int).to_set(),
            decreases items.len() - i,
        {
            let ghost before = r@;
            r.insert(items[i]);
            proof {
                let a = items@.take(i as int);
                let b = items@.take(i + 1);
                assert(b == a.push(items@[i as int]));
                assert forall|t: Character| before.insert(items@[i as int]).contains(t)
                    <==> b.to_set().contains(t) by {
                    if a.contains(t) {
                        let k = choose|k: int| 0 <= k < a.len() && a[k] == t;
                        assert(b[k] == t);
                    }
                    if t == items@[i as int] {
                        assert(b[i as int] == t);
                    }
                    if b.contains(t) {
                        let k = choose|k: int| 0 <= k < b.len() && b[k] == t;
                        if k < i {
                            assert(a[k] == t);
                        }
                    }
                }
                assert(r@ =~= b.to_set());
            }
            i += 1;
        }
        assert(items@.take(items.len() as int) == items@);
        r
    }

    /// The characters that either set holds.
    pub fn union(&self, other: &CharacterSet) -> (r: Self)
        ensures
            r@ == self@.union(other@),
    {
        let mut r = *self;
        let mut i: usize = 0;
        while i < CHARACTER_COUNT
            invariant
                i <= CHARACTER_COUNT,
                forall|j: int|
                    0 <= j < i ==> r.present@[j] == (self.present@[j] || other.present@[j]),
                forall|j: int| i <= j < CHARACTER_COUNT ==> r.present@[j] == self.present@[j],
            decreases CHARACTER_COUNT - i,
        {
            if other.present[i] {
                r.present[i] = true;
            }
            i += 1;
        }
        proof {
            Character::lemma_index_bijection();
            assert(r@ =~= self@.union(other@));
        }
        r
    }

    /// Adds every character of another set.
    pub fn extend(&mut self, other: &CharacterSet)
        ensures
            final(self)@ == old(self)@.union(other@),
    {
        let merged = self.union(other);
        *self = merged;
    }

    /// The characters of this set that another does not hold.
    pub fn difference(&self, other: &CharacterSet) -> (r: Self)
        ensures
            r@ == self@.difference(other@),
    {
        let mut r = *self;
        let mut i: usize = 0;
        while i < CHARACTER_COUNT
            invariant
                i <= CHARACTER_COUNT,
                forall|j: int|
                    0 <= j < i ==> r.present@[j] == (self.present@[j] && !other.present@[j]),
                forall|j: int| i <= j < CHARACTER_COUNT ==> r.present@[j] == self.present@[j],
            decreases CHARACTER_COUNT - i,
        {
            if other.present[i] {
                r.present[i] = false;
            }
            i += 1;
        }
        proof {
            Character::lemma_index_bijection();
            assert(r@ =~= self@.difference(other@));
        }
        r
    }

    /// The characters that both sets hold.
    pub fn intersection(&self, other: &CharacterSet) -> (r: Self)
        ensures
            r@ == self@.intersect(other@),
    {
        let mut r = *self;
        let mut i: usize = 0;
        while i < CHARACTER_COUNT
            invariant
                i <= CHARACTER_COUNT,
                forall|j: int|
                    0 <= j < i ==> r.present@[j] == (self.present@[j] && other.present@[j]),
                forall|j: int| i <= j < CHARACTER_COUNT ==> r.present@[j] == self.present@[j],
            decreases CHARACTER_COUNT - i,
        {
            if !other.present[i] {
                r.present[i] = false;
            }
            i += 1;
        }
        proof {
            Character::lemma_index_bijection();
            assert(r@ =~= self@.intersect(other@));
        }
        r
    }

    /// Whether every character of this set is in the other.
    pub fn is_subset(&self, other: &CharacterSet) -> (r: bool)
        ensures
            r == self@.subset_of(other@),
    {
        let mut i: usize = 0;
        while i < CHARACTER_COUNT
            invariant
                i <= CHARACTER_COUNT,
                forall|j: int| 0 <= j < i ==> (self.present@[j] ==> other.present@[j]),
            decreases CHARACTER_COUNT - i,
        {
            if self.present[i] && !other.present[i] {
                proof {
                    Character::lemma_index_bijection();
                    let t = Character::spec_at(i as int);
                    assert(self@.contains(t) && !other@.contains(t));
                }
                return false;
            }
            i += 1;
        }
        proof {
            Character::lemma_index_bijection();
        }
        true
    }

    /// Whether two sets hold the same characters.
    pub fn equals(&self, other: &CharacterSet) -> (r: bool)
        ensures
            r == (self@ == other@),
    {
        let r = self.is_subset(other) && other.is_subset(self);
        proof {
            if r {
                assert(self@ =~= other@);
            }
        }
        r
    }
}

} // verus!
