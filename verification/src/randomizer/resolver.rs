//! What a state satisfies, what it can reach next, and what counts toward
//! completion in it.

use crate::randomizer::characters::{Character, CHARACTER_COUNT};
use crate::randomizer::dependency::{
    Dependency, DependencyValue, DependencyView, HasDependency, ItLives, Mom, Negative, Polaroid,
};
use crate::randomizer::pool::{Unlocks, UnlocksView};
use crate::randomizer::table::entry;
use crate::randomizer::target_set::TargetSet;
use crate::randomizer::targets::{Target, TARGET_COUNT};
use vstd::prelude::*;

verus! {

impl UnlocksView {
    /// Whether a value is unlocked. The Mom marker has no flag of its own:
    /// it holds once Mom's Heart is an unlocked target.
    pub open spec fn value_satisfied(self, v: DependencyValue) -> bool {
        match v {
            DependencyValue::Character(c) => self.unlocked_chars.contains(c),
            DependencyValue::Target(t) => self.unlocked_targets.contains(t),
            DependencyValue::Mantle(_) => self.is_mantle_unlocked,
            DependencyValue::ItLives(_) => self.is_it_lives_unlocked,
            DependencyValue::Mom(_) => self.unlocked_targets.contains(Target::Heart),
            DependencyValue::Polaroid(_) => self.is_polaroid_unlocked,
            DependencyValue::Negative(_) => self.is_negative_unlocked,
        }
    }

    /// Whether at least one of some values is unlocked.
    pub open spec fn any_satisfied(self, vs: Seq<DependencyValue>) -> bool {
        exists|i: int| 0 <= i < vs.len() && self.value_satisfied(#[trigger] vs[i])
    }

    /// Whether all of some values are unlocked.
    pub open spec fn all_satisfied(self, vs: Seq<DependencyValue>) -> bool {
        forall|i: int| 0 <= i < vs.len() ==> self.value_satisfied(#[trigger] vs[i])
    }

    /// Whether a dependency holds.
    pub open spec fn satisfied(self, d: DependencyView) -> bool {
        match d {
            DependencyView::Trivial => true,
            DependencyView::Singular(v) => self.value_satisfied(v),
            DependencyView::Sum(vs) => self.any_satisfied(vs),
            DependencyView::Product(vs) => self.all_satisfied(vs),
        }
    }

    /// Whether a value can be unlocked next: what it depends on holds, and
    /// it is not unlocked itself.
    pub open spec fn newly_reachable(self, v: DependencyValue) -> bool {
        self.satisfied(v.spec_depends_on()) && !self.value_satisfied(v)
    }

    /// Whether at least one of some values can be unlocked next.
    pub open spec fn any_newly_reachable(self, vs: Seq<DependencyValue>) -> bool {
        exists|i: int| 0 <= i < vs.len() && self.newly_reachable(#[trigger] vs[i])
    }

    /// Whether each of some values can be unlocked next.
    pub open spec fn all_newly_reachable(self, vs: Seq<DependencyValue>) -> bool {
        forall|i: int| 0 <= i < vs.len() ==> self.newly_reachable(#[trigger] vs[i])
    }

    /// Whether a dependency can be met next: its one value can be unlocked
    /// next, or one of its alternatives can, or every one of its parts can.
    pub open spec fn reachable(self, d: DependencyView) -> bool {
        match d {
            DependencyView::Trivial => true,
            DependencyView::Singular(v) => self.newly_reachable(v),
            DependencyView::Sum(vs) => self.any_newly_reachable(vs),
            DependencyView::Product(vs) => self.all_newly_reachable(vs),
        }
    }

    /// Whether a target counts toward completion in this state. The nine
    /// that always count do; each of the other four counts exactly while the
    /// marker it proves can be unlocked next.
    pub open spec fn target_significant(self, t: Target) -> bool {
        match t {
            Target::Isaac => self.newly_reachable(DependencyValue::Polaroid(Polaroid)),
            Target::Satan => self.newly_reachable(DependencyValue::Negative(Negative)),
            Target::Heart => self.newly_reachable(DependencyValue::ItLives(ItLives)),
            Target::Mom => self.newly_reachable(DependencyValue::Mom(Mom)),
            _ => true,
        }
    }

    /// The targets that count toward completion in this state.
    pub open spec fn significant_targets(self) -> Set<Target> {
        Set::new(|t: Target| self.target_significant(t))
    }

    /// Whether a character has marks for every target that counts now.
    pub open spec fn char_completed(self, c: Character) -> bool {
        self.marks.contains_key(c) && self.significant_targets().subset_of(self.marks[c])
    }

    /// The targets that a character may be sent against: those unlocked,
    /// counting now and not yet marked. Mother is left out until the Holy
    /// Mantle is unlocked, and the Lost and its tainted counterpart have no
    /// valid target until then.
    pub open spec fn valid_targets(self, c: Character) -> Set<Target> {
        if (c == Character::Lost || c == Character::TaintedLost) && !self.is_mantle_unlocked {
            Set::empty()
        } else {
            Set::new(
                |t: Target|
                    self.unlocked_targets.contains(t) && self.target_significant(t) && !entry(
                        self.marks,
                        c,
                    ).contains(t) && (t == Target::Mother ==> self.is_mantle_unlocked),
            )
        }
    }
}

impl Unlocks {
    /// Whether a value is unlocked.
    pub fn is_dependency_val_unlocked(&self, dep_val: &DependencyValue) -> (r: bool)
        ensures
            r == self@.value_satisfied(*dep_val),
    {
        match dep_val {
            DependencyValue::Character(ch) => self.unlocked_chars().contains(ch),
            DependencyValue::Target(targ) => self.unlocked_targets().contains(targ),
            DependencyValue::Mantle(_) => self.is_mantle_unlocked(),
            DependencyValue::ItLives(_) => self.is_it_lives_unlocked(),
            DependencyValue::Mom(_) => self.unlocked_targets().contains(&Target::Heart),
            DependencyValue::Polaroid(_) => self.is_polaroid_unlocked(),
            DependencyValue::Negative(_) => self.is_negative_unlocked(),
        }
    }

    /// Whether a dependency holds.
    pub fn is_unlocked_now(&self, dep: &Dependency) -> (r: bool)
        ensures
            r == self@.satisfied(dep@),
    {
        match dep {
            Dependency::Trivial => true,
            Dependency::Singular(val) => self.is_dependency_val_unlocked(val),
            Dependency::Sum(vals) => {
                let mut i: usize = 0;
                while i < vals.len()
                    invariant
                        i <= vals.len(),
                        dep@ == DependencyView::Sum(vals@),
                        forall|j: int| 0 <= j < i ==> !self@.value_satisfied(#[trigger] vals@[j]),
                    decreases vals.len() - i,
                {
                    if self.is_dependency_val_unlocked(&vals[i]) {
                        return true;
                    }
                    i += 1;
                }
                false
            },
            Dependency::Product(vals) => {
                let mut i: usize = 0;
                while i < vals.len()
                    invariant
                        i <= vals.len(),
                        dep@ == DependencyView::Product(vals@),
                        forall|j: int| 0 <= j < i ==> self@.value_satisfied(#[trigger] vals@[j]),
                    decreases vals.len() - i,
                {
                    if !self.is_dependency_val_unlocked(&vals[i]) {
                        return false;
                    }
                    i += 1;
                }
                true
            },
        }
    }

    /// Whether a value can be unlocked next.
    pub fn is_dependency_val_unlockable(&self, dep_val: &DependencyValue) -> (r: bool)
        ensures
            r == self@.newly_reachable(*dep_val),
    {
        self.is_unlocked_now(&dep_val.depends_on()) && !self.is_dependency_val_unlocked(dep_val)
    }

    /// Whether a dependency can be met next.
    pub fn is_unlockable_now(&self, dep: &Dependency) -> (r: bool)
        ensures
            r == self@.reachable(dep@),
    {
        match dep {
            Dependency::Trivial => true,
            Dependency::Singular(val) => self.is_dependency_val_unlockable(val),
            Dependency::Sum(vals) => {
                let mut i: usize = 0;
                while i < vals.len()
                    invariant
                        i <= vals.len(),
                        dep@ == DependencyView::Sum(vals@),
                        forall|j: int| 0 <= j < i ==> !self@.newly_reachable(#[trigger] vals@[j]),
                    decreases vals.len() - i,
                {
                    if self.is_dependency_val_unlockable(&vals[i]) {
                        return true;
                    }
                    i += 1;
                }
                false
            },
            Dependency::Product(vals) => {
                let mut i: usize = 0;
                while i < vals.len()
                    invariant
                        i <= vals.len(),
                        dep@ == DependencyView::Product(vals@),
                        forall|j: int| 0 <= j < i ==> self@.newly_reachable(#[trigger] vals@[j]),
                    decreases vals.len() - i,
                {
                    if !self.is_dependency_val_unlockable(&vals[i]) {
                        return false;
                    }
                    i += 1;
                }
                true
            },
        }
    }

    /// Whether a target counts toward completion in this state.
    pub fn is_target_significant(&self, targ: &Target) -> (r: bool)
        ensures
            r == self@.target_significant(*targ),
    {
        match targ {
            Target::BlueBaby
            | Target::Lamb
            | Target::MegaSatan
            | Target::Delirium
            | Target::Beast
            | Target::Mother
            | Target::UltraGreed
            | Target::BossRush
            | Target::Hush => true,
            Target::Isaac => self.is_dependency_val_unlockable(
                &DependencyValue::Polaroid(Polaroid),
            ),
            Target::Satan => self.is_dependency_val_unlockable(
                &DependencyValue::Negative(Negative),
            ),
            Target::Heart => self.is_dependency_val_unlockable(&DependencyValue::ItLives(ItLives)),
            Target::Mom => self.is_dependency_val_unlockable(&DependencyValue::Mom(Mom)),
        }
    }

    /// The targets that count toward completion in this state.
    pub fn significant_targets(&self) -> (r: TargetSet)
        ensures
            r@ == self@.significant_targets(),
    {
        let mut r = TargetSet::new();
        let mut i: usize = 0;
        while i < TARGET_COUNT
            invariant
                i <= TARGET_COUNT,
                forall|t: Target|
                    #![trigger r@.contains(t)]
                    r@.contains(t) <==> (t.spec_index() < i && self@.target_significant(t)),
            decreases TARGET_COUNT - i,
        {
            proof {
                Target::lemma_index_bijection();
            }
            let t = Target::at(i);
            if self.is_target_significant(&t) {
                r.insert(t);
            }
            i += 1;
        }
        proof {
            Target::lemma_index_bijection();
            assert(r@ =~= self@.significant_targets());
        }
        r
    }

    /// Whether a character has marks for every target that counts now.
    pub fn is_char_completed(&self, ch: &Character) -> (r: bool)
        ensures
            r == self@.char_completed(*ch),
    {
        match self.marks().get(ch) {
            Some(marks) => self.significant_targets().is_subset(&marks),
            None => false,
        }
    }

    /// The targets that a character may be sent against.
    pub fn unlocked_targets_for(&self, ch: &Character) -> (r: TargetSet)
        ensures
            r@ == self@.valid_targets(*ch),
    {
        let lost = match ch {
            Character::Lost | Character::TaintedLost => true,
            _ => false,
        };
        if lost && !self.is_mantle_unlocked() {
            return TargetSet::new();
        }
        let completed = match self.marks().get(ch) {
            Some(completed) => completed,
            None => TargetSet::new(),
        };
        let mut valid_targets = Target::get_remaining(&completed).intersection(
            self.unlocked_targets(),
        ).intersection(&self.significant_targets());
        if !self.is_mantle_unlocked() {
            valid_targets.remove(&Target::Mother);
        }
        assert(valid_targets@ =~= self@.valid_targets(*ch));
        valid_targets
    }

    /// Marks every character as having completed every target that counts
    /// now, which unlocks them all, and unlocks the four markers.
    pub fn set_everything_unlocked(&mut self)
        ensures
            final(self)@ == (UnlocksView {
                marks: Map::new(
                    |c: Character| true,
                    |c: Character| old(self)@.significant_targets(),
                ),
                unlocked_chars: Set::full(),
                unlocked_targets: old(self)@.unlocked_targets.union(
                    old(self)@.significant_targets(),
                ),
                is_mantle_unlocked: true,
                is_it_lives_unlocked: true,
                is_polaroid_unlocked: true,
                is_negative_unlocked: true,
                ..old(self)@
            }),
            final(self)@.wf(),
    {
        let ghost start = self@;
        let targs = self.significant_targets();
        let mut i: usize = 0;
        while i < CHARACTER_COUNT
            invariant
                i <= CHARACTER_COUNT,
                targs@ == start.significant_targets(),
                forall|c: Character|
                    #![trigger self@.marks.contains_key(c)]
                    self@.marks.contains_key(c) <==> (c.spec_index() < i
                        || start.marks.contains_key(c)),
                forall|c: Character|
                    #![trigger self@.marks[c]]
                    c.spec_index() < i ==> self@.marks[c] == targs@,
                forall|c: Character|
                    #![trigger self@.unlocked_chars.contains(c)]
                    self@.unlocked_chars.contains(c) <==> (c.spec_index() < i
                        || start.unlocked_chars.contains(c)),
                self@.unlocked_targets == (if i == 0 {
                    start.unlocked_targets
                } else {
                    start.unlocked_targets.union(targs@)
                }),
                self@.is_mantle_unlocked == start.is_mantle_unlocked,
                self@.is_it_lives_unlocked == start.is_it_lives_unlocked,
                self@.is_polaroid_unlocked == start.is_polaroid_unlocked,
                self@.is_negative_unlocked == start.is_negative_unlocked,
                self@.boss_rush_chance == start.boss_rush_chance,
                self@.hush_chance == start.hush_chance,
                self@.roll_boss_rush_on_alt == start.roll_boss_rush_on_alt,
            decreases CHARACTER_COUNT - i,
        {
            proof {
                Character::lemma_index_bijection();
            }
            self.set_marks(Character::at(i), targs);
            assert(self@.unlocked_targets =~= start.unlocked_targets.union(targs@));
            i += 1;
        }
        self.set_mantle_unlocked(true);
        self.set_it_lives_unlocked(true);
        self.set_polaroid_unlocked(true);
        self.set_negative_unlocked(true);
        proof {
            Character::lemma_index_bijection();
            assert(self@.marks =~= Map::new(
                |c: Character| true,
                |c: Character| start.significant_targets(),
            ));
            assert(self@.unlocked_chars =~= Set::full());
        }
    }
}

} // verus!
