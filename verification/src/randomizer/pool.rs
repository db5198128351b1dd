//! The unlock state and the operations that change it.

use crate::randomizer::character_set::CharacterSet;
use crate::randomizer::characters::Character;
use crate::randomizer::table::{entry, TargetTable};
use crate::randomizer::target_set::TargetSet;
use crate::randomizer::targets::Target;
use vstd::prelude::*;

verus! {

/// The probability one, as the bit pattern of an IEEE 754 single-precision
/// number.
pub const CERTAIN: u32 = 0x3f80_0000;

/// Whether marks are held only by the given characters and only for the
/// given targets.
pub open spec fn marks_within(
    marks: Map<Character, Set<Target>>,
    chars: Set<Character>,
    targets: Set<Target>,
) -> bool {
    &&& forall|c: Character| #[trigger] marks.contains_key(c) ==> chars.contains(c)
    &&& forall|c: Character, t: Target|
        marks.contains_key(c) && #[trigger] marks[c].contains(t) ==> targets.contains(t)
}

/// The unlock state as a mathematical value.
pub struct UnlocksView {
    /// The targets that each character is recorded to have completed.
    pub marks: Map<Character, Set<Target>>,
    /// The characters that can be rolled.
    pub unlocked_chars: Set<Character>,
    /// The targets that can be rolled.
    pub unlocked_targets: Set<Target>,
    pub is_mantle_unlocked: bool,
    pub is_it_lives_unlocked: bool,
    pub is_polaroid_unlocked: bool,
    pub is_negative_unlocked: bool,
    /// The chance of Boss Rush where it is left to chance, as the bit
    /// pattern of a single-precision number.
    pub boss_rush_chance: u32,
    /// The chance of Hush, likewise.
    pub hush_chance: u32,
    /// Whether Boss Rush may accompany a target of the alternative path.
    pub roll_boss_rush_on_alt: bool,
}

impl UnlocksView {
    /// The invariant of the state: marks are held only by unlocked
    /// characters, and only for unlocked targets.
    pub open spec fn wf(self) -> bool {
        marks_within(self.marks, self.unlocked_chars, self.unlocked_targets)
    }

    /// The state after a character's completed targets are recorded in place
    /// of those recorded before: the character and the targets are unlocked
    /// along with it.
    pub open spec fn with_marks(self, ch: Character, marks: Set<Target>) -> UnlocksView {
        UnlocksView {
            marks: self.marks.insert(ch, marks),
            unlocked_chars: self.unlocked_chars.insert(ch),
            unlocked_targets: self.unlocked_targets.union(marks),
            ..self
        }
    }

    /// The state after more completed targets are recorded for a character:
    /// the character and the targets are unlocked along with it.
    pub open spec fn marked(self, ch: Character, marks: Set<Target>) -> UnlocksView {
        UnlocksView {
            marks: self.marks.insert(ch, entry(self.marks, ch).union(marks)),
            unlocked_chars: self.unlocked_chars.insert(ch),
            unlocked_targets: self.unlocked_targets.union(marks),
            ..self
        }
    }

    /// The state of a player who has unlocked nothing yet.
    pub open spec fn fresh() -> UnlocksView {
        UnlocksView {
            marks: Map::empty(),
            unlocked_chars: set![Character::Isaac],
            unlocked_targets: set![Target::Mom, Target::UltraGreed, Target::BossRush],
            is_mantle_unlocked: false,
            is_it_lives_unlocked: false,
            is_polaroid_unlocked: false,
            is_negative_unlocked: false,
            boss_rush_chance: CERTAIN,
            hush_chance: CERTAIN,
            roll_boss_rush_on_alt: true,
        }
    }
}

/// The unlock state of one player: what is unlocked, what each character has
/// completed, and how picks are to be made.
///
/// Marks are held only by unlocked characters, and only for unlocked
/// targets. No operation on a state breaks this: what locks a character or a
/// target again takes the marks that name it away, and what records marks
/// unlocks what they name.
///
/// The two chances are kept as the bit patterns of single-precision numbers.
/// The state stores and returns them and never looks inside.
#[derive(Debug, PartialEq, Eq)]
pub struct Unlocks {
    marks: TargetTable,
    unlocked_chars: CharacterSet,
    unlocked_targets: TargetSet,
    is_mantle_unlocked: bool,
    is_it_lives_unlocked: bool,
    is_polaroid_unlocked: bool,
    is_negative_unlocked: bool,
    boss_rush_chance: u32,
    hush_chance: u32,
    roll_boss_rush_on_alt: bool,
}

impl View for Unlocks {
    type V = UnlocksView;

    closed spec fn view(&self) -> UnlocksView {
        UnlocksView {
            marks: self.marks@,
            unlocked_chars: self.unlocked_chars@,
            unlocked_targets: self.unlocked_targets@,
            is_mantle_unlocked: self.is_mantle_unlocked,
            is_it_lives_unlocked: self.is_it_lives_unlocked,
            is_polaroid_unlocked: self.is_polaroid_unlocked,
            is_negative_unlocked: self.is_negative_unlocked,
            boss_rush_chance: self.boss_rush_chance,
            hush_chance: self.hush_chance,
            roll_boss_rush_on_alt: self.roll_boss_rush_on_alt,
        }
    }
}

impl Default for Unlocks {
    fn default() -> (r: Self)
        ensures
            r@ == UnlocksView::fresh(),
            r@.wf(),
    {
        let mut unlocked_chars = CharacterSet::new();
        unlocked_chars.insert(Character::Isaac);
        let mut unlocked_targets = TargetSet::new();
        unlocked_targets.insert(Target::Mom);
        unlocked_targets.insert(Target::UltraGreed);
        unlocked_targets.insert(Target::BossRush);
        let r = Unlocks {
            marks: TargetTable::new(),
            unlocked_chars,
            unlocked_targets,
            is_mantle_unlocked: false,
            is_it_lives_unlocked: false,
            is_polaroid_unlocked: false,
            is_negative_unlocked: false,
            boss_rush_chance: CERTAIN,
            hush_chance: CERTAIN,
            roll_boss_rush_on_alt: true,
        };
        proof {
            assert(r@.unlocked_chars =~= UnlocksView::fresh().unlocked_chars);
            assert(r@.unlocked_targets =~= UnlocksView::fresh().unlocked_targets);
        }
        r
    }
}

impl Unlocks {
    /// What holds of every state at all times: its marks are held only by
    /// unlocked characters, and only for unlocked targets.
    #[verifier::type_invariant]
    closed spec fn marks_are_within(self) -> bool {
        marks_within(self.marks@, self.unlocked_chars@, self.unlocked_targets@)
    }

    /// A state with the given parts. Marks may be held only by characters
    /// among the unlocked ones, and only for targets among the unlocked ones.
    pub fn new(
        marks: TargetTable,
        unlocked_chars: CharacterSet,
        unlocked_targets: TargetSet,
        is_mantle_unlocked: bool,
        is_it_lives_unlocked: bool,
        is_polaroid_unlocked: bool,
        is_negative_unlocked: bool,
        boss_rush_chance: u32,
        hush_chance: u32,
        roll_boss_rush_on_alt: bool,
    ) -> (r: Self)
        requires
            marks_within(marks@, unlocked_chars@, unlocked_targets@),
        ensures
            r@.wf(),
            r@ == (UnlocksView {
                marks: marks@,
                unlocked_chars: unlocked_chars@,
                unlocked_targets: unlocked_targets@,
                is_mantle_unlocked,
                is_it_lives_unlocked,
                is_polaroid_unlocked,
                is_negative_unlocked,
                boss_rush_chance,
                hush_chance,
                roll_boss_rush_on_alt,
            }),
    {
        Unlocks {
            marks,
            unlocked_chars,
            unlocked_targets,
            is_mantle_unlocked,
            is_it_lives_unlocked,
            is_polaroid_unlocked,
            is_negative_unlocked,
            boss_rush_chance,
            hush_chance,
            roll_boss_rush_on_alt,
        }
    }

    pub fn marks(&self) -> (r: &TargetTable)
        ensures
            r@ == self@.marks,
            self@.wf(),
    {
        proof {
            use_type_invariant(self);
        }
        &self.marks
    }

    pub fn unlocked_chars(&self) -> (r: &CharacterSet)
        ensures
            r@ == self@.unlocked_chars,
    {
        &self.unlocked_chars
    }

    pub fn unlocked_targets(&self) -> (r: &TargetSet)
        ensures
            r@ == self@.unlocked_targets,
    {
        &self.unlocked_targets
    }

    pub fn is_mantle_unlocked(&self) -> (r: bool)
        ensures
            r == self@.is_mantle_unlocked,
    {
        self.is_mantle_unlocked
    }

    pub fn is_it_lives_unlocked(&self) -> (r: bool)
        ensures
            r == self@.is_it_lives_unlocked,
    {
        self.is_it_lives_unlocked
    }

    pub fn is_polaroid_unlocked(&self) -> (r: bool)
        ensures
            r == self@.is_polaroid_unlocked,
    {
        self.is_polaroid_unlocked
    }

    pub fn is_negative_unlocked(&self) -> (r: bool)
        ensures
            r == self@.is_negative_unlocked,
    {
        self.is_negative_unlocked
    }

    pub fn boss_rush_chance(&self) -> (r: u32)
        ensures
            r == self@.boss_rush_chance,
    {
        self.boss_rush_chance
    }

    pub fn hush_chance(&self) -> (r: u32)
        ensures
            r == self@.hush_chance,
    {
        self.hush_chance
    }

    pub fn roll_boss_rush_on_alt(&self) -> (r: bool)
        ensures
            r == self@.roll_boss_rush_on_alt,
    {
        self.roll_boss_rush_on_alt
    }

    /// Records a character's completed targets in place of those recorded
    /// before, and unlocks the character and the targets.
    pub fn set_marks(&mut self, ch: Character, marks: TargetSet)
        ensures
            final(self)@ == old(self)@.with_marks(ch, marks@),
            final(self)@.wf(),
    {
        proof {
            use_type_invariant(&*self);
        }
        let mut unlocked_chars = self.unlocked_chars;
        unlocked_chars.insert(ch);
        let mut recorded = self.marks;
        recorded.insert(ch, marks);
        self.unlocked_chars = unlocked_chars;
        self.unlocked_targets = self.unlocked_targets.union(&marks);
        self.marks = recorded;
    }

    /// Records more completed targets for a character, and unlocks the
    /// character and the targets.
    pub fn add_marks(&mut self, ch: Character, marks: TargetSet)
        ensures
            final(self)@ == old(self)@.marked(ch, marks@),
            final(self)@.wf(),
    {
        proof {
            use_type_invariant(&*self);
        }
        let mut unlocked_chars = self.unlocked_chars;
        unlocked_chars.insert(ch);
        let mut recorded = self.marks;
        recorded.add_all(ch, &marks);
        self.unlocked_chars = unlocked_chars;
        self.unlocked_targets = self.unlocked_targets.union(&marks);
        self.marks = recorded;
    }

    /// Takes completed targets back from a character. A character left with
    /// none is no longer recorded at all; one that was not recorded stays so.
    pub fn remove_marks(&mut self, ch: &Character, marks: &TargetSet)
        ensures
            final(self)@ == (UnlocksView {
                marks: if !old(self)@.marks.contains_key(*ch) {
                    old(self)@.marks
                } else if old(self)@.marks[*ch].difference(marks@) == Set::<Target>::empty() {
                    old(self)@.marks.remove(*ch)
                } else {
                    old(self)@.marks.insert(*ch, old(self)@.marks[*ch].difference(marks@))
                },
                ..old(self)@
            }),
            final(self)@.wf(),
    {
        proof {
            use_type_invariant(&*self);
        }
        match self.marks.get(ch) {
            Some(targets) => {
                let left = targets.difference(marks);
                let mut recorded = self.marks;
                if left.is_empty() {
                    recorded.remove(ch);
                } else {
                    recorded.insert(*ch, left);
                }
                self.marks = recorded;
            },
            None => {},
        }
    }

    /// Forgets everything a character has completed.
    pub fn remove_all_marks(&mut self, ch: &Character)
        ensures
            final(self)@ == (UnlocksView {
                marks: old(self)@.marks.remove(*ch),
                ..old(self)@
            }),
            final(self)@.wf(),
    {
        proof {
            use_type_invariant(&*self);
        }
        let mut recorded = self.marks;
        recorded.remove(ch);
        self.marks = recorded;
    }

    /// Makes the given characters the unlocked ones, and forgets the marks
    /// of every other character.
    pub fn set_unlocked_chars(&mut self, chars: CharacterSet)
        ensures
            final(self)@ == (UnlocksView {
                marks: old(self)@.marks.restrict(chars@),
                unlocked_chars: chars@,
                ..old(self)@
            }),
            final(self)@.wf(),
    {
        proof {
            use_type_invariant(&*self);
        }
        let mut recorded = self.marks;
        recorded.restrict(&chars);
        self.marks = recorded;
        self.unlocked_chars = chars;
    }

    pub fn add_unlocked_chars(&mut self, chars: CharacterSet)
        ensures
            final(self)@ == (UnlocksView {
                unlocked_chars: old(self)@.unlocked_chars.union(chars@),
                ..old(self)@
            }),
            final(self)@.wf(),
    {
        proof {
            use_type_invariant(&*self);
        }
        self.unlocked_chars = self.unlocked_chars.union(&chars);
    }

    /// Locks characters again, and forgets their marks.
    pub fn remove_unlocked_chars(&mut self, chars: &CharacterSet)
        ensures
            final(self)@ == (UnlocksView {
                marks: old(self)@.marks.remove_keys(chars@),
                unlocked_chars: old(self)@.unlocked_chars.difference(chars@),
                ..old(self)@
            }),
            final(self)@.wf(),
    {
        proof {
            use_type_invariant(&*self);
        }
        let mut recorded = self.marks;
        recorded.remove_keys(chars);
        self.marks = recorded;
        self.unlocked_chars = self.unlocked_chars.difference(chars);
    }

    /// Makes the given targets the unlocked ones, and takes every other
    /// target out of every character's marks.
    pub fn set_unlocked_targets(&mut self, targets: TargetSet)
        ensures
            final(self)@ == (UnlocksView {
                marks: old(self)@.marks.map_values(|ts: Set<Target>| ts.intersect(targets@)),
                unlocked_targets: targets@,
                ..old(self)@
            }),
            final(self)@.wf(),
    {
        proof {
            use_type_invariant(&*self);
        }
        let mut recorded = self.marks;
        recorded.retain_targets(&targets);
        self.marks = recorded;
        self.unlocked_targets = targets;
    }

    pub fn add_unlocked_targets(&mut self, targs: TargetSet)
        ensures
            final(self)@ == (UnlocksView {
                unlocked_targets: old(self)@.unlocked_targets.union(targs@),
                ..old(self)@
            }),
            final(self)@.wf(),
    {
        proof {
            use_type_invariant(&*self);
        }
        self.unlocked_targets = self.unlocked_targets.union(&targs);
    }

    /// Locks targets again, and takes them out of every character's marks.
    pub fn remove_unlocked_targets(&mut self, targs: &TargetSet)
        ensures
            final(self)@ == (UnlocksView {
                marks: old(self)@.marks.map_values(|ts: Set<Target>| ts.difference(targs@)),
                unlocked_targets: old(self)@.unlocked_targets.difference(targs@),
                ..old(self)@
            }),
            final(self)@.wf(),
    {
        proof {
            use_type_invariant(&*self);
        }
        let mut recorded = self.marks;
        recorded.remove_targets(targs);
        self.marks = recorded;
        self.unlocked_targets = self.unlocked_targets.difference(targs);
    }

    pub fn set_mantle_unlocked(&mut self, is_unlocked: bool)
        ensures
            final(self)@ == (UnlocksView { is_mantle_unlocked: is_unlocked, ..old(self)@ }),
            final(self)@.wf(),
    {
        proof {
            use_type_invariant(&*self);
        }
        self.is_mantle_unlocked = is_unlocked;
    }

    pub fn set_it_lives_unlocked(&mut self, is_unlocked: bool)
        ensures
            final(self)@ == (UnlocksView { is_it_lives_unlocked: is_unlocked, ..old(self)@ }),
            final(self)@.wf(),
    {
        proof {
            use_type_invariant(&*self);
        }
        self.is_it_lives_unlocked = is_unlocked;
    }

    pub fn set_polaroid_unlocked(&mut self, is_unlocked: bool)
        ensures
            final(self)@ == (UnlocksView { is_polaroid_unlocked: is_unlocked, ..old(self)@ }),
            final(self)@.wf(),
    {
        proof {
            use_type_invariant(&*self);
        }
        self.is_polaroid_unlocked = is_unlocked;
    }

    pub fn set_negative_unlocked(&mut self, is_unlocked: bool)
        ensures
            final(self)@ == (UnlocksView { is_negative_unlocked: is_unlocked, ..old(self)@ }),
            final(self)@.wf(),
    {
        proof {
            use_type_invariant(&*self);
        }
        self.is_negative_unlocked = is_unlocked;
    }

    /// Sets the chance of Boss Rush, given as the bit pattern of a
    /// single-precision number.
    pub fn set_boss_rush_chance(&mut self, chance: u32)
        ensures
            final(self)@ == (UnlocksView { boss_rush_chance: chance, ..old(self)@ }),
            final(self)@.wf(),
    {
        proof {
            use_type_invariant(&*self);
        }
        self.boss_rush_chance = chance;
    }

    /// Sets the chance of Hush, given as the bit pattern of a
    /// single-precision number.
    pub fn set_hush_chance(&mut self, chance: u32)
        ensures
            final(self)@ == (UnlocksView { hush_chance: chance, ..old(self)@ }),
            final(self)@.wf(),
    {
        proof {
            use_type_invariant(&*self);
        }
        self.hush_chance = chance;
    }

    pub fn set_roll_boss_rush_on_alt(&mut self, is_roll: bool)
        ensures
            final(self)@ == (UnlocksView { roll_boss_rush_on_alt: is_roll, ..old(self)@ }),
            final(self)@.wf(),
    {
        proof {
            use_type_invariant(&*self);
        }
        self.roll_boss_rush_on_alt = is_roll;
    }
}

} // verus!
