//! What the commands do to a state.

use crate::cli::cli_structs::{Unlock, Unlockable};
use crate::randomizer::character_set::CharacterSet;
use crate::randomizer::pool::{Unlocks, UnlocksView};
use crate::randomizer::target_set::TargetSet;
use crate::randomizer::targets::Target;
use vstd::prelude::*;

verus! {

impl UnlocksView {
    /// The state with one more thing unlocked.
    pub open spec fn unlocking(self, item: Unlock) -> UnlocksView {
        match item {
            Unlock::Character(c) => UnlocksView {
                unlocked_chars: self.unlocked_chars.union(set![c]),
                ..self
            },
            Unlock::Target(t) => UnlocksView {
                unlocked_targets: self.unlocked_targets.union(set![t]),
                ..self
            },
            Unlock::Unlockable(Unlockable::ItLives) => UnlocksView {
                is_it_lives_unlocked: true,
                ..self
            },
            Unlock::Unlockable(Unlockable::Polaroid) => UnlocksView {
                is_polaroid_unlocked: true,
                ..self
            },
            Unlock::Unlockable(Unlockable::Negative) => UnlocksView {
                is_negative_unlocked: true,
                ..self
            },
            Unlock::Unlockable(Unlockable::HolyMantle) => UnlocksView {
                is_mantle_unlocked: true,
                ..self
            },
        }
    }

    /// The state with one thing locked again. A character loses its marks,
    /// and a target leaves every character's marks.
    pub open spec fn locking(self, item: Unlock) -> UnlocksView {
        match item {
            Unlock::Character(c) => UnlocksView {
                marks: self.marks.remove_keys(set![c]),
                unlocked_chars: self.unlocked_chars.difference(set![c]),
                ..self
            },
            Unlock::Target(t) => UnlocksView {
                marks: self.marks.map_values(|ts: Set<Target>| ts.difference(set![t])),
                unlocked_targets: self.unlocked_targets.difference(set![t]),
                ..self
            },
            Unlock::Unlockable(Unlockable::ItLives) => UnlocksView {
                is_it_lives_unlocked: false,
                ..self
            },
            Unlock::Unlockable(Unlockable::Polaroid) => UnlocksView {
                is_polaroid_unlocked: false,
                ..self
            },
            Unlock::Unlockable(Unlockable::Negative) => UnlocksView {
                is_negative_unlocked: false,
                ..self
            },
            Unlock::Unlockable(Unlockable::HolyMantle) => UnlocksView {
                is_mantle_unlocked: false,
                ..self
            },
        }
    }
}

/// Unlocks one thing in a state.
pub fn unlock(unlocks: &mut Unlocks, item: Unlock)
    ensures
        final(unlocks)@ == old(unlocks)@.unlocking(item),
        final(unlocks)@.wf(),
{
    match item {
        Unlock::Character(char) => {
            let mut chars = CharacterSet::new();
            chars.insert(char);
            assert(chars@ =~= set![char]);
            unlocks.add_unlocked_chars(chars);
        },
        Unlock::Target(targ) => {
            let mut targs = TargetSet::new();
            targs.insert(targ);
            assert(targs@ =~= set![targ]);
            unlocks.add_unlocked_targets(targs);
        },
        Unlock::Unlockable(unl) => match unl {
            Unlockable::ItLives => unlocks.set_it_lives_unlocked(true),
            Unlockable::Polaroid => unlocks.set_polaroid_unlocked(true),
            Unlockable::Negative => unlocks.set_negative_unlocked(true),
            Unlockable::HolyMantle => unlocks.set_mantle_unlocked(true),
        },
    }
}

/// Locks one thing in a state again.
pub fn ununlock(unlocks: &mut Unlocks, item: Unlock)
    ensures
        final(unlocks)@ == old(unlocks)@.locking(item),
        final(unlocks)@.wf(),
{
    match item {
        Unlock::Character(char) => {
            let mut chars = CharacterSet::new();
            chars.insert(char);
            assert(chars@ =~= set![char]);
            unlocks.remove_unlocked_chars(&chars);
        },
        Unlock::Target(targ) => {
            let mut targs = TargetSet::new();
            targs.insert(targ);
            assert(targs@ =~= set![targ]);
            unlocks.remove_unlocked_targets(&targs);
        },
        Unlock::Unlockable(unl) => match unl {
            Unlockable::ItLives => unlocks.set_it_lives_unlocked(false),
            Unlockable::Polaroid => unlocks.set_polaroid_unlocked(false),
            Unlockable::Negative => unlocks.set_negative_unlocked(false),
            Unlockable::HolyMantle => unlocks.set_mantle_unlocked(false),
        },
    }
}

} // verus!
