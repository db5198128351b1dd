use srati::randomizer::character_set::CharacterSet;
use srati::randomizer::characters::{Character, CHARACTER_COUNT};
use srati::randomizer::pool::{Unlocks, CERTAIN};
use srati::randomizer::table::TargetTable;
use srati::randomizer::target_set::TargetSet;
use srati::randomizer::targets::{Target, TARGET_COUNT};

fn targets(items: &[Target]) -> TargetSet {
    TargetSet::from_vec(&items.to_vec())
}

fn characters(items: &[Character]) -> CharacterSet {
    CharacterSet::from_vec(&items.to_vec())
}

fn marks_are_within_unlocks(u: &Unlocks) -> bool {
    u.marks().keys().iter().all(|c| {
        u.unlocked_chars().contains(c)
            && u.marks().get(c).unwrap().is_subset(u.unlocked_targets())
    })
}

#[test]
fn a_fresh_state() {
    let u = Unlocks::default();
    assert!(u.marks().is_empty());
    assert_eq!(*u.unlocked_chars(), characters(&[Character::Isaac]));
    assert_eq!(
        *u.unlocked_targets(),
        targets(&[Target::Mom, Target::UltraGreed, Target::BossRush])
    );
    assert!(!u.is_mantle_unlocked());
    assert!(!u.is_it_lives_unlocked());
    assert!(!u.is_polaroid_unlocked());
    assert!(!u.is_negative_unlocked());
    assert_eq!(u.boss_rush_chance(), 1.0f32.to_bits());
    assert_eq!(u.hush_chance(), 1.0f32.to_bits());
    assert_eq!(CERTAIN, 1.0f32.to_bits());
    assert!(u.roll_boss_rush_on_alt());
    assert!(marks_are_within_unlocks(&u));
}

#[test]
fn a_state_from_its_parts() {
    let mut marks = TargetTable::new();
    marks.insert(Character::Cain, targets(&[Target::Hush]));
    let u = Unlocks::new(
        marks,
        characters(&[Character::Cain, Character::Eve]),
        targets(&[Target::Hush, Target::Lamb]),
        true,
        false,
        true,
        false,
        0.25f32.to_bits(),
        0.75f32.to_bits(),
        false,
    );
    assert_eq!(*u.marks(), marks);
    assert_eq!(*u.unlocked_chars(), characters(&[Character::Cain, Character::Eve]));
    assert_eq!(*u.unlocked_targets(), targets(&[Target::Hush, Target::Lamb]));
    assert!(u.is_mantle_unlocked());
    assert!(!u.is_it_lives_unlocked());
    assert!(u.is_polaroid_unlocked());
    assert!(!u.is_negative_unlocked());
    assert_eq!(f32::from_bits(u.boss_rush_chance()), 0.25);
    assert_eq!(f32::from_bits(u.hush_chance()), 0.75);
    assert!(!u.roll_boss_rush_on_alt());
}

#[test]
fn setting_marks_unlocks_what_they_name() {
    let mut u = Unlocks::default();
    u.set_marks(Character::Cain, targets(&[Target::Hush, Target::Mom]));
    assert_eq!(
        u.marks().get(&Character::Cain),
        Some(targets(&[Target::Hush, Target::Mom]))
    );
    assert_eq!(
        *u.unlocked_chars(),
        characters(&[Character::Isaac, Character::Cain])
    );
    assert_eq!(
        *u.unlocked_targets(),
        targets(&[Target::Mom, Target::UltraGreed, Target::BossRush, Target::Hush])
    );
    u.set_marks(Character::Cain, targets(&[Target::Lamb]));
    assert_eq!(u.marks().get(&Character::Cain), Some(targets(&[Target::Lamb])));
    assert!(u.unlocked_targets().contains(&Target::Lamb));
    assert!(marks_are_within_unlocks(&u));
}

#[test]
fn adding_marks_grows_the_record_and_unlocks() {
    let mut u = Unlocks::default();
    u.add_marks(Character::Isaac, targets(&[Target::Mom]));
    u.add_marks(Character::Isaac, targets(&[Target::UltraGreed]));
    assert_eq!(
        u.marks().get(&Character::Isaac),
        Some(targets(&[Target::Mom, Target::UltraGreed]))
    );
    u.add_marks(Character::Eve, targets(&[Target::Delirium]));
    assert!(u.unlocked_chars().contains(&Character::Eve));
    assert!(u.unlocked_targets().contains(&Target::Delirium));
    assert_eq!(u.marks().get(&Character::Eve), Some(targets(&[Target::Delirium])));
    assert!(marks_are_within_unlocks(&u));
}

#[test]
fn removing_marks() {
    let mut u = Unlocks::default();
    u.add_marks(Character::Isaac, targets(&[Target::Mom, Target::UltraGreed]));
    u.remove_marks(&Character::Isaac, &targets(&[Target::Mom, Target::Hush]));
    assert_eq!(
        u.marks().get(&Character::Isaac),
        Some(targets(&[Target::UltraGreed]))
    );
    u.remove_marks(&Character::Isaac, &targets(&[Target::UltraGreed]));
    assert_eq!(u.marks().get(&Character::Isaac), None);
    u.remove_marks(&Character::Cain, &targets(&[Target::UltraGreed]));
    assert!(u.marks().is_empty());
    assert!(u.unlocked_targets().contains(&Target::UltraGreed));

    u.add_marks(Character::Isaac, targets(&[Target::Mom, Target::UltraGreed]));
    u.remove_all_marks(&Character::Isaac);
    assert!(u.marks().is_empty());
    u.remove_all_marks(&Character::Isaac);
    assert!(u.marks().is_empty());
    assert!(marks_are_within_unlocks(&u));
}

#[test]
fn locking_characters_forgets_their_marks() {
    let mut u = Unlocks::default();
    u.add_marks(Character::Isaac, targets(&[Target::Mom]));
    u.add_marks(Character::Cain, targets(&[Target::Mom]));
    u.add_marks(Character::Eve, targets(&[Target::Mom]));
    u.remove_unlocked_chars(&characters(&[Character::Cain, Character::Judas]));
    assert_eq!(
        *u.unlocked_chars(),
        characters(&[Character::Isaac, Character::Eve])
    );
    assert_eq!(u.marks().keys(), vec![Character::Isaac, Character::Eve]);
    u.set_unlocked_chars(characters(&[Character::Eve, Character::Samson]));
    assert_eq!(
        *u.unlocked_chars(),
        characters(&[Character::Eve, Character::Samson])
    );
    assert_eq!(u.marks().keys(), vec![Character::Eve]);
    u.add_unlocked_chars(characters(&[Character::Lost]));
    assert_eq!(
        *u.unlocked_chars(),
        characters(&[Character::Eve, Character::Samson, Character::Lost])
    );
    assert_eq!(u.marks().keys(), vec![Character::Eve]);
    assert!(marks_are_within_unlocks(&u));
}

#[test]
fn locking_targets_takes_them_out_of_the_marks() {
    let mut u = Unlocks::default();
    u.add_marks(Character::Isaac, targets(&[Target::Mom, Target::Hush]));
    u.add_marks(Character::Cain, targets(&[Target::Hush]));
    u.remove_unlocked_targets(&targets(&[Target::Hush, Target::Lamb]));
    assert_eq!(
        *u.unlocked_targets(),
        targets(&[Target::Mom, Target::UltraGreed, Target::BossRush])
    );
    assert_eq!(u.marks().get(&Character::Isaac), Some(targets(&[Target::Mom])));
    assert_eq!(u.marks().get(&Character::Cain), Some(TargetSet::new()));
    u.set_unlocked_targets(targets(&[Target::Beast]));
    assert_eq!(*u.unlocked_targets(), targets(&[Target::Beast]));
    assert_eq!(u.marks().get(&Character::Isaac), Some(TargetSet::new()));
    assert_eq!(u.marks().get(&Character::Cain), Some(TargetSet::new()));
    u.add_unlocked_targets(targets(&[Target::Mother]));
    assert_eq!(
        *u.unlocked_targets(),
        targets(&[Target::Beast, Target::Mother])
    );
    assert!(marks_are_within_unlocks(&u));
}

#[test]
fn flags_chances_and_policy() {
    let mut u = Unlocks::default();
    u.set_mantle_unlocked(true);
    assert!(u.is_mantle_unlocked());
    u.set_it_lives_unlocked(true);
    assert!(u.is_it_lives_unlocked());
    u.set_polaroid_unlocked(true);
    assert!(u.is_polaroid_unlocked());
    u.set_negative_unlocked(true);
    assert!(u.is_negative_unlocked());
    u.set_mantle_unlocked(false);
    assert!(!u.is_mantle_unlocked());
    assert!(u.is_it_lives_unlocked());
    u.set_boss_rush_chance(0.5f32.to_bits());
    u.set_hush_chance(0.0f32.to_bits());
    assert_eq!(f32::from_bits(u.boss_rush_chance()), 0.5);
    assert_eq!(f32::from_bits(u.hush_chance()), 0.0);
    u.set_roll_boss_rush_on_alt(false);
    assert!(!u.roll_boss_rush_on_alt());
    assert_eq!(*u.unlocked_chars(), characters(&[Character::Isaac]));
}

#[test]
fn the_invariant_survives_any_sequence_of_changes() {
    let mut u = Unlocks::default();
    let mut seed: u64 = 0x2545_f491_4f6c_dd1d;
    for _ in 0..2000 {
        seed = seed
            .wrapping_mul(6364136223846793005)
            .wrapping_add(1442695040888963407);
        let c = Character::at(((seed >> 33) % CHARACTER_COUNT as u64) as usize);
        let t1 = Target::at(((seed >> 20) % TARGET_COUNT as u64) as usize);
        let t2 = Target::at(((seed >> 10) % TARGET_COUNT as u64) as usize);
        match (seed >> 50) % 10 {
            0 => u.set_marks(c, targets(&[t1, t2])),
            1 => u.add_marks(c, targets(&[t1])),
            2 => u.remove_marks(&c, &targets(&[t1, t2])),
            3 => u.remove_all_marks(&c),
            4 => u.add_unlocked_chars(characters(&[c])),
            5 => u.remove_unlocked_chars(&characters(&[c])),
            6 => u.add_unlocked_targets(targets(&[t1])),
            7 => u.remove_unlocked_targets(&targets(&[t1, t2])),
            8 => u.set_unlocked_chars(characters(&[c, Character::Isaac, Character::Cain])),
            _ => u.set_unlocked_targets(targets(&[t1, t2, Target::Mom, Target::Hush])),
        }
        assert!(marks_are_within_unlocks(&u));
    }
}

#[test]
fn unlocking_everything() {
    let mut u = Unlocks::default();
    u.set_boss_rush_chance(0.5f32.to_bits());
    u.set_everything_unlocked();
    let counting = targets(&[
        Target::BlueBaby,
        Target::Lamb,
        Target::MegaSatan,
        Target::Delirium,
        Target::Beast,
        Target::Mother,
        Target::UltraGreed,
        Target::BossRush,
        Target::Hush,
        Target::Mom,
    ]);
    for i in 0..CHARACTER_COUNT {
        assert_eq!(u.marks().get(&Character::at(i)), Some(counting));
    }
    assert_eq!(*u.unlocked_chars(), CharacterSet::full());
    assert_eq!(*u.unlocked_targets(), counting);
    assert!(u.is_mantle_unlocked());
    assert!(u.is_it_lives_unlocked());
    assert!(u.is_polaroid_unlocked());
    assert!(u.is_negative_unlocked());
    assert_eq!(f32::from_bits(u.boss_rush_chance()), 0.5);
    assert!(u.is_everything_unlocked());
    assert!(marks_are_within_unlocks(&u));
}
