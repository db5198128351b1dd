use srati::randomizer::character_set::CharacterSet;
use srati::randomizer::characters::{Character, CHARACTER_COUNT};
use srati::randomizer::dependency::{
    Dependency, DependencyValue, HasDependency, ItLives, Mantle, Mom, Negative, Polaroid,
};
use srati::randomizer::pool::Unlocks;
use srati::randomizer::table::TargetTable;
use srati::randomizer::target_set::TargetSet;
use srati::randomizer::targets::Target;

fn targets(items: &[Target]) -> TargetSet {
    TargetSet::from_vec(&items.to_vec())
}

fn characters(items: &[Character]) -> CharacterSet {
    CharacterSet::from_vec(&items.to_vec())
}

#[test]
fn the_seeds_of_discovery() {
    let seeds = Unlocks::get_unlockables();
    assert_eq!(seeds.len(), 30);
    let fixed = vec![
        DependencyValue::Character(Character::Judas),
        DependencyValue::Character(Character::BlueBaby),
        DependencyValue::Character(Character::Keeper),
        DependencyValue::Character(Character::Bethany),
        DependencyValue::Character(Character::Apollyon),
        DependencyValue::Mantle(Mantle),
        DependencyValue::Target(Target::BlueBaby),
        DependencyValue::Target(Target::Lamb),
        DependencyValue::Target(Target::MegaSatan),
        DependencyValue::Target(Target::Delirium),
        DependencyValue::Target(Target::Beast),
        DependencyValue::Target(Target::Mother),
        DependencyValue::Target(Target::Hush),
    ];
    for (i, v) in fixed.iter().enumerate() {
        assert_eq!(seeds[i], Dependency::Singular(*v));
    }
    for i in 17..CHARACTER_COUNT {
        assert_eq!(
            seeds[13 + i - 17],
            Dependency::Singular(DependencyValue::Character(Character::at(i)))
        );
    }
}

#[test]
fn a_fresh_state_is_sent_to_mom_and_ultra_greed() {
    let u = Unlocks::default();
    let found = u.get_additional_targets();
    assert_eq!(found.keys(), vec![Character::Isaac]);
    assert_eq!(
        found.get(&Character::Isaac),
        Some(targets(&[Target::Mom, Target::UltraGreed]))
    );
}

#[test]
fn what_holds_already_asks_for_nothing() {
    let u = Unlocks::default();
    let mut table = TargetTable::new();
    u.resolve_dependency(&Dependency::Trivial, &mut table);
    u.resolve_dependency(
        &Dependency::Singular(DependencyValue::Character(Character::Isaac)),
        &mut table,
    );
    u.resolve_dependency(
        &Dependency::Singular(DependencyValue::Target(Target::UltraGreed)),
        &mut table,
    );
    assert!(table.is_empty());
}

#[test]
fn a_target_or_marker_is_pursued_by_every_unlocked_character() {
    let mut u = Unlocks::default();
    u.add_unlocked_chars(characters(&[Character::Cain, Character::Lost]));
    let cases = [
        (DependencyValue::Target(Target::Hush), Target::Hush),
        (DependencyValue::Mantle(Mantle), Target::UltraGreed),
        (DependencyValue::ItLives(ItLives), Target::Heart),
        (DependencyValue::Mom(Mom), Target::Mom),
        (DependencyValue::Polaroid(Polaroid), Target::Isaac),
        (DependencyValue::Negative(Negative), Target::Satan),
    ];
    for (value, target) in cases {
        let mut table = TargetTable::new();
        u.add_target_dependency_val(&value, &mut table);
        assert_eq!(
            table.keys(),
            vec![Character::Isaac, Character::Cain, Character::Lost]
        );
        for c in table.keys() {
            assert_eq!(table.get(&c), Some(targets(&[target])));
        }
    }
}

#[test]
fn what_is_found_is_added_to_what_was_there() {
    let mut u = Unlocks::default();
    u.add_unlocked_chars(characters(&[Character::Cain]));
    let mut table = TargetTable::new();
    table.insert(Character::Isaac, targets(&[Target::Lamb]));
    table.insert(Character::Eve, targets(&[Target::Beast]));
    u.add_target_to_unlocked_chars(Target::Hush, &mut table);
    assert_eq!(
        table.get(&Character::Isaac),
        Some(targets(&[Target::Lamb, Target::Hush]))
    );
    assert_eq!(table.get(&Character::Cain), Some(targets(&[Target::Hush])));
    assert_eq!(table.get(&Character::Eve), Some(targets(&[Target::Beast])));
}

#[test]
fn a_tainted_character_sends_its_counterpart_to_the_beast() {
    let u = Unlocks::default();
    for i in 17..CHARACTER_COUNT {
        let mut table = TargetTable::new();
        u.add_target_dependency_val(
            &DependencyValue::Character(Character::at(i)),
            &mut table,
        );
        assert_eq!(table.keys(), vec![Character::at(i - 17)]);
        assert_eq!(
            table.get(&Character::at(i - 17)),
            Some(targets(&[Target::Beast]))
        );
    }
}

#[test]
fn discovery_with_the_beast_unlocked() {
    let mut u = Unlocks::default();
    u.add_unlocked_chars(characters(&[Character::Cain]));
    u.add_unlocked_targets(targets(&[Target::Beast]));
    let found = u.get_additional_targets();
    assert_eq!(found.keys(), vec![Character::Isaac, Character::Cain]);
    let expected = targets(&[Target::Beast, Target::Mom, Target::UltraGreed]);
    assert_eq!(found.get(&Character::Isaac), Some(expected));
    assert_eq!(found.get(&Character::Cain), Some(expected));
}

#[test]
fn bethany_sends_lazarus() {
    let bethany = DependencyValue::Character(Character::Bethany);
    let mut u = Unlocks::default();
    u.add_unlocked_chars(characters(&[Character::Lazarus]));

    let mut table = TargetTable::new();
    u.add_target_dependency_val(&bethany, &mut table);
    assert_eq!(table.keys(), vec![Character::Lazarus]);
    assert_eq!(
        table.get(&Character::Lazarus),
        Some(targets(&[Target::Mom, Target::UltraGreed, Target::BossRush]))
    );

    // The Beast is left out of what Lazarus is sent against.
    u.set_unlocked_targets(targets(&[Target::Beast, Target::UltraGreed]));
    let mut table = TargetTable::new();
    u.add_target_dependency_val(&bethany, &mut table);
    assert_eq!(
        table.get(&Character::Lazarus),
        Some(targets(&[Target::UltraGreed]))
    );

    // With the Beast alone, Lazarus is named with nothing to pursue.
    u.set_unlocked_targets(targets(&[Target::Beast]));
    let mut table = TargetTable::new();
    u.add_target_dependency_val(&bethany, &mut table);
    assert_eq!(table.keys(), vec![Character::Lazarus]);
    assert_eq!(table.get(&Character::Lazarus), Some(TargetSet::new()));

    // With no valid target at all, Lazarus is sent to Mom's Heart.
    u.set_unlocked_targets(TargetSet::new());
    let mut table = TargetTable::new();
    u.add_target_dependency_val(&bethany, &mut table);
    assert_eq!(
        table.get(&Character::Lazarus),
        Some(targets(&[Target::Heart]))
    );
}

#[test]
fn another_character_stands_for_what_it_depends_on() {
    let u = Unlocks::default();
    // Keeper depends on Ultra Greed, which is unlocked: nothing to pursue.
    let mut table = TargetTable::new();
    u.add_target_dependency_val(&DependencyValue::Character(Character::Keeper), &mut table);
    assert!(table.is_empty());
    // The Lost depends on the Holy Mantle, which is earned at Ultra Greed.
    let mut table = TargetTable::new();
    u.add_target_dependency_val(&DependencyValue::Character(Character::Lost), &mut table);
    assert_eq!(
        table.get(&Character::Isaac),
        Some(targets(&[Target::UltraGreed]))
    );
}

#[test]
fn of_alternatives_only_those_within_reach_are_pursued() {
    let mut u = Unlocks::default();
    u.set_negative_unlocked(true);
    let mut table = TargetTable::new();
    u.resolve_dependency(&Target::MegaSatan.depends_on(), &mut table);
    assert_eq!(table.keys(), vec![Character::Isaac]);
    assert_eq!(table.get(&Character::Isaac), Some(targets(&[Target::Lamb])));

    u.set_polaroid_unlocked(true);
    let mut table = TargetTable::new();
    u.resolve_dependency(&Target::MegaSatan.depends_on(), &mut table);
    assert_eq!(
        table.get(&Character::Isaac),
        Some(targets(&[Target::Lamb, Target::BlueBaby]))
    );
}

#[test]
fn of_parts_all_are_pursued_once_all_are_within_reach() {
    let mut u = Unlocks::default();
    // Hush is within reach once ??? is unlocked, the Holy Mantle once Ultra
    // Greed is.
    u.add_unlocked_chars(characters(&[Character::BlueBaby]));
    let mut table = TargetTable::new();
    u.resolve_dependency(&Target::Mother.depends_on(), &mut table);
    let expected = targets(&[Target::Hush, Target::UltraGreed]);
    assert_eq!(table.get(&Character::Isaac), Some(expected));
    assert_eq!(table.get(&Character::BlueBaby), Some(expected));
}

#[test]
fn what_is_out_of_reach_leads_to_what_blocks_it() {
    let u = Unlocks::default();
    // Delirium waits for Hush, Hush for ???, ??? for the Heart, the Heart
    // for Mom.
    let mut table = TargetTable::new();
    u.resolve_dependency(
        &Dependency::Singular(DependencyValue::Target(Target::Delirium)),
        &mut table,
    );
    assert_eq!(table.keys(), vec![Character::Isaac]);
    assert_eq!(table.get(&Character::Isaac), Some(targets(&[Target::Mom])));
}
