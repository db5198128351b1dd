use srati::randomizer::character_set::CharacterSet;
use srati::randomizer::characters::Character;
use srati::randomizer::table::TargetTable;
use srati::randomizer::target_set::TargetSet;
use srati::randomizer::targets::Target;

#[test]
fn a_new_set_is_empty() {
    let s = TargetSet::new();
    assert!(s.is_empty());
    assert_eq!(s.len(), 0);
    assert_eq!(s.to_vec(), Vec::<Target>::new());
    assert!(!s.contains(&Target::Mom));
    assert!(CharacterSet::new().is_empty());
}

#[test]
fn the_full_set_holds_everything() {
    assert_eq!(TargetSet::full().len(), 13);
    assert_eq!(CharacterSet::full().len(), 34);
    assert!(TargetSet::full().contains(&Target::Hush));
    assert!(CharacterSet::full().contains(&Character::TaintedJacob));
}

#[test]
fn insert_and_remove_say_what_changed() {
    let mut s = TargetSet::new();
    assert!(s.insert(Target::Lamb));
    assert!(!s.insert(Target::Lamb));
    assert!(s.contains(&Target::Lamb));
    assert_eq!(s.len(), 1);
    assert!(!s.remove(&Target::Hush));
    assert!(s.remove(&Target::Lamb));
    assert!(s.is_empty());
}

#[test]
fn members_come_in_the_order_of_declaration() {
    let s = TargetSet::from_vec(&vec![Target::Mom, Target::Lamb, Target::Hush, Target::Lamb]);
    assert_eq!(s.to_vec(), vec![Target::Lamb, Target::Hush, Target::Mom]);
    assert_eq!(s.len(), 3);
    let c = CharacterSet::from_vec(&vec![Character::TaintedCain, Character::Isaac, Character::Eve]);
    assert_eq!(
        c.to_vec(),
        vec![Character::Isaac, Character::Eve, Character::TaintedCain]
    );
}

#[test]
fn set_algebra() {
    let a = TargetSet::from_vec(&vec![Target::Lamb, Target::Hush, Target::Mom]);
    let b = TargetSet::from_vec(&vec![Target::Hush, Target::Beast]);
    assert_eq!(
        a.union(&b),
        TargetSet::from_vec(&vec![Target::Lamb, Target::Hush, Target::Mom, Target::Beast])
    );
    assert_eq!(a.intersection(&b), TargetSet::from_vec(&vec![Target::Hush]));
    assert_eq!(
        a.difference(&b),
        TargetSet::from_vec(&vec![Target::Lamb, Target::Mom])
    );
    let mut c = a;
    c.extend(&b);
    assert_eq!(c, a.union(&b));
    assert!(a.intersection(&b).is_subset(&a));
    assert!(!a.is_subset(&b));
    assert!(a.equals(&a));
    assert!(!a.equals(&b));
    assert!(TargetSet::new().is_subset(&b));
}

#[test]
fn targets_are_shown_by_falling_precedence() {
    let s = TargetSet::full();
    assert_eq!(
        s.by_precedence(),
        vec![
            Target::Delirium,
            Target::MegaSatan,
            Target::BlueBaby,
            Target::Lamb,
            Target::Beast,
            Target::Mother,
            Target::Satan,
            Target::Isaac,
            Target::Hush,
            Target::Heart,
            Target::BossRush,
            Target::UltraGreed,
            Target::Mom,
        ]
    );
    let s = TargetSet::from_vec(&vec![Target::BossRush, Target::Hush, Target::Lamb]);
    assert_eq!(
        s.by_precedence(),
        vec![Target::Lamb, Target::Hush, Target::BossRush]
    );
    assert_eq!(TargetSet::new().by_precedence(), Vec::<Target>::new());
}

#[test]
fn a_table_tells_an_empty_set_from_none() {
    let mut t = TargetTable::new();
    assert!(t.is_empty());
    assert_eq!(t.get(&Character::Isaac), None);
    t.insert(Character::Isaac, TargetSet::new());
    assert!(!t.is_empty());
    assert!(t.contains_key(&Character::Isaac));
    assert_eq!(t.get(&Character::Isaac), Some(TargetSet::new()));
    assert_eq!(t.keys(), vec![Character::Isaac]);
    t.remove(&Character::Isaac);
    assert!(t.is_empty());
}

#[test]
fn adding_to_a_table_starts_or_grows_a_set() {
    let mut t = TargetTable::new();
    t.add(Character::Cain, Target::Beast);
    t.add(Character::Cain, Target::Hush);
    assert_eq!(
        t.get(&Character::Cain),
        Some(TargetSet::from_vec(&vec![Target::Beast, Target::Hush]))
    );
    t.add_all(Character::Eve, &TargetSet::new());
    assert_eq!(t.get(&Character::Eve), Some(TargetSet::new()));
    t.add_all(Character::Cain, &TargetSet::from_vec(&vec![Target::Mom]));
    assert_eq!(
        t.get(&Character::Cain),
        Some(TargetSet::from_vec(&vec![Target::Beast, Target::Hush, Target::Mom]))
    );
    assert_eq!(t.keys(), vec![Character::Cain, Character::Eve]);
    assert_eq!(
        t.key_set(),
        CharacterSet::from_vec(&vec![Character::Cain, Character::Eve])
    );
}

#[test]
fn bulk_operations_on_a_table() {
    let mut t = TargetTable::new();
    t.insert(Character::Isaac, TargetSet::from_vec(&vec![Target::Mom, Target::Hush]));
    t.insert(Character::Cain, TargetSet::from_vec(&vec![Target::Hush]));
    t.insert(Character::Eve, TargetSet::from_vec(&vec![Target::Lamb]));

    let mut kept = t;
    kept.restrict(&CharacterSet::from_vec(&vec![Character::Isaac, Character::Judas]));
    assert_eq!(kept.keys(), vec![Character::Isaac]);

    let mut dropped = t;
    dropped.remove_keys(&CharacterSet::from_vec(&vec![Character::Isaac, Character::Judas]));
    assert_eq!(dropped.keys(), vec![Character::Cain, Character::Eve]);

    let mut retained = t;
    retained.retain_targets(&TargetSet::from_vec(&vec![Target::Hush]));
    assert_eq!(
        retained.get(&Character::Isaac),
        Some(TargetSet::from_vec(&vec![Target::Hush]))
    );
    assert_eq!(retained.get(&Character::Eve), Some(TargetSet::new()));

    let mut removed = t;
    removed.remove_targets(&TargetSet::from_vec(&vec![Target::Hush]));
    assert_eq!(
        removed.get(&Character::Isaac),
        Some(TargetSet::from_vec(&vec![Target::Mom]))
    );
    assert_eq!(removed.get(&Character::Cain), Some(TargetSet::new()));

    let mut other = TargetTable::new();
    other.insert(Character::Isaac, TargetSet::from_vec(&vec![Target::Beast]));
    other.insert(Character::Lost, TargetSet::new());
    let mut merged = t;
    merged.merge(&other);
    assert_eq!(
        merged.get(&Character::Isaac),
        Some(TargetSet::from_vec(&vec![Target::Mom, Target::Hush, Target::Beast]))
    );
    assert_eq!(merged.get(&Character::Lost), Some(TargetSet::new()));
    assert_eq!(
        merged.keys(),
        vec![Character::Isaac, Character::Cain, Character::Eve, Character::Lost]
    );
}

#[test]
fn a_set_as_a_mask_of_bits() {
    assert_eq!(TargetSet::new().bits(), 0);
    assert_eq!(TargetSet::full().bits(), 0x1fff);
    assert_eq!(TargetSet::from_vec(&vec![Target::BlueBaby]).bits(), 1);
    assert_eq!(TargetSet::from_vec(&vec![Target::Mom]).bits(), 0x1000);
    assert_eq!(
        TargetSet::from_vec(&vec![Target::Lamb, Target::Hush]).bits(),
        0x102
    );
    for i in 0..13 {
        let t = Target::at(i);
        assert_eq!(TargetSet::from_vec(&vec![t]).bits(), 1 << i);
    }
}

#[test]
fn the_size_of_a_set() {
    assert_eq!(TargetSet::new().len(), 0);
    assert_eq!(TargetSet::from_vec(&vec![Target::Mom, Target::Mom]).len(), 1);
    assert_eq!(
        CharacterSet::from_vec(&vec![Character::Eve, Character::Cain, Character::Eve]).len(),
        2
    );
}
