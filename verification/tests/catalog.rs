use srati::randomizer::characters::{Character, CHARACTER_COUNT};
use srati::randomizer::dependency::{
    Dependency, DependencyValue, HasDependency, ItLives, Mantle, Mom, Negative, Polaroid,
};
use srati::randomizer::target_set::TargetSet;
use srati::randomizer::targets::{Target, TARGET_COUNT};

#[test]
fn every_character_name_reads_back() {
    for i in 0..CHARACTER_COUNT {
        let c = Character::from_index(i).unwrap();
        assert_eq!(c.index(), i);
        assert_eq!(Character::at(i), c);
        assert_eq!(Character::from_str(&c.to_string()), Ok(c));
        assert_eq!(c.name(), c.to_string());
    }
    assert_eq!(Character::from_index(CHARACTER_COUNT), None);
}

#[test]
fn every_target_name_reads_back() {
    for i in 0..TARGET_COUNT {
        let t = Target::from_index(i).unwrap();
        assert_eq!(t.index(), i);
        assert_eq!(Target::at(i), t);
        assert_eq!(Target::from_str(&t.to_string()), Ok(t));
        assert_eq!(t.name(), t.to_string());
    }
    assert_eq!(Target::from_index(TARGET_COUNT), None);
}

#[test]
fn character_names_are_as_shown() {
    assert_eq!(Character::Isaac.to_string(), "Isaac");
    assert_eq!(Character::BlueBaby.to_string(), "???");
    assert_eq!(Character::Bethany.to_string(), "Bethany");
    assert_eq!(Character::JacobAndEsau.to_string(), "Jacob & Esau");
    assert_eq!(Character::TaintedBlueBaby.to_string(), "Tainted ???");
    assert_eq!(Character::TaintedAzazel.to_string(), "Tainted Azazael");
    assert_eq!(Character::TaintedBethany.to_string(), "Tainted Behtany");
    assert_eq!(Character::TaintedJacob.to_string(), "Tainted Jacob");
    assert_eq!(Character::from_str("Magdalene"), Ok(Character::Magdalene));
    assert_eq!(Character::from_str("Tainted Lost"), Ok(Character::TaintedLost));
}

#[test]
fn target_names_are_as_shown() {
    assert_eq!(Target::BlueBaby.to_string(), "???");
    assert_eq!(Target::Lamb.to_string(), "The Lamb");
    assert_eq!(Target::MegaSatan.to_string(), "Mega Satan");
    assert_eq!(Target::UltraGreed.to_string(), "Ultra Greed");
    assert_eq!(Target::BossRush.to_string(), "Boss Rush");
    assert_eq!(Target::Heart.to_string(), "Mom's Heart");
    assert_eq!(Target::Mom.to_string(), "Mom");
    assert_eq!(Target::from_str("Delirium"), Ok(Target::Delirium));
    assert_eq!(Target::from_str("Hush"), Ok(Target::Hush));
}

#[test]
fn unknown_names_are_refused() {
    assert_eq!(
        Character::from_str("isaac"),
        Err("Could not convert string to Character")
    );
    assert_eq!(
        Character::from_str(""),
        Err("Could not convert string to Character")
    );
    assert_eq!(
        Character::from_str("Behtany"),
        Err("Could not convert string to Character")
    );
    assert_eq!(
        Character::from_str("Tainted Bethany"),
        Err("Could not convert string to Character")
    );
    assert_eq!(
        Target::from_str("Moms Heart"),
        Err("Could not convert string to Target")
    );
    assert_eq!(
        Target::from_str("the lamb"),
        Err("Could not convert string to Target")
    );
}

#[test]
fn names_are_pairwise_distinct() {
    for i in 0..CHARACTER_COUNT {
        for j in 0..i {
            assert_ne!(Character::at(i).name(), Character::at(j).name());
        }
    }
    for i in 0..TARGET_COUNT {
        for j in 0..i {
            assert_ne!(Target::at(i).name(), Target::at(j).name());
        }
    }
}

#[test]
fn the_last_seventeen_characters_are_tainted() {
    for i in 0..CHARACTER_COUNT {
        let c = Character::at(i);
        assert_eq!(c.is_tainted(), i >= 17);
        assert_eq!(c.tainted_to_normal().is_some(), i >= 17);
        if i >= 17 {
            assert_eq!(c.tainted_to_normal(), Some(Character::at(i - 17)));
        }
    }
    assert_eq!(
        Character::TaintedJacob.tainted_to_normal(),
        Some(Character::JacobAndEsau)
    );
    assert_eq!(Character::TaintedLost.tainted_to_normal(), Some(Character::Lost));
    assert_eq!(Character::Lost.tainted_to_normal(), None);
}

#[test]
fn nine_targets_always_count() {
    let core = [
        Target::BlueBaby,
        Target::Lamb,
        Target::MegaSatan,
        Target::Delirium,
        Target::Beast,
        Target::Mother,
        Target::UltraGreed,
        Target::BossRush,
        Target::Hush,
    ];
    for t in core {
        assert!(t.is_significant());
    }
    for t in [Target::Satan, Target::Isaac, Target::Heart, Target::Mom] {
        assert!(!t.is_significant());
    }
}

#[test]
fn precedence_values() {
    assert_eq!(Target::Delirium.precedence(), 7);
    assert_eq!(Target::MegaSatan.precedence(), 6);
    assert_eq!(Target::BlueBaby.precedence(), 5);
    assert_eq!(Target::Lamb.precedence(), 4);
    assert_eq!(Target::Beast.precedence(), 4);
    assert_eq!(Target::Mother.precedence(), 4);
    assert_eq!(Target::Satan.precedence(), 4);
    assert_eq!(Target::Isaac.precedence(), 4);
    assert_eq!(Target::Hush.precedence(), 3);
    assert_eq!(Target::Heart.precedence(), 2);
    assert_eq!(Target::BossRush.precedence(), 1);
    assert_eq!(Target::Mom.precedence(), 0);
    assert_eq!(Target::UltraGreed.precedence(), 0);
}

#[test]
fn remaining_is_the_complement() {
    let completed = TargetSet::from_vec(&vec![Target::Mom, Target::Hush, Target::Beast]);
    let remaining = Target::get_remaining(&completed);
    for i in 0..TARGET_COUNT {
        let t = Target::at(i);
        assert_eq!(remaining.contains(&t), !completed.contains(&t));
    }
    assert_eq!(remaining.len(), 10);
    assert_eq!(Target::get_remaining(&TargetSet::new()), TargetSet::full());
    assert_eq!(Target::get_remaining(&TargetSet::full()), TargetSet::new());
}

#[test]
fn what_markers_depend_on() {
    assert_eq!(
        Mantle.depends_on(),
        Dependency::Singular(DependencyValue::Target(Target::UltraGreed))
    );
    assert_eq!(
        ItLives.depends_on(),
        Dependency::Singular(DependencyValue::Target(Target::Heart))
    );
    assert_eq!(Mom.depends_on(), Dependency::Trivial);
    assert_eq!(
        Polaroid.depends_on(),
        Dependency::Singular(DependencyValue::Target(Target::Isaac))
    );
    assert_eq!(
        Negative.depends_on(),
        Dependency::Singular(DependencyValue::Target(Target::Satan))
    );
}

#[test]
fn what_targets_depend_on() {
    assert_eq!(
        Target::BlueBaby.depends_on(),
        Dependency::Singular(DependencyValue::Polaroid(Polaroid))
    );
    assert_eq!(
        Target::Lamb.depends_on(),
        Dependency::Singular(DependencyValue::Negative(Negative))
    );
    assert_eq!(
        Target::MegaSatan.depends_on(),
        Dependency::Sum(vec![
            DependencyValue::Target(Target::Lamb),
            DependencyValue::Target(Target::BlueBaby),
        ])
    );
    assert_eq!(
        Target::Delirium.depends_on(),
        Dependency::Singular(DependencyValue::Target(Target::Hush))
    );
    assert_eq!(
        Target::Beast.depends_on(),
        Dependency::Singular(DependencyValue::Target(Target::Mother))
    );
    assert_eq!(
        Target::Mother.depends_on(),
        Dependency::Product(vec![
            DependencyValue::Target(Target::Hush),
            DependencyValue::Mantle(Mantle),
        ])
    );
    assert_eq!(Target::UltraGreed.depends_on(), Dependency::Trivial);
    assert_eq!(Target::BossRush.depends_on(), Dependency::Trivial);
    assert_eq!(
        Target::Hush.depends_on(),
        Dependency::Singular(DependencyValue::Character(Character::BlueBaby))
    );
    assert_eq!(
        Target::Satan.depends_on(),
        Dependency::Singular(DependencyValue::ItLives(ItLives))
    );
    assert_eq!(
        Target::Isaac.depends_on(),
        Dependency::Singular(DependencyValue::ItLives(ItLives))
    );
    assert_eq!(
        Target::Heart.depends_on(),
        Dependency::Singular(DependencyValue::Mom(Mom))
    );
    assert_eq!(Target::Mom.depends_on(), Dependency::Trivial);
}

#[test]
fn what_characters_depend_on() {
    for c in [
        Character::Isaac,
        Character::Magdalene,
        Character::Cain,
        Character::Eve,
        Character::Samson,
        Character::Azazel,
        Character::Lazarus,
        Character::Forgotten,
    ] {
        assert_eq!(c.depends_on(), Dependency::Trivial);
    }
    assert_eq!(
        Character::Judas.depends_on(),
        Dependency::Singular(DependencyValue::Target(Target::Satan))
    );
    assert_eq!(
        Character::BlueBaby.depends_on(),
        Dependency::Singular(DependencyValue::Target(Target::Heart))
    );
    assert_eq!(
        Character::Eden.depends_on(),
        Dependency::Singular(DependencyValue::Target(Target::Heart))
    );
    assert_eq!(
        Character::Lost.depends_on(),
        Dependency::Singular(DependencyValue::Mantle(Mantle))
    );
    assert_eq!(
        Character::Lilith.depends_on(),
        Dependency::Product(vec![
            DependencyValue::Character(Character::Azazel),
            DependencyValue::Target(Target::UltraGreed),
        ])
    );
    assert_eq!(
        Character::Keeper.depends_on(),
        Dependency::Singular(DependencyValue::Target(Target::UltraGreed))
    );
    assert_eq!(
        Character::Apollyon.depends_on(),
        Dependency::Singular(DependencyValue::Target(Target::MegaSatan))
    );
    assert_eq!(
        Character::Bethany.depends_on(),
        Dependency::Singular(DependencyValue::Character(Character::Lazarus))
    );
    assert_eq!(
        Character::JacobAndEsau.depends_on(),
        Dependency::Singular(DependencyValue::Target(Target::Mother))
    );
}

#[test]
fn tainted_characters_depend_on_the_beast_and_their_counterpart() {
    for i in 17..CHARACTER_COUNT {
        let c = Character::at(i);
        assert_eq!(
            c.depends_on(),
            Dependency::Product(vec![
                DependencyValue::Target(Target::Beast),
                DependencyValue::Character(Character::at(i - 17)),
            ])
        );
    }
}

#[test]
fn a_value_depends_on_what_it_holds_depends_on() {
    assert_eq!(
        DependencyValue::Character(Character::Keeper).depends_on(),
        Character::Keeper.depends_on()
    );
    assert_eq!(
        DependencyValue::Target(Target::Mother).depends_on(),
        Target::Mother.depends_on()
    );
    assert_eq!(DependencyValue::Mantle(Mantle).depends_on(), Mantle.depends_on());
    assert_eq!(DependencyValue::ItLives(ItLives).depends_on(), ItLives.depends_on());
    assert_eq!(DependencyValue::Mom(Mom).depends_on(), Mom.depends_on());
    assert_eq!(DependencyValue::Polaroid(Polaroid).depends_on(), Polaroid.depends_on());
    assert_eq!(DependencyValue::Negative(Negative).depends_on(), Negative.depends_on());
}
