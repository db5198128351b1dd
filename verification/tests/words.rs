use srati::cli::cli_structs::{Setting, Unlock, Unlockable};
use srati::cli::commands::{ununlock, unlock};
use srati::randomizer::character_set::CharacterSet;
use srati::randomizer::characters::Character;
use srati::randomizer::pool::Unlocks;
use srati::randomizer::target_set::TargetSet;
use srati::randomizer::targets::Target;

#[test]
fn words_for_characters() {
    assert_eq!(Unlock::try_str_to_character("isaac"), Some(Character::Isaac));
    assert_eq!(
        Unlock::try_str_to_character("blue_baby"),
        Some(Character::BlueBaby)
    );
    assert_eq!(
        Unlock::try_str_to_character("jacob_And_esau"),
        Some(Character::JacobAndEsau)
    );
    assert_eq!(
        Unlock::try_str_to_character("tainted_blue_baby"),
        Some(Character::TaintedBlueBaby)
    );
    assert_eq!(
        Unlock::try_str_to_character("tainted_azazel"),
        Some(Character::TaintedAzazel)
    );
    assert_eq!(
        Unlock::try_str_to_character("tainted_bethany"),
        Some(Character::TaintedBethany)
    );
    assert_eq!(
        Unlock::try_str_to_character("tainted_jacob"),
        Some(Character::TaintedJacob)
    );
    assert_eq!(Unlock::try_str_to_character("Isaac"), None);
    assert_eq!(Unlock::try_str_to_character("jacob_and_esau"), None);
    assert_eq!(Unlock::try_str_to_character("???"), None);
    assert_eq!(Unlock::try_str_to_character(""), None);
}

#[test]
fn words_for_targets() {
    let plain = [
        ("blue_baby_boss", Target::BlueBaby),
        ("the_lamb", Target::Lamb),
        ("mega_satan", Target::MegaSatan),
        ("delirium", Target::Delirium),
        ("beast", Target::Beast),
        ("mother", Target::Mother),
        ("ultra_greed", Target::UltraGreed),
        ("hush", Target::Hush),
        ("satan", Target::Satan),
        ("isaac_boss", Target::Isaac),
        ("moms_heart", Target::Heart),
    ];
    for (word, target) in plain {
        assert_eq!(Unlock::try_str_to_target(word, false), Some(target));
        assert_eq!(Unlock::try_str_to_target(word, true), Some(target));
    }
    let shared = [
        ("blue_baby", Target::BlueBaby),
        ("isaac", Target::Isaac),
        ("it_lives", Target::Heart),
        ("it_lives_boss", Target::Heart),
    ];
    for (word, target) in shared {
        assert_eq!(Unlock::try_str_to_target(word, false), Some(target));
        assert_eq!(Unlock::try_str_to_target(word, true), None);
    }
    for word in ["boss_rush", "mom", "Hush", "the lamb", ""] {
        assert_eq!(Unlock::try_str_to_target(word, false), None);
        assert_eq!(Unlock::try_str_to_target(word, true), None);
    }
}

#[test]
fn words_for_markers() {
    assert_eq!(
        Unlock::try_str_to_unlockable("it_lives"),
        Some(Unlockable::ItLives)
    );
    assert_eq!(
        Unlock::try_str_to_unlockable("polaroid"),
        Some(Unlockable::Polaroid)
    );
    assert_eq!(
        Unlock::try_str_to_unlockable("negative"),
        Some(Unlockable::Negative)
    );
    assert_eq!(
        Unlock::try_str_to_unlockable("holy_mantle"),
        Some(Unlockable::HolyMantle)
    );
    assert_eq!(Unlock::try_str_to_unlockable("mantle"), None);
    assert_eq!(Unlock::try_str_to_unlockable("Polaroid"), None);
}

#[test]
fn a_word_is_a_character_before_a_target_before_a_marker() {
    assert_eq!(
        Unlock::from_lowercase_arg("isaac"),
        Some(Unlock::Character(Character::Isaac))
    );
    assert_eq!(
        Unlock::from_lowercase_arg("isaac_boss"),
        Some(Unlock::Target(Target::Isaac))
    );
    assert_eq!(
        Unlock::from_lowercase_arg("blue_baby"),
        Some(Unlock::Character(Character::BlueBaby))
    );
    assert_eq!(
        Unlock::from_lowercase_arg("it_lives"),
        Some(Unlock::Unlockable(Unlockable::ItLives))
    );
    assert_eq!(Unlock::from_lowercase_arg("it_lives_boss"), None);
    assert_eq!(
        Unlock::from_lowercase_arg("moms_heart"),
        Some(Unlock::Target(Target::Heart))
    );
    assert_eq!(Unlock::from_lowercase_arg("POLAROID"), None);
    assert_eq!(Unlock::from_lowercase_arg("nothing"), None);
}

#[test]
fn a_word_is_read_in_any_case() {
    assert_eq!(
        Unlock::from_unlock_arg("POLAROID"),
        Some(Unlock::Unlockable(Unlockable::Polaroid))
    );
    assert_eq!(
        Unlock::from_unlock_arg("Tainted_Lost"),
        Some(Unlock::Character(Character::TaintedLost))
    );
    assert_eq!(
        Unlock::from_unlock_arg("The_Lamb"),
        Some(Unlock::Target(Target::Lamb))
    );
    assert_eq!(
        Unlock::from_unlock_arg("holy_mantle"),
        Some(Unlock::Unlockable(Unlockable::HolyMantle))
    );
    // The word for Jacob and Esau has a capital in it, which lowering loses.
    assert_eq!(Unlock::from_unlock_arg("jacob_And_esau"), None);
    assert_eq!(Unlock::from_unlock_arg("Dad"), None);
}

#[test]
fn unlocking_by_item() {
    let mut u = Unlocks::default();
    unlock(&mut u, Unlock::Character(Character::Eve));
    unlock(&mut u, Unlock::Target(Target::Hush));
    unlock(&mut u, Unlock::Unlockable(Unlockable::ItLives));
    unlock(&mut u, Unlock::Unlockable(Unlockable::Polaroid));
    unlock(&mut u, Unlock::Unlockable(Unlockable::Negative));
    unlock(&mut u, Unlock::Unlockable(Unlockable::HolyMantle));
    assert_eq!(
        *u.unlocked_chars(),
        CharacterSet::from_vec(&vec![Character::Isaac, Character::Eve])
    );
    assert_eq!(
        *u.unlocked_targets(),
        TargetSet::from_vec(&vec![
            Target::Mom,
            Target::UltraGreed,
            Target::BossRush,
            Target::Hush
        ])
    );
    assert!(u.is_it_lives_unlocked());
    assert!(u.is_polaroid_unlocked());
    assert!(u.is_negative_unlocked());
    assert!(u.is_mantle_unlocked());
}

#[test]
fn locking_by_item() {
    let mut u = Unlocks::default();
    u.set_everything_unlocked();
    ununlock(&mut u, Unlock::Character(Character::Eve));
    ununlock(&mut u, Unlock::Target(Target::Hush));
    ununlock(&mut u, Unlock::Unlockable(Unlockable::ItLives));
    ununlock(&mut u, Unlock::Unlockable(Unlockable::HolyMantle));
    assert!(!u.unlocked_chars().contains(&Character::Eve));
    assert_eq!(u.marks().get(&Character::Eve), None);
    assert!(!u.unlocked_targets().contains(&Target::Hush));
    assert!(!u.marks().get(&Character::Isaac).unwrap().contains(&Target::Hush));
    assert!(u.marks().get(&Character::Isaac).unwrap().contains(&Target::Lamb));
    assert!(!u.is_it_lives_unlocked());
    assert!(!u.is_mantle_unlocked());
    assert!(u.is_polaroid_unlocked());
    assert!(u.is_negative_unlocked());
    ununlock(&mut u, Unlock::Unlockable(Unlockable::Polaroid));
    ununlock(&mut u, Unlock::Unlockable(Unlockable::Negative));
    assert!(!u.is_polaroid_unlocked());
    assert!(!u.is_negative_unlocked());
}

#[test]
fn words_for_settings() {
    assert_eq!(Setting::try_str_to_setting("bossrush"), Some(Setting::BossRush));
    assert_eq!(Setting::try_str_to_setting("hush"), Some(Setting::Hush));
    assert_eq!(
        Setting::try_str_to_setting("bossrushalt"),
        Some(Setting::BossRushAlt)
    );
    assert_eq!(Setting::try_str_to_setting("boss_rush"), None);
    assert_eq!(Setting::try_str_to_setting("Hush"), None);
    assert_eq!(Setting::try_str_to_setting(""), None);
}

#[test]
fn words_for_truth_values() {
    assert_eq!(Setting::try_str_to_bool("true"), Some(true));
    assert_eq!(Setting::try_str_to_bool("false"), Some(false));
    assert_eq!(Setting::try_str_to_bool("True"), None);
    assert_eq!(Setting::try_str_to_bool("1"), None);
    assert_eq!(Setting::try_str_to_bool(""), None);
}
