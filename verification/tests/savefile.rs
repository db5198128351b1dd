use srati::randomizer::character_set::CharacterSet;
use srati::randomizer::characters::{Character, CHARACTER_COUNT};
use srati::randomizer::pool::Unlocks;
use srati::randomizer::target_set::TargetSet;
use srati::randomizer::targets::Target;
use srati::toml_parse::savefile::{Error, General, Marks, Savefile};

fn targets(items: &[Target]) -> TargetSet {
    TargetSet::from_vec(&items.to_vec())
}

fn names(items: &[&str]) -> Vec<String> {
    items.iter().map(|s| s.to_string()).collect()
}

fn document(chars: &[&str], targs: &[&str], marks: Vec<(String, Marks)>) -> Savefile {
    Savefile::new(
        General::new(
            names(chars),
            names(targs),
            true,
            false,
            true,
            false,
            false,
            0.5f32.to_bits(),
            0.25f32.to_bits(),
            false,
        ),
        marks,
    )
}

#[test]
fn a_fresh_state_as_a_document() {
    let file = Savefile::from_unlocks(&Unlocks::default());
    assert_eq!(file.general_config.unlocked_chars, names(&["Isaac"]));
    assert_eq!(
        file.general_config.unlocked_targets,
        names(&["Ultra Greed", "Boss Rush", "Mom"])
    );
    assert!(!file.general_config.is_mantle_unlocked);
    assert!(!file.general_config.is_it_lives_unlocked);
    assert!(!file.general_config.is_polaroid_unlocked);
    assert!(!file.general_config.is_negative_unlocked);
    assert!(!file.general_config.is_mom_beaten);
    assert_eq!(f32::from_bits(file.general_config.boss_rush_chance), 1.0);
    assert_eq!(f32::from_bits(file.general_config.hush_chance), 1.0);
    assert!(file.general_config.roll_boss_rush_on_alt);
    assert!(file.marks.is_empty());
}

#[test]
fn marks_as_entries() {
    let mut u = Unlocks::default();
    u.add_marks(Character::Cain, targets(&[Target::Mom, Target::Hush]));
    u.add_marks(Character::Isaac, targets(&[Target::Heart]));
    u.remove_unlocked_targets(&targets(&[Target::Heart]));
    let file = Savefile::from_unlocks(&u);
    assert_eq!(
        file.marks,
        vec![
            ("Isaac".to_string(), Marks::new(vec![])),
            ("Cain".to_string(), Marks::new(names(&["Hush", "Mom"]))),
        ]
    );
}

#[test]
fn mom_is_written_as_beaten_once_the_heart_is_unlocked() {
    let mut u = Unlocks::default();
    u.add_unlocked_targets(targets(&[Target::Heart]));
    assert!(Savefile::from_unlocks(&u).general_config.is_mom_beaten);
}

#[test]
fn a_document_is_read_as_a_state() {
    let file = document(
        &["Isaac", "???", "Tainted Behtany"],
        &["Mom", "Mom's Heart", "The Lamb"],
        vec![
            ("???".to_string(), Marks::new(names(&["Mom", "The Lamb"]))),
            ("Cain".to_string(), Marks::new(names(&["Hush"]))),
        ],
    );
    let u = file.to_unlocks().unwrap();
    assert_eq!(
        *u.unlocked_chars(),
        CharacterSet::from_vec(&vec![
            Character::Isaac,
            Character::BlueBaby,
            Character::TaintedBethany,
            Character::Cain,
        ])
    );
    assert_eq!(
        *u.unlocked_targets(),
        targets(&[Target::Mom, Target::Heart, Target::Lamb, Target::Hush])
    );
    assert_eq!(
        u.marks().get(&Character::BlueBaby),
        Some(targets(&[Target::Mom, Target::Lamb]))
    );
    assert_eq!(u.marks().get(&Character::Cain), Some(targets(&[Target::Hush])));
    assert_eq!(u.marks().keys(), vec![Character::Cain, Character::BlueBaby]);
    assert!(u.is_mantle_unlocked());
    assert!(!u.is_it_lives_unlocked());
    assert!(u.is_polaroid_unlocked());
    assert!(!u.is_negative_unlocked());
    assert_eq!(f32::from_bits(u.boss_rush_chance()), 0.5);
    assert_eq!(f32::from_bits(u.hush_chance()), 0.25);
    assert!(!u.roll_boss_rush_on_alt());
}

#[test]
fn the_last_entry_for_a_character_counts() {
    let file = document(
        &[],
        &[],
        vec![
            ("Eve".to_string(), Marks::new(names(&["Mom"]))),
            ("Eve".to_string(), Marks::new(names(&["Hush"]))),
        ],
    );
    let u = file.to_unlocks().unwrap();
    assert_eq!(u.marks().get(&Character::Eve), Some(targets(&[Target::Hush])));
    assert_eq!(*u.unlocked_targets(), targets(&[Target::Mom, Target::Hush]));
}

#[test]
fn an_unknown_name_spoils_the_document() {
    let bad_char = document(&["Isaac", "Isaak"], &["Mom"], vec![]);
    assert_eq!(bad_char.to_unlocks(), Err(Error::ParseError));
    let bad_target = document(&["Isaac"], &["Mom", "Dad"], vec![]);
    assert_eq!(bad_target.to_unlocks(), Err(Error::ParseError));
    let bad_key = document(
        &["Isaac"],
        &["Mom"],
        vec![
            ("Isaac".to_string(), Marks::new(names(&["Mom"]))),
            ("isaac".to_string(), Marks::new(names(&["Mom"]))),
        ],
    );
    assert_eq!(bad_key.to_unlocks(), Err(Error::ParseError));
    let bad_mark = document(
        &["Isaac"],
        &["Mom"],
        vec![
            ("Isaac".to_string(), Marks::new(names(&["Mom", "mom"]))),
            ("Cain".to_string(), Marks::new(names(&["Mom"]))),
        ],
    );
    assert_eq!(bad_mark.to_unlocks(), Err(Error::ParseError));
    let a_target_for_a_character = document(&["Mom's Heart"], &[], vec![]);
    assert_eq!(a_target_for_a_character.to_unlocks(), Err(Error::ParseError));
}

#[test]
fn a_stored_state_is_read_back_unchanged() {
    let mut states = vec![Unlocks::default()];

    let mut u = Unlocks::default();
    u.add_marks(Character::Bethany, targets(&[Target::Mom, Target::Delirium]));
    u.add_marks(Character::TaintedAzazel, targets(&[Target::Heart]));
    u.add_marks(Character::Isaac, TargetSet::new());
    u.add_unlocked_chars(CharacterSet::from_vec(&vec![
        Character::JacobAndEsau,
        Character::TaintedBlueBaby,
    ]));
    u.set_mantle_unlocked(true);
    u.set_negative_unlocked(true);
    u.set_boss_rush_chance(0.3f32.to_bits());
    u.set_hush_chance(0.0f32.to_bits());
    u.set_roll_boss_rush_on_alt(false);
    states.push(u);

    let mut everything = Unlocks::default();
    everything.set_everything_unlocked();
    states.push(everything);

    let mut nothing = Unlocks::default();
    nothing.set_unlocked_chars(CharacterSet::new());
    nothing.set_unlocked_targets(TargetSet::new());
    states.push(nothing);

    for i in 0..CHARACTER_COUNT {
        let mut u = Unlocks::default();
        u.add_marks(Character::at(i), TargetSet::full());
        states.push(u);
    }

    for state in states {
        let file = Savefile::from_unlocks(&state);
        assert_eq!(file.to_unlocks(), Ok(state));
    }
}
