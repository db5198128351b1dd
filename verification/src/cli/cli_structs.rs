//! What the words of a command line stand for.

use crate::randomizer::characters::{Character, CHARACTER_COUNT};
use crate::randomizer::targets::Target;
use crate::text::{lowercase, same_text, to_lowercase};
use vstd::prelude::*;

verus! {

/// A marker that can be unlocked by name.
#[derive(Clone, Copy, Debug, PartialEq, Eq, Structural)]
pub enum Unlockable {
    ItLives,
    Polaroid,
    Negative,
    HolyMantle,
}

/// A setting that can be changed by name.
#[derive(Clone, Copy, Debug, PartialEq, Eq, Structural)]
pub enum Setting {
    /// The chance of Boss Rush.
    BossRush,
    /// The chance of Hush.
    Hush,
    /// Whether Boss Rush may accompany a target of the alternative path.
    BossRushAlt,
}

/// Something that can be unlocked by name.
#[derive(Clone, Copy, Debug, PartialEq, Eq, Structural)]
pub enum Unlock {
    Character(Character),
    Target(Target),
    Unlockable(Unlockable),
}

/// The word that stands for a character on the command line.
pub open spec fn character_word(c: Character) -> Seq<char> {
    match c {
        Character::Isaac => "isaac"@,
        Character::Magdalene => "magdalene"@,
        Character::Cain => "cain"@,
        Character::Judas => "judas"@,
        Character::BlueBaby => "blue_baby"@,
        Character::Eve => "eve"@,
        Character::Samson => "samson"@,
        Character::Azazel => "azazel"@,
        Character::Lazarus => "lazarus"@,
        Character::Eden => "eden"@,
        Character::Lost => "lost"@,
        Character::Lilith => "lilith"@,
        Character::Keeper => "keeper"@,
        Character::Apollyon => "apollyon"@,
        Character::Forgotten => "forgotten"@,
        Character::Bethany => "bethany"@,
        Character::JacobAndEsau => "jacob_And_esau"@,
        Character::TaintedIsaac => "tainted_isaac"@,
        Character::TaintedMagdalene => "tainted_magdalene"@,
        Character::TaintedCain => "tainted_cain"@,
        Character::TaintedJudas => "tainted_judas"@,
        Character::TaintedBlueBaby => "tainted_blue_baby"@,
        Character::TaintedEve => "tainted_eve"@,
        Character::TaintedSamson => "tainted_samson"@,
        Character::TaintedAzazel => "tainted_azazel"@,
        Character::TaintedLazarus => "tainted_lazarus"@,
        Character::TaintedEden => "tainted_eden"@,
        Character::TaintedLost => "tainted_lost"@,
        Character::TaintedLilith => "tainted_lilith"@,
        Character::TaintedKeeper => "tainted_keeper"@,
        Character::TaintedApollyon => "tainted_apollyon"@,
        Character::TaintedForgotten => "tainted_forgotten"@,
        Character::TaintedBethany => "tainted_bethany"@,
        Character::TaintedJacob => "tainted_jacob"@,
    }
}

/// The character that a word stands for, if it stands for one.
pub open spec fn character_of_word(word: Seq<char>) -> Option<Character> {
    if exists|c: Character| character_word(c) == word {
        Some(choose|c: Character| character_word(c) == word)
    } else {
        None
    }
}

/// The target that a word stands for, if it stands for one. Three words are
/// a target's only where that need not be told apart from a character or a
/// marker of the same name.
pub open spec fn target_of_word(word: Seq<char>, require_disambiguation: bool) -> Option<Target> {
    if word == "blue_baby"@ && !require_disambiguation {
        Some(Target::BlueBaby)
    } else if word == "blue_baby_boss"@ {
        Some(Target::BlueBaby)
    } else if word == "the_lamb"@ {
        Some(Target::Lamb)
    } else if word == "mega_satan"@ {
        Some(Target::MegaSatan)
    } else if word == "delirium"@ {
        Some(Target::Delirium)
    } else if word == "beast"@ {
        Some(Target::Beast)
    } else if word == "mother"@ {
        Some(Target::Mother)
    } else if word == "ultra_greed"@ {
        Some(Target::UltraGreed)
    } else if word == "hush"@ {
        Some(Target::Hush)
    } else if word == "satan"@ {
        Some(Target::Satan)
    } else if word == "isaac"@ && !require_disambiguation {
        Some(Target::Isaac)
    } else if word == "isaac_boss"@ {
        Some(Target::Isaac)
    } else if word == "moms_heart"@ {
        Some(Target::Heart)
    } else if word == "it_lives"@ && !require_disambiguation {
        Some(Target::Heart)
    } else if word == "it_lives_boss"@ && !require_disambiguation {
        Some(Target::Heart)
    } else {
        None
    }
}

/// The marker that a word stands for, if it stands for one.
pub open spec fn unlockable_of_word(word: Seq<char>) -> Option<Unlockable> {
    if word == "it_lives"@ {
        Some(Unlockable::ItLives)
    } else if word == "polaroid"@ {
        Some(Unlockable::Polaroid)
    } else if word == "negative"@ {
        Some(Unlockable::Negative)
    } else if word == "holy_mantle"@ {
        Some(Unlockable::HolyMantle)
    } else {
        None
    }
}

/// The setting that a word stands for, if it stands for one.
pub open spec fn setting_of_word(word: Seq<char>) -> Option<Setting> {
    if word == "bossrush"@ {
        Some(Setting::BossRush)
    } else if word == "hush"@ {
        Some(Setting::Hush)
    } else if word == "bossrushalt"@ {
        Some(Setting::BossRushAlt)
    } else {
        None
    }
}

/// The truth value that a word stands for, if it stands for one.
pub open spec fn bool_of_word(word: Seq<char>) -> Option<bool> {
    if word == "true"@ {
        Some(true)
    } else if word == "false"@ {
        Some(false)
    } else {
        None
    }
}

/// What a word stands for: a character first, else a target that needs no
/// telling apart, else a marker.
pub open spec fn unlock_of_word(word: Seq<char>) -> Option<Unlock> {
    match character_of_word(word) {
        Some(c) => Some(Unlock::Character(c)),
        None => match target_of_word(word, true) {
            Some(t) => Some(Unlock::Target(t)),
            None => match unlockable_of_word(word) {
                Some(u) => Some(Unlock::Unlockable(u)),
                None => None,
            },
        },
    }
}

/// No two characters share a word.
pub proof fn lemma_character_words_distinct()
    ensures
        forall|a: Character, b: Character|
            #[trigger] character_word(a) == #[trigger] character_word(b) ==> a == b,
{
    reveal_strlit("isaac");
    reveal_strlit("magdalene");
    reveal_strlit("cain");
    reveal_strlit("judas");
    reveal_strlit("blue_baby");
    reveal_strlit("eve");
    reveal_strlit("samson");
    reveal_strlit("azazel");
    reveal_strlit("lazarus");
    reveal_strlit("eden");
    reveal_strlit("lost");
    reveal_strlit("lilith");
    reveal_strlit("keeper");
    reveal_strlit("apollyon");
    reveal_strlit("forgotten");
    reveal_strlit("bethany");
    reveal_strlit("jacob_And_esau");
    reveal_strlit("tainted_isaac");
    reveal_strlit("tainted_magdalene");
    reveal_strlit("tainted_cain");
    reveal_strlit("tainted_judas");
    reveal_strlit("tainted_blue_baby");
    reveal_strlit("tainted_eve");
    reveal_strlit("tainted_samson");
    reveal_strlit("tainted_azazel");
    reveal_strlit("tainted_lazarus");
    reveal_strlit("tainted_eden");
    reveal_strlit("tainted_lost");
    reveal_strlit("tainted_lilith");
    reveal_strlit("tainted_keeper");
    reveal_strlit("tainted_apollyon");
    reveal_strlit("tainted_forgotten");
    reveal_strlit("tainted_bethany");
    reveal_strlit("tainted_jacob");
    assert forall|a: Character, b: Character|
        #[trigger] character_word(a) == #[trigger] character_word(b) implies a == b by {
        assert(character_word(a).len() == character_word(b).len());
        assert(character_word(a)[0] == character_word(b)[0]);
        assert(character_word(a)[8] == character_word(b)[8]);
        assert(character_word(a)[9] == character_word(b)[9]);
    }
}

/// The word that stands for a character on the command line.
fn word_of_character(c: Character) -> (r: &'static str)
    ensures
        r@ == character_word(c),
{
    match c {
        Character::Isaac => "isaac",
        Character::Magdalene => "magdalene",
        Character::Cain => "cain",
        Character::Judas => "judas",
        Character::BlueBaby => "blue_baby",
        Character::Eve => "eve",
        Character::Samson => "samson",
        Character::Azazel => "azazel",
        Character::Lazarus => "lazarus",
        Character::Eden => "eden",
        Character::Lost => "lost",
        Character::Lilith => "lilith",
        Character::Keeper => "keeper",
        Character::Apollyon => "apollyon",
        Character::Forgotten => "forgotten",
        Character::Bethany => "bethany",
        Character::JacobAndEsau => "jacob_And_esau",
        Character::TaintedIsaac => "tainted_isaac",
        Character::TaintedMagdalene => "tainted_magdalene",
        Character::TaintedCain => "tainted_cain",
        Character::TaintedJudas => "tainted_judas",
        Character::TaintedBlueBaby => "tainted_blue_baby",
        Character::TaintedEve => "tainted_eve",
        Character::TaintedSamson => "tainted_samson",
        Character::TaintedAzazel => "tainted_azazel",
        Character::TaintedLazarus => "tainted_lazarus",
        Character::TaintedEden => "tainted_eden",
        Character::TaintedLost => "tainted_lost",
        Character::TaintedLilith => "tainted_lilith",
        Character::TaintedKeeper => "tainted_keeper",
        Character::TaintedApollyon => "tainted_apollyon",
        Character::TaintedForgotten => "tainted_forgotten",
        Character::TaintedBethany => "tainted_bethany",
        Character::TaintedJacob => "tainted_jacob",
    }
}

impl Unlock {
    /// Reads a word as given on the command line, in any mix of upper and
    /// lower case.
    pub fn from_unlock_arg(arg: &str) -> (r: Option<Self>)
        ensures
            r == unlock_of_word(lowercase(arg@)),
    {
        let lower_arg = to_lowercase(arg);
        Self::from_lowercase_arg(lower_arg.as_str())
    }

    /// Reads a word that is in lower case already.
    pub fn from_lowercase_arg(lower_arg: &str) -> (r: Option<Self>)
        ensures
            r == unlock_of_word(lower_arg@),
    {
        if let Some(char) = Self::try_str_to_character(lower_arg) {
            return Some(Self::Character(char));
        }
        if let Some(targ) = Self::try_str_to_target(lower_arg, true) {
            return Some(Self::Target(targ));
        }
        match Self::try_str_to_unlockable(lower_arg) {
            Some(u) => Some(Self::Unlockable(u)),
            None => None,
        }
    }

    /// The character that a word stands for, if it stands for one.
    pub fn try_str_to_character(str: &str) -> (r: Option<Character>)
        ensures
            r == character_of_word(str@),
    {
        let mut i: usize = 0;
        while i < CHARACTER_COUNT
            invariant
                i <= CHARACTER_COUNT,
                forall|j: int|
                    0 <= j < i ==> character_word(#[trigger] Character::spec_at(j)) != str@,
            decreases CHARACTER_COUNT - i,
        {
            let c = Character::at(i);
            if same_text(str, word_of_character(c)) {
                proof {
                    lemma_character_words_distinct();
                }
                return Some(c);
            }
            i += 1;
        }
        proof {
            Character::lemma_index_bijection();
            assert forall|c: Character| character_word(c) != str@ by {
                assert(Character::spec_at(c.spec_index()) == c);
            }
        }
        None
    }

    /// The target that a word stands for, if it stands for one.
    pub fn try_str_to_target(str: &str, require_disambiguation: bool) -> (r: Option<Target>)
        ensures
            r == target_of_word(str@, require_disambiguation),
    {
        if same_text(str, "blue_baby") && !require_disambiguation {
            Some(Target::BlueBaby)
        } else if same_text(str, "blue_baby_boss") {
            Some(Target::BlueBaby)
        } else if same_text(str, "the_lamb") {
            Some(Target::Lamb)
        } else if same_text(str, "mega_satan") {
            Some(Target::MegaSatan)
        } else if same_text(str, "delirium") {
            Some(Target::Delirium)
        } else if same_text(str, "beast") {
            Some(Target::Beast)
        } else if same_text(str, "mother") {
            Some(Target::Mother)
        } else if same_text(str, "ultra_greed") {
            Some(Target::UltraGreed)
        } else if same_text(str, "hush") {
            Some(Target::Hush)
        } else if same_text(str, "satan") {
            Some(Target::Satan)
        } else if same_text(str, "isaac") && !require_disambiguation {
            Some(Target::Isaac)
        } else if same_text(str, "isaac_boss") {
            Some(Target::Isaac)
        } else if same_text(str, "moms_heart") {
            Some(Target::Heart)
        } else if same_text(str, "it_lives") && !require_disambiguation {
            Some(Target::Heart)
        } else if same_text(str, "it_lives_boss") && !require_disambiguation {
            Some(Target::Heart)
        } else {
            None
        }
    }

    /// The marker that a word stands for, if it stands for one.
    pub fn try_str_to_unlockable(str: &str) -> (r: Option<Unlockable>)
        ensures
            r == unlockable_of_word(str@),
    {
        if same_text(str, "it_lives") {
            Some(Unlockable::ItLives)
        } else if same_text(str, "polaroid") {
            Some(Unlockable::Polaroid)
        } else if same_text(str, "negative") {
            Some(Unlockable::Negative)
        } else if same_text(str, "holy_mantle") {
            Some(Unlockable::HolyMantle)
        } else {
            None
        }
    }
}

impl Setting {
    /// The setting that a word stands for, if it stands for one.
    pub fn try_str_to_setting(str: &str) -> (r: Option<Setting>)
        ensures
            r == setting_of_word(str@),
    {
        if same_text(str, "bossrush") {
            Some(Setting::BossRush)
        } else if same_text(str, "hush") {
            Some(Setting::Hush)
        } else if same_text(str, "bossrushalt") {
            Some(Setting::BossRushAlt)
        } else {
            None
        }
    }

    /// The truth value that a word stands for, if it stands for one.
    pub fn try_str_to_bool(str: &str) -> (r: Option<bool>)
        ensures
            r == bool_of_word(str@),
    {
        if same_text(str, "true") {
            Some(true)
        } else if same_text(str, "false") {
            Some(false)
        } else {
            None
        }
    }
}

} // verus!
