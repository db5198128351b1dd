//! The characters: the playable cast.

use crate::text::same_text;
use vstd::prelude::*;

verus! {

/// How many characters there are.
pub const CHARACTER_COUNT: usize = 34;

/// A playable character. Each of the first seventeen has a tainted
/// counterpart among the last seventeen.
#[derive(Clone, Copy, Debug, PartialEq, Eq, Hash, Structural)]
pub enum Character {
    Isaac,
    Magdalene,
    Cain,
    Judas,
    BlueBaby,
    Eve,
    Samson,
    Azazel,
    Lazarus,
    Eden,
    Lost,
    Lilith,
    Keeper,
    Apollyon,
    Forgotten,
    Bethany,
    JacobAndEsau,
    TaintedIsaac,
    TaintedMagdalene,
    TaintedCain,
    TaintedJudas,
    TaintedBlueBaby,
    TaintedEve,
    TaintedSamson,
    TaintedAzazel,
    TaintedLazarus,
    TaintedEden,
    TaintedLost,
    TaintedLilith,
    TaintedKeeper,
    TaintedApollyon,
    TaintedForgotten,
    TaintedBethany,
    TaintedJacob,
}

impl Character {
    /// The position of the character in the order of declaration.
    pub open spec fn spec_index(&self) -> int {
        match self {
            Character::Isaac => 0,
            Character::Magdalene => 1,
            Character::Cain => 2,
            Character::Judas => 3,
            Character::BlueBaby => 4,
            Character::Eve => 5,
            Character::Samson => 6,
            Character::Azazel => 7,
            Character::Lazarus => 8,
            Character::Eden => 9,
            Character::Lost => 10,
            Character::Lilith => 11,
            Character::Keeper => 12,
            Character::Apollyon => 13,
            Character::Forgotten => 14,
            Character::Bethany => 15,
            Character::JacobAndEsau => 16,
            Character::TaintedIsaac => 17,
            Character::TaintedMagdalene => 18,
            Character::TaintedCain => 19,
            Character::TaintedJudas => 20,
            Character::TaintedBlueBaby => 21,
            Character::TaintedEve => 22,
            Character::TaintedSamson => 23,
            Character::TaintedAzazel => 24,
            Character::TaintedLazarus => 25,
            Character::TaintedEden => 26,
            Character::TaintedLost => 27,
            Character::TaintedLilith => 28,
            Character::TaintedKeeper => 29,
            Character::TaintedApollyon => 30,
            Character::TaintedForgotten => 31,
            Character::TaintedBethany => 32,
            Character::TaintedJacob => 33,
        }
    }

    /// The character at a position, if the position is one.
    pub open spec fn spec_from_index(i: int) -> Option<Character> {
        if i == 0 {
            Some(Character::Isaac)
        } else if i == 1 {
            Some(Character::Magdalene)
        } else if i == 2 {
            Some(Character::Cain)
        } else if i == 3 {
            Some(Character::Judas)
        } else if i == 4 {
            Some(Character::BlueBaby)
        } else if i == 5 {
            Some(Character::Eve)
        } else if i == 6 {
            Some(Character::Samson)
        } else if i == 7 {
            Some(Character::Azazel)
        } else if i == 8 {
            Some(Character::Lazarus)
        } else if i == 9 {
            Some(Character::Eden)
        } else if i == 10 {
            Some(Character::Lost)
        } else if i == 11 {
            Some(Character::Lilith)
        } else if i == 12 {
            Some(Character::Keeper)
        } else if i == 13 {
            Some(Character::Apollyon)
        } else if i == 14 {
            Some(Character::Forgotten)
        } else if i == 15 {
            Some(Character::Bethany)
        } else if i == 16 {
            Some(Character::JacobAndEsau)
        } else if i == 17 {
            Some(Character::TaintedIsaac)
        } else if i == 18 {
            Some(Character::TaintedMagdalene)
        } else if i == 19 {
            Some(Character::TaintedCain)
        } else if i == 20 {
            Some(Character::TaintedJudas)
        } else if i == 21 {
            Some(Character::TaintedBlueBaby)
        } else if i == 22 {
            Some(Character::TaintedEve)
        } else if i == 23 {
            Some(Character::TaintedSamson)
        } else if i == 24 {
            Some(Character::TaintedAzazel)
        } else if i == 25 {
            Some(Character::TaintedLazarus)
        } else if i == 26 {
            Some(Character::TaintedEden)
        } else if i == 27 {
            Some(Character::TaintedLost)
        } else if i == 28 {
            Some(Character::TaintedLilith)
        } else if i == 29 {
            Some(Character::TaintedKeeper)
        } else if i == 30 {
            Some(Character::TaintedApollyon)
        } else if i == 31 {
            Some(Character::TaintedForgotten)
        } else if i == 32 {
            Some(Character::TaintedBethany)
        } else if i == 33 {
            Some(Character::TaintedJacob)
        } else {
            None
        }
    }

    /// The character at a position, and the last character where the position is
    /// none.
    pub open spec fn spec_at(i: int) -> Character {
        match Self::spec_from_index(i) {
            Some(c) => c,
            None => Character::TaintedJacob,
        }
    }

    /// Positions and characters correspond one to one.
    pub proof fn lemma_index_bijection()
        ensures
            forall|c: Character| 0 <= #[trigger] c.spec_index() < CHARACTER_COUNT,
            forall|c: Character| Self::spec_from_index(#[trigger] c.spec_index()) == Some(c),
            forall|c: Character| Self::spec_at(#[trigger] c.spec_index()) == c,
            forall|i: int|
                0 <= i < CHARACTER_COUNT ==> (#[trigger] Self::spec_at(i)).spec_index() == i,
            forall|i: int|
                0 <= i < CHARACTER_COUNT ==> #[trigger] Self::spec_from_index(i) == Some(
                    Self::spec_at(i),
                ),
            forall|i: int|
                !(0 <= i < CHARACTER_COUNT) ==> #[trigger] Self::spec_from_index(i) is None,
    {
    }

    pub fn index(&self) -> (i: usize)
        ensures
            i == self.spec_index(),
            i < CHARACTER_COUNT,
    {
        match self {
            Character::Isaac => 0,
            Character::Magdalene => 1,
            Character::Cain => 2,
            Character::Judas => 3,
            Character::BlueBaby => 4,
            Character::Eve => 5,
            Character::Samson => 6,
            Character::Azazel => 7,
            Character::Lazarus => 8,
            Character::Eden => 9,
            Character::Lost => 10,
            Character::Lilith => 11,
            Character::Keeper => 12,
            Character::Apollyon => 13,
            Character::Forgotten => 14,
            Character::Bethany => 15,
            Character::JacobAndEsau => 16,
            Character::TaintedIsaac => 17,
            Character::TaintedMagdalene => 18,
            Character::TaintedCain => 19,
            Character::TaintedJudas => 20,
            Character::TaintedBlueBaby => 21,
            Character::TaintedEve => 22,
            Character::TaintedSamson => 23,
            Character::TaintedAzazel => 24,
            Character::TaintedLazarus => 25,
            Character::TaintedEden => 26,
            Character::TaintedLost => 27,
            Character::TaintedLilith => 28,
            Character::TaintedKeeper => 29,
            Character::TaintedApollyon => 30,
            Character::TaintedForgotten => 31,
            Character::TaintedBethany => 32,
            Character::TaintedJacob => 33,
        }
    }

    pub fn from_index(i: usize) -> (r: Option<Character>)
        ensures
            r == Self::spec_from_index(i as int),
            r is Some <==> i < CHARACTER_COUNT,
    {
        match i {
            0 => Some(Character::Isaac),
            1 => Some(Character::Magdalene),
            2 => Some(Character::Cain),
            3 => Some(Character::Judas),
            4 => Some(Character::BlueBaby),
            5 => Some(Character::Eve),
            6 => Some(Character::Samson),
            7 => Some(Character::Azazel),
            8 => Some(Character::Lazarus),
            9 => Some(Character::Eden),
            10 => Some(Character::Lost),
            11 => Some(Character::Lilith),
            12 => Some(Character::Keeper),
            13 => Some(Character::Apollyon),
            14 => Some(Character::Forgotten),
            15 => Some(Character::Bethany),
            16 => Some(Character::JacobAndEsau),
            17 => Some(Character::TaintedIsaac),
            18 => Some(Character::TaintedMagdalene),
            19 => Some(Character::TaintedCain),
            20 => Some(Character::TaintedJudas),
            21 => Some(Character::TaintedBlueBaby),
            22 => Some(Character::TaintedEve),
            23 => Some(Character::TaintedSamson),
            24 => Some(Character::TaintedAzazel),
            25 => Some(Character::TaintedLazarus),
            26 => Some(Character::TaintedEden),
            27 => Some(Character::TaintedLost),
            28 => Some(Character::TaintedLilith),
            29 => Some(Character::TaintedKeeper),
            30 => Some(Character::TaintedApollyon),
            31 => Some(Character::TaintedForgotten),
            32 => Some(Character::TaintedBethany),
            33 => Some(Character::TaintedJacob),
            _ => None,
        }
    }

    /// The character at a position, and the last character where the position is
    /// none.
    pub fn at(i: usize) -> (c: Character)
        ensures
            c == Self::spec_at(i as int),
            i < CHARACTER_COUNT ==> c.spec_index() == i,
    {
        match Self::from_index(i) {
            Some(c) => c,
            None => Character::TaintedJacob,
        }
    }

    /// The untainted character that a tainted one is the counterpart of.
    pub open spec fn spec_tainted_to_normal(&self) -> Option<Character> {
        match self {
            Character::TaintedIsaac => Some(Character::Isaac),
            Character::TaintedMagdalene => Some(Character::Magdalene),
            Character::TaintedCain => Some(Character::Cain),
            Character::TaintedJudas => Some(Character::Judas),
            Character::TaintedBlueBaby => Some(Character::BlueBaby),
            Character::TaintedEve => Some(Character::Eve),
            Character::TaintedSamson => Some(Character::Samson),
            Character::TaintedAzazel => Some(Character::Azazel),
            Character::TaintedLazarus => Some(Character::Lazarus),
            Character::TaintedEden => Some(Character::Eden),
            Character::TaintedLost => Some(Character::Lost),
            Character::TaintedLilith => Some(Character::Lilith),
            Character::TaintedKeeper => Some(Character::Keeper),
            Character::TaintedApollyon => Some(Character::Apollyon),
            Character::TaintedForgotten => Some(Character::Forgotten),
            Character::TaintedBethany => Some(Character::Bethany),
            Character::TaintedJacob => Some(Character::JacobAndEsau),
            _ => None,
        }
    }

    #[verifier::when_used_as_spec(spec_tainted_to_normal)]
    pub fn tainted_to_normal(&self) -> (r: Option<Character>)
        ensures
            r == self.spec_tainted_to_normal(),
    {
        match self {
            Character::TaintedIsaac => Some(Character::Isaac),
            Character::TaintedMagdalene => Some(Character::Magdalene),
            Character::TaintedCain => Some(Character::Cain),
            Character::TaintedJudas => Some(Character::Judas),
            Character::TaintedBlueBaby => Some(Character::BlueBaby),
            Character::TaintedEve => Some(Character::Eve),
            Character::TaintedSamson => Some(Character::Samson),
            Character::TaintedAzazel => Some(Character::Azazel),
            Character::TaintedLazarus => Some(Character::Lazarus),
            Character::TaintedEden => Some(Character::Eden),
            Character::TaintedLost => Some(Character::Lost),
            Character::TaintedLilith => Some(Character::Lilith),
            Character::TaintedKeeper => Some(Character::Keeper),
            Character::TaintedApollyon => Some(Character::Apollyon),
            Character::TaintedForgotten => Some(Character::Forgotten),
            Character::TaintedBethany => Some(Character::Bethany),
            Character::TaintedJacob => Some(Character::JacobAndEsau),
            _ => None,
        }
    }

    /// Whether the character is one of the tainted counterparts.
    pub open spec fn spec_is_tainted(&self) -> bool {
        self.spec_tainted_to_normal() is Some
    }

    #[verifier::when_used_as_spec(spec_is_tainted)]
    pub fn is_tainted(&self) -> (r: bool)
        ensures
            r == self.spec_is_tainted(),
    {
        match self {
            Character::TaintedIsaac
            | Character::TaintedMagdalene
            | Character::TaintedCain
            | Character::TaintedJudas
            | Character::TaintedBlueBaby
            | Character::TaintedEve
            | Character::TaintedSamson
            | Character::TaintedAzazel
            | Character::TaintedLazarus
            | Character::TaintedEden
            | Character::TaintedLost
            | Character::TaintedLilith
            | Character::TaintedKeeper
            | Character::TaintedApollyon
            | Character::TaintedForgotten
            | Character::TaintedBethany
            | Character::TaintedJacob => true,
            _ => false,
        }
    }

    /// A tainted character's counterpart is never itself tainted.
    pub proof fn lemma_normal_is_untainted(c: Character)
        requires
            c.spec_is_tainted(),
        ensures
            !c.spec_tainted_to_normal().unwrap().spec_is_tainted(),
    {
    }

    /// The name under which the character is shown and stored.
    pub open spec fn spec_name(&self) -> Seq<char> {
        match self {
            Character::Isaac => "Isaac"@,
            Character::Magdalene => "Magdalene"@,
            Character::Cain => "Cain"@,
            Character::Judas => "Judas"@,
            Character::BlueBaby => "???"@,
            Character::Eve => "Eve"@,
            Character::Samson => "Samson"@,
            Character::Azazel => "Azazel"@,
            Character::Lazarus => "Lazarus"@,
            Character::Eden => "Eden"@,
            Character::Lost => "Lost"@,
            Character::Lilith => "Lilith"@,
            Character::Keeper => "Keeper"@,
            Character::Apollyon => "Apollyon"@,
            Character::Forgotten => "Forgotten"@,
            Character::Bethany => "Bethany"@,
            Character::JacobAndEsau => "Jacob & Esau"@,
            Character::TaintedIsaac => "Tainted Isaac"@,
            Character::TaintedMagdalene => "Tainted Magdalene"@,
            Character::TaintedCain => "Tainted Cain"@,
            Character::TaintedJudas => "Tainted Judas"@,
            Character::TaintedBlueBaby => "Tainted ???"@,
            Character::TaintedEve => "Tainted Eve"@,
            Character::TaintedSamson => "Tainted Samson"@,
            Character::TaintedAzazel => "Tainted Azazael"@,
            Character::TaintedLazarus => "Tainted Lazarus"@,
            Character::TaintedEden => "Tainted Eden"@,
            Character::TaintedLost => "Tainted Lost"@,
            Character::TaintedLilith => "Tainted Lilith"@,
            Character::TaintedKeeper => "Tainted Keeper"@,
            Character::TaintedApollyon => "Tainted Apollyon"@,
            Character::TaintedForgotten => "Tainted Forgotten"@,
            Character::TaintedBethany => "Tainted Behtany"@,
            Character::TaintedJacob => "Tainted Jacob"@,
        }
    }

    pub fn name(&self) -> (r: &'static str)
        ensures
            r@ == self.spec_name(),
    {
        match self {
            Character::Isaac => "Isaac",
            Character::Magdalene => "Magdalene",
            Character::Cain => "Cain",
            Character::Judas => "Judas",
            Character::BlueBaby => "???",
            Character::Eve => "Eve",
            Character::Samson => "Samson",
            Character::Azazel => "Azazel",
            Character::Lazarus => "Lazarus",
            Character::Eden => "Eden",
            Character::Lost => "Lost",
            Character::Lilith => "Lilith",
            Character::Keeper => "Keeper",
            Character::Apollyon => "Apollyon",
            Character::Forgotten => "Forgotten",
            Character::Bethany => "Bethany",
            Character::JacobAndEsau => "Jacob & Esau",
            Character::TaintedIsaac => "Tainted Isaac",
            Character::TaintedMagdalene => "Tainted Magdalene",
            Character::TaintedCain => "Tainted Cain",
            Character::TaintedJudas => "Tainted Judas",
            Character::TaintedBlueBaby => "Tainted ???",
            Character::TaintedEve => "Tainted Eve",
            Character::TaintedSamson => "Tainted Samson",
            Character::TaintedAzazel => "Tainted Azazael",
            Character::TaintedLazarus => "Tainted Lazarus",
            Character::TaintedEden => "Tainted Eden",
            Character::TaintedLost => "Tainted Lost",
            Character::TaintedLilith => "Tainted Lilith",
            Character::TaintedKeeper => "Tainted Keeper",
            Character::TaintedApollyon => "Tainted Apollyon",
            Character::TaintedForgotten => "Tainted Forgotten",
            Character::TaintedBethany => "Tainted Behtany",
            Character::TaintedJacob => "Tainted Jacob",
        }
    }

    pub fn to_string(&self) -> (r: String)
        ensures
            r@ == self.spec_name(),
    {
        self.name().to_owned()
    }

    /// No two characters share a name.
    pub proof fn lemma_names_distinct()
        ensures
            forall|a: Character, b: Character|
                #[trigger] a.spec_name() == #[trigger] b.spec_name() ==> a == b,
    {
        reveal_strlit("Isaac");
        reveal_strlit("Magdalene");
        reveal_strlit("Cain");
        reveal_strlit("Judas");
        reveal_strlit("???");
        reveal_strlit("Eve");
        reveal_strlit("Samson");
        reveal_strlit("Azazel");
        reveal_strlit("Lazarus");
        reveal_strlit("Eden");
        reveal_strlit("Lost");
        reveal_strlit("Lilith");
        reveal_strlit("Keeper");
        reveal_strlit("Apollyon");
        reveal_strlit("Forgotten");
        reveal_strlit("Bethany");
        reveal_strlit("Jacob & Esau");
        reveal_strlit("Tainted Isaac");
        reveal_strlit("Tainted Magdalene");
        reveal_strlit("Tainted Cain");
        reveal_strlit("Tainted Judas");
        reveal_strlit("Tainted ???");
        reveal_strlit("Tainted Eve");
        reveal_strlit("Tainted Samson");
        reveal_strlit("Tainted Azazael");
        reveal_strlit("Tainted Lazarus");
        reveal_strlit("Tainted Eden");
        reveal_strlit("Tainted Lost");
        reveal_strlit("Tainted Lilith");
        reveal_strlit("Tainted Keeper");
        reveal_strlit("Tainted Apollyon");
        reveal_strlit("Tainted Forgotten");
        reveal_strlit("Tainted Behtany");
        reveal_strlit("Tainted Jacob");
        assert forall|a: Character, b: Character|
            #[trigger] a.spec_name() == #[trigger] b.spec_name() implies a == b by {
            assert(a.spec_name().len() == b.spec_name().len());
            assert(a.spec_name()[0] == b.spec_name()[0]);
            assert(a.spec_name()[8] == b.spec_name()[8]);
            assert(a.spec_name()[9] == b.spec_name()[9]);
        }
    }

    /// Reads a character's name. Every name is read back as its character,
    /// and any other text is refused.
    pub fn from_str(s: &str) -> (r: Result<Character, &'static str>)
        ensures
            match r {
                Ok(c) => c.spec_name() == s@,
                Err(e) => e@ == "Could not convert string to Character"@ && forall|c: Character|
                    c.spec_name() != s@,
            },
    {
        let mut i: usize = 0;
        while i < CHARACTER_COUNT
            invariant
                i <= CHARACTER_COUNT,
                forall|j: int| 0 <= j < i ==> (#[trigger] Self::spec_at(j)).spec_name() != s@,
            decreases CHARACTER_COUNT - i,
        {
            let c = Self::at(i);
            if same_text(s, c.name()) {
                return Ok(c);
            }
            i += 1;
        }
        proof {
            Self::lemma_index_bijection();
            assert forall|c: Character| c.spec_name() != s@ by {
                assert(Self::spec_at(c.spec_index()) == c);
            }
        }
        Err("Could not convert string to Character")
    }
}

} // verus!
