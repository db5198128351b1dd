//! The targets: the bosses and goals a run can be aimed at.

use crate::randomizer::target_set::TargetSet;
use crate::text::same_text;
use vstd::prelude::*;

verus! {

/// How many targets there are.
pub const TARGET_COUNT: usize = 13;

/// A boss or goal that a run can be aimed at.
#[derive(Clone, Copy, Debug, PartialEq, Eq, Hash, Structural)]
pub enum Target {
    BlueBaby,
    Lamb,
    MegaSatan,
    Delirium,
    Beast,
    Mother,
    UltraGreed,
    BossRush,
    Hush,
    Satan,
    Isaac,
    Heart,
    Mom,
}

impl Target {
    /// The position of the target in the order of declaration.
    pub open spec fn spec_index(&self) -> int {
        match self {
            Target::BlueBaby => 0,
            Target::Lamb => 1,
            Target::MegaSatan => 2,
            Target::Delirium => 3,
            Target::Beast => 4,
            Target::Mother => 5,
            Target::UltraGreed => 6,
            Target::BossRush => 7,
            Target::Hush => 8,
            Target::Satan => 9,
            Target::Isaac => 10,
            Target::Heart => 11,
            Target::Mom => 12,
        }
    }

    /// The target at a position, if the position is one.
    pub open spec fn spec_from_index(i: int) -> Option<Target> {
        if i == 0 {
            Some(Target::BlueBaby)
        } else if i == 1 {
            Some(Target::Lamb)
        } else if i == 2 {
            Some(Target::MegaSatan)
        } else if i == 3 {
            Some(Target::Delirium)
        } else if i == 4 {
            Some(Target::Beast)
        } else if i == 5 {
            Some(Target::Mother)
        } else if i == 6 {
            Some(Target::UltraGreed)
        } else if i == 7 {
            Some(Target::BossRush)
        } else if i == 8 {
            Some(Target::Hush)
        } else if i == 9 {
            Some(Target::Satan)
        } else if i == 10 {
            Some(Target::Isaac)
        } else if i == 11 {
            Some(Target::Heart)
        } else if i == 12 {
            Some(Target::Mom)
        } else {
            None
        }
    }

    /// The target at a position, and the last target where the position is
    /// none.
    pub open spec fn spec_at(i: int) -> Target {
        match Self::spec_from_index(i) {
            Some(t) => t,
            None => Target::Mom,
        }
    }

    /// Positions and targets correspond one to one.
    pub proof fn lemma_index_bijection()
        ensures
            forall|t: Target| 0 <= #[trigger] t.spec_index() < TARGET_COUNT,
            forall|t: Target| Self::spec_from_index(#[trigger] t.spec_index()) == Some(t),
            forall|t: Target| Self::spec_at(#[trigger] t.spec_index()) == t,
            forall|i: int|
                0 <= i < TARGET_COUNT ==> (#[trigger] Self::spec_at(i)).spec_index() == i,
            forall|i: int|
                0 <= i < TARGET_COUNT ==> #[trigger] Self::spec_from_index(i) == Some(
                    Self::spec_at(i),
                ),
            forall|i: int|
                !(0 <= i < TARGET_COUNT) ==> #[trigger] Self::spec_from_index(i) is None,
    {
    }

    pub fn index(&self) -> (i: usize)
        ensures
            i == self.spec_index(),
            i < TARGET_COUNT,
    {
        match self {
            Target::BlueBaby => 0,
            Target::Lamb => 1,
            Target::MegaSatan => 2,
            Target::Delirium => 3,
            Target::Beast => 4,
            Target::Mother => 5,
            Target::UltraGreed => 6,
            Target::BossRush => 7,
            Target::Hush => 8,
            Target::Satan => 9,
            Target::Isaac => 10,
            Target::Heart => 11,
            Target::Mom => 12,
        }
    }

    pub fn from_index(i: usize) -> (r: Option<Target>)
        ensures
            r == Self::spec_from_index(i as int),
            r is Some <==> i < TARGET_COUNT,
    {
        match i {
            0 => Some(Target::BlueBaby),
            1 => Some(Target::Lamb),
            2 => Some(Target::MegaSatan),
            3 => Some(Target::Delirium),
            4 => Some(Target::Beast),
            5 => Some(Target::Mother),
            6 => Some(Target::UltraGreed),
            7 => Some(Target::BossRush),
            8 => Some(Target::Hush),
            9 => Some(Target::Satan),
            10 => Some(Target::Isaac),
            11 => Some(Target::Heart),
            12 => Some(Target::Mom),
            _ => None,
        }
    }

    /// The target at a position, and the last target where the position is
    /// none.
    pub fn at(i: usize) -> (t: Target)
        ensures
            t == Self::spec_at(i as int),
            i < TARGET_COUNT ==> t.spec_index() == i,
    {
        match Self::from_index(i) {
            Some(t) => t,
            None => Target::Mom,
        }
    }

    /// The name under which the target is shown and stored.
    pub open spec fn spec_name(&self) -> Seq<char> {
        match self {
            Target::BlueBaby => "???"@,
            Target::Lamb => "The Lamb"@,
            Target::MegaSatan => "Mega Satan"@,
            Target::Delirium => "Delirium"@,
            Target::Beast => "Beast"@,
            Target::Mother => "Mother"@,
            Target::UltraGreed => "Ultra Greed"@,
            Target::BossRush => "Boss Rush"@,
            Target::Hush => "Hush"@,
            Target::Satan => "Satan"@,
            Target::Isaac => "Isaac"@,
            Target::Heart => "Mom's Heart"@,
            Target::Mom => "Mom"@,
        }
    }

    pub fn name(&self) -> (r: &'static str)
        ensures
            r@ == self.spec_name(),
    {
        match self {
            Target::BlueBaby => "???",
            Target::Lamb => "The Lamb",
            Target::MegaSatan => "Mega Satan",
            Target::Delirium => "Delirium",
            Target::Beast => "Beast",
            Target::Mother => "Mother",
            Target::UltraGreed => "Ultra Greed",
            Target::BossRush => "Boss Rush",
            Target::Hush => "Hush",
            Target::Satan => "Satan",
            Target::Isaac => "Isaac",
            Target::Heart => "Mom's Heart",
            Target::Mom => "Mom",
        }
    }

    pub fn to_string(&self) -> (r: String)
        ensures
            r@ == self.spec_name(),
    {
        self.name().to_owned()
    }

    /// No two targets share a name.
    pub proof fn lemma_names_distinct()
        ensures
            forall|a: Target, b: Target|
                #[trigger] a.spec_name() == #[trigger] b.spec_name() ==> a == b,
    {
        reveal_strlit("???");
        reveal_strlit("The Lamb");
        reveal_strlit("Mega Satan");
        reveal_strlit("Delirium");
        reveal_strlit("Beast");
        reveal_strlit("Mother");
        reveal_strlit("Ultra Greed");
        reveal_strlit("Boss Rush");
        reveal_strlit("Hush");
        reveal_strlit("Satan");
        reveal_strlit("Isaac");
        reveal_strlit("Mom's Heart");
        reveal_strlit("Mom");
        assert forall|a: Target, b: Target|
            #[trigger] a.spec_name() == #[trigger] b.spec_name() implies a == b by {
            assert(a.spec_name().len() == b.spec_name().len());
            assert(a.spec_name()[0] == b.spec_name()[0]);
        }
    }

    /// Reads a target's name. Every name is read back as its target, and any
    /// other text is refused.
    pub fn from_str(s: &str) -> (r: Result<Target, &'static str>)
        ensures
            match r {
                Ok(t) => t.spec_name() == s@,
                Err(e) => e@ == "Could not convert string to Target"@ && forall|t: Target|
                    t.spec_name() != s@,
            },
    {
        let mut i: usize = 0;
        while i < TARGET_COUNT
            invariant
                i <= TARGET_COUNT,
                forall|j: int| 0 <= j < i ==> (#[trigger] Self::spec_at(j)).spec_name() != s@,
            decreases TARGET_COUNT - i,
        {
            let t = Self::at(i);
            if same_text(s, t.name()) {
                return Ok(t);
            }
            i += 1;
        }
        proof {
            Self::lemma_index_bijection();
            assert forall|t: Target| t.spec_name() != s@ by {
                assert(Self::spec_at(t.spec_index()) == t);
            }
        }
        Err("Could not convert string to Target")
    }

    /// The targets that a set of completed ones leaves.
    pub fn get_remaining(completed: &TargetSet) -> (r: TargetSet)
        ensures
            r@ == completed@.complement(),
    {
        let r = TargetSet::full().difference(completed);
        assert(r@ =~= completed@.complement());
        r
    }

    /// Whether the target counts toward completion whatever the state.
    pub open spec fn spec_is_significant(&self) -> bool {
        match self {
            Target::Satan | Target::Isaac | Target::Heart | Target::Mom => false,
            _ => true,
        }
    }

    #[verifier::when_used_as_spec(spec_is_significant)]
    pub fn is_significant(&self) -> (r: bool)
        ensures
            r == self.spec_is_significant(),
    {
        match self {
            Target::BlueBaby
            | Target::Lamb
            | Target::MegaSatan
            | Target::Delirium
            | Target::Beast
            | Target::Mother
            | Target::UltraGreed
            | Target::BossRush
            | Target::Hush => true,
            _ => false,
        }
    }

    /// The rank by which targets are ordered when shown.
    pub open spec fn spec_precedence(&self) -> u8 {
        match self {
            Target::Delirium => 7,
            Target::MegaSatan => 6,
            Target::BlueBaby => 5,
            Target::Lamb => 4,
            Target::Beast => 4,
            Target::Mother => 4,
            Target::Satan => 4,
            Target::Isaac => 4,
            Target::Hush => 3,
            Target::Heart => 2,
            Target::BossRush => 1,
            Target::Mom => 0,
            Target::UltraGreed => 0,
        }
    }

    #[verifier::when_used_as_spec(spec_precedence)]
    pub fn precedence(&self) -> (r: u8)
        ensures
            r == self.spec_precedence(),
    {
        match self {
            Target::Delirium => 7,
            Target::MegaSatan => 6,
            Target::BlueBaby => 5,
            Target::Lamb => 4,
            Target::Beast => 4,
            Target::Mother => 4,
            Target::Satan => 4,
            Target::Isaac => 4,
            Target::Hush => 3,
            Target::Heart => 2,
            Target::BossRush => 1,
            Target::Mom => 0,
            Target::UltraGreed => 0,
        }
    }
}

} // verus!
