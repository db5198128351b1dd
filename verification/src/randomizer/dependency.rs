//! What has to be unlocked before something else can be.

use crate::randomizer::characters::Character;
use crate::randomizer::targets::Target;
use vstd::prelude::*;

verus! {

/// The Holy Mantle marker.
#[derive(Clone, Copy, Debug, PartialEq, Eq, Structural)]
pub struct Mantle;

/// The It Lives marker.
#[derive(Clone, Copy, Debug, PartialEq, Eq, Structural)]
pub struct ItLives;

/// The marker of Mom having been beaten.
#[derive(Clone, Copy, Debug, PartialEq, Eq, Structural)]
pub struct Mom;

/// The Polaroid marker.
#[derive(Clone, Copy, Debug, PartialEq, Eq, Structural)]
pub struct Polaroid;

/// The Negative marker.
#[derive(Clone, Copy, Debug, PartialEq, Eq, Structural)]
pub struct Negative;

/// One thing that can be unlocked: a character, a target or a marker.
#[derive(Clone, Copy, Debug, PartialEq, Eq, Structural)]
pub enum DependencyValue {
    Character(Character),
    Target(Target),
    Mantle(Mantle),
    ItLives(ItLives),
    Mom(Mom),
    Polaroid(Polaroid),
    Negative(Negative),
}

/// What must hold before something can be unlocked.
#[derive(Debug, PartialEq, Eq)]
pub enum Dependency {
    /// Nothing is required.
    Trivial,
    /// The one value must be unlocked.
    Singular(DependencyValue),
    /// At least one of the values must be unlocked.
    Sum(Vec<DependencyValue>),
    /// All of the values must be unlocked.
    Product(Vec<DependencyValue>),
}

/// A dependency as a mathematical value.
pub enum DependencyView {
    Trivial,
    Singular(DependencyValue),
    Sum(Seq<DependencyValue>),
    Product(Seq<DependencyValue>),
}

impl View for Dependency {
    type V = DependencyView;

    open spec fn view(&self) -> DependencyView {
        match self {
            Dependency::Trivial => DependencyView::Trivial,
            Dependency::Singular(v) => DependencyView::Singular(*v),
            Dependency::Sum(vs) => DependencyView::Sum(vs@),
            Dependency::Product(vs) => DependencyView::Product(vs@),
        }
    }
}

/// Something that can be unlocked and says what has to be unlocked first.
pub trait HasDependency {
    spec fn spec_depends_on(&self) -> DependencyView;

    fn depends_on(&self) -> (d: Dependency)
        ensures
            d@ == self.spec_depends_on(),
    ;
}

impl HasDependency for Mantle {
    open spec fn spec_depends_on(&self) -> DependencyView {
        DependencyView::Singular(DependencyValue::Target(Target::UltraGreed))
    }

    fn depends_on(&self) -> (d: Dependency) {
        Dependency::Singular(DependencyValue::Target(Target::UltraGreed))
    }
}

impl HasDependency for ItLives {
    open spec fn spec_depends_on(&self) -> DependencyView {
        DependencyView::Singular(DependencyValue::Target(Target::Heart))
    }

    fn depends_on(&self) -> (d: Dependency) {
        Dependency::Singular(DependencyValue::Target(Target::Heart))
    }
}

impl HasDependency for Mom {
    open spec fn spec_depends_on(&self) -> DependencyView {
        DependencyView::Trivial
    }

    fn depends_on(&self) -> (d: Dependency) {
        Dependency::Trivial
    }
}

impl HasDependency for Polaroid {
    open spec fn spec_depends_on(&self) -> DependencyView {
        DependencyView::Singular(DependencyValue::Target(Target::Isaac))
    }

    fn depends_on(&self) -> (d: Dependency) {
        Dependency::Singular(DependencyValue::Target(Target::Isaac))
    }
}

impl HasDependency for Negative {
    open spec fn spec_depends_on(&self) -> DependencyView {
        DependencyView::Singular(DependencyValue::Target(Target::Satan))
    }

    fn depends_on(&self) -> (d: Dependency) {
        Dependency::Singular(DependencyValue::Target(Target::Satan))
    }
}

impl HasDependency for Target {
    open spec fn spec_depends_on(&self) -> DependencyView {
        match self {
            Target::BlueBaby => DependencyView::Singular(DependencyValue::Polaroid(Polaroid)),
            Target::Lamb => DependencyView::Singular(DependencyValue::Negative(Negative)),
            Target::MegaSatan => DependencyView::Sum(
                seq![DependencyValue::Target(Target::Lamb), DependencyValue::Target(Target::BlueBaby)],
            ),
            Target::Delirium => DependencyView::Singular(DependencyValue::Target(Target::Hush)),
            Target::Beast => DependencyView::Singular(DependencyValue::Target(Target::Mother)),
            Target::Mother => DependencyView::Product(
                seq![DependencyValue::Target(Target::Hush), DependencyValue::Mantle(Mantle)],
            ),
            Target::UltraGreed => DependencyView::Trivial,
            Target::BossRush => DependencyView::Trivial,
            Target::Hush => DependencyView::Singular(
                DependencyValue::Character(Character::BlueBaby),
            ),
            Target::Satan => DependencyView::Singular(DependencyValue::ItLives(ItLives)),
            Target::Isaac => DependencyView::Singular(DependencyValue::ItLives(ItLives)),
            Target::Heart => DependencyView::Singular(DependencyValue::Mom(Mom)),
            Target::Mom => DependencyView::Trivial,
        }
    }

    fn depends_on(&self) -> (d: Dependency) {
        match self {
            Target::BlueBaby => Dependency::Singular(DependencyValue::Polaroid(Polaroid)),
            Target::Lamb => Dependency::Singular(DependencyValue::Negative(Negative)),
            Target::MegaSatan => {
                let vs = vec![
                    DependencyValue::Target(Target::Lamb),
                    DependencyValue::Target(Target::BlueBaby),
                ];
                assert(vs@ =~= seq![
                    DependencyValue::Target(Target::Lamb),
                    DependencyValue::Target(Target::BlueBaby),
                ]);
                Dependency::Sum(vs)
            },
            Target::Delirium => Dependency::Singular(DependencyValue::Target(Target::Hush)),
            Target::Beast => Dependency::Singular(DependencyValue::Target(Target::Mother)),
            Target::Mother => {
                let vs = vec![
                    DependencyValue::Target(Target::Hush),
                    DependencyValue::Mantle(Mantle),
                ];
                assert(vs@ =~= seq![
                    DependencyValue::Target(Target::Hush),
                    DependencyValue::Mantle(Mantle),
                ]);
                Dependency::Product(vs)
            },
            Target::UltraGreed => Dependency::Trivial,
            Target::BossRush => Dependency::Trivial,
            Target::Hush => Dependency::Singular(DependencyValue::Character(Character::BlueBaby)),
            Target::Satan => Dependency::Singular(DependencyValue::ItLives(ItLives)),
            Target::Isaac => Dependency::Singular(DependencyValue::ItLives(ItLives)),
            Target::Heart => Dependency::Singular(DependencyValue::Mom(Mom)),
            Target::Mom => Dependency::Trivial,
        }
    }
}

impl HasDependency for Character {
    open spec fn spec_depends_on(&self) -> DependencyView {
        match self.spec_tainted_to_normal() {
            Some(normal) => DependencyView::Product(
                seq![DependencyValue::Target(Target::Beast), DependencyValue::Character(normal)],
            ),
            None => match self {
                Character::Judas => DependencyView::Singular(DependencyValue::Target(Target::Satan)),
                Character::BlueBaby => DependencyView::Singular(
                    DependencyValue::Target(Target::Heart),
                ),
                Character::Eden => DependencyView::Singular(DependencyValue::Target(Target::Heart)),
                Character::Lost => DependencyView::Singular(DependencyValue::Mantle(Mantle)),
                Character::Lilith => DependencyView::Product(
                    seq![
                        DependencyValue::Character(Character::Azazel),
                        DependencyValue::Target(Target::UltraGreed),
                    ],
                ),
                Character::Keeper => DependencyView::Singular(
                    DependencyValue::Target(Target::UltraGreed),
                ),
                Character::Apollyon => DependencyView::Singular(
                    DependencyValue::Target(Target::MegaSatan),
                ),
                Character::Bethany => DependencyView::Singular(
                    DependencyValue::Character(Character::Lazarus),
                ),
                Character::JacobAndEsau => DependencyView::Singular(
                    DependencyValue::Target(Target::Mother),
                ),
                _ => DependencyView::Trivial,
            },
        }
    }

    fn depends_on(&self) -> (d: Dependency) {
        match self.tainted_to_normal() {
            Some(normal) => {
                let vs = vec![
                    DependencyValue::Target(Target::Beast),
                    DependencyValue::Character(normal),
                ];
                assert(vs@ =~= seq![
                    DependencyValue::Target(Target::Beast),
                    DependencyValue::Character(normal),
                ]);
                Dependency::Product(vs)
            },
            None => match self {
                Character::Judas => Dependency::Singular(DependencyValue::Target(Target::Satan)),
                Character::BlueBaby => Dependency::Singular(DependencyValue::Target(Target::Heart)),
                Character::Eden => Dependency::Singular(DependencyValue::Target(Target::Heart)),
                Character::Lost => Dependency::Singular(DependencyValue::Mantle(Mantle)),
                Character::Lilith => {
                    let vs = vec![
                        DependencyValue::Character(Character::Azazel),
                        DependencyValue::Target(Target::UltraGreed),
                    ];
                    assert(vs@ =~= seq![
                        DependencyValue::Character(Character::Azazel),
                        DependencyValue::Target(Target::UltraGreed),
                    ]);
                    Dependency::Product(vs)
                },
                Character::Keeper => Dependency::Singular(
                    DependencyValue::Target(Target::UltraGreed),
                ),
                Character::Apollyon => Dependency::Singular(
                    DependencyValue::Target(Target::MegaSatan),
                ),
                Character::Bethany => Dependency::Singular(
                    DependencyValue::Character(Character::Lazarus),
                ),
                Character::JacobAndEsau => Dependency::Singular(
                    DependencyValue::Target(Target::Mother),
                ),
                _ => Dependency::Trivial,
            },
        }
    }
}

impl HasDependency for DependencyValue {
    open spec fn spec_depends_on(&self) -> DependencyView {
        match self {
            DependencyValue::Character(c) => c.spec_depends_on(),
            DependencyValue::Target(t) => t.spec_depends_on(),
            DependencyValue::Mantle(m) => m.spec_depends_on(),
            DependencyValue::ItLives(m) => m.spec_depends_on(),
            DependencyValue::Mom(m) => m.spec_depends_on(),
            DependencyValue::Polaroid(m) => m.spec_depends_on(),
            DependencyValue::Negative(m) => m.spec_depends_on(),
        }
    }

    fn depends_on(&self) -> (d: Dependency) {
        match self {
            DependencyValue::Character(c) => c.depends_on(),
            DependencyValue::Target(t) => t.depends_on(),
            DependencyValue::Mantle(m) => m.depends_on(),
            DependencyValue::ItLives(m) => m.depends_on(),
            DependencyValue::Mom(m) => m.depends_on(),
            DependencyValue::Polaroid(m) => m.depends_on(),
            DependencyValue::Negative(m) => m.depends_on(),
        }
    }
}

impl DependencyValue {
    /// The height of a value in the catalog. Every value stands higher than
    /// all that it depends on, so that following dependencies comes to an end.
    pub open spec fn rank(&self) -> nat {
        match self {
            DependencyValue::Character(c) => match c.spec_tainted_to_normal() {
                Some(Character::Apollyon) => 9,
                Some(_) => 7,
                None => match c {
                    Character::Judas => 5,
                    Character::BlueBaby => 3,
                    Character::Eden => 3,
                    Character::Lost => 3,
                    Character::Lilith => 2,
                    Character::Keeper => 2,
                    Character::Apollyon => 8,
                    Character::Bethany => 2,
                    Character::JacobAndEsau => 6,
                    _ => 1,
                },
            },
            DependencyValue::Target(t) => match t {
                Target::BlueBaby => 6,
                Target::Lamb => 6,
                Target::MegaSatan => 7,
                Target::Delirium => 5,
                Target::Beast => 6,
                Target::Mother => 5,
                Target::UltraGreed => 1,
                Target::BossRush => 1,
                Target::Hush => 4,
                Target::Satan => 4,
                Target::Isaac => 4,
                Target::Heart => 2,
                Target::Mom => 1,
            },
            DependencyValue::Mantle(_) => 2,
            DependencyValue::ItLives(_) => 3,
            DependencyValue::Mom(_) => 1,
            DependencyValue::Polaroid(_) => 5,
            DependencyValue::Negative(_) => 5,
        }
    }
}

/// The greatest rank among the first `n` of some values.
pub open spec fn max_rank(vs: Seq<DependencyValue>, n: int) -> nat
    decreases n,
{
    if n <= 0 {
        0
    } else {
        let rest = max_rank(vs, n - 1);
        if vs[n - 1].rank() > rest {
            vs[n - 1].rank()
        } else {
            rest
        }
    }
}

/// No value among the first `n` ranks above their greatest rank.
pub proof fn lemma_max_rank(vs: Seq<DependencyValue>, n: int, i: int)
    requires
        0 <= i < n,
    ensures
        vs[i].rank() <= max_rank(vs, n),
    decreases n,
{
    if i < n - 1 {
        lemma_max_rank(vs, n - 1, i);
    }
}

impl DependencyView {
    /// The greatest rank among the values that the dependency names.
    pub open spec fn rank(&self) -> nat {
        match self {
            DependencyView::Trivial => 0,
            DependencyView::Singular(v) => v.rank(),
            DependencyView::Sum(vs) => max_rank(*vs, vs.len() as int),
            DependencyView::Product(vs) => max_rank(*vs, vs.len() as int),
        }
    }
}

/// The catalog has no cycle: what a value depends on ranks below it.
pub proof fn lemma_depends_on_ranks_lower(v: DependencyValue)
    ensures
        v.spec_depends_on().rank() < v.rank(),
{
    reveal_with_fuel(max_rank, 3);
}

} // verus!
