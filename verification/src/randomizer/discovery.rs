//! What to pursue when nothing can be picked directly: for each thing still
//! locked, the targets whose defeat moves it closer to being unlocked.

use crate::randomizer::characters::{Character, CHARACTER_COUNT};
use crate::randomizer::dependency::{
    lemma_depends_on_ranks_lower, lemma_max_rank, max_rank, Dependency, DependencyValue,
    DependencyView, HasDependency, Mantle,
};
use crate::randomizer::pool::{Unlocks, UnlocksView};
use crate::randomizer::table::{lemma_merged, merged, TargetTable};
use crate::randomizer::targets::Target;
use vstd::prelude::*;

verus! {

/// The values that discovery looks at, in this order: five characters, the
/// Holy Mantle, seven targets, then every tainted character.
pub open spec fn seeds() -> Seq<DependencyValue> {
    seq![
        DependencyValue::Character(Character::Judas),
        DependencyValue::Character(Character::BlueBaby),
        DependencyValue::Character(Character::Keeper),
        DependencyValue::Character(Character::Bethany),
        DependencyValue::Character(Character::Apollyon),
        DependencyValue::Mantle(Mantle),
        DependencyValue::Target(Target::BlueBaby),
        DependencyValue::Target(Target::Lamb),
        DependencyValue::Target(Target::MegaSatan),
        DependencyValue::Target(Target::Delirium),
        DependencyValue::Target(Target::Beast),
        DependencyValue::Target(Target::Mother),
        DependencyValue::Target(Target::Hush),
    ] + Seq::new(17, |i: int| DependencyValue::Character(Character::spec_at(17 + i)))
}

impl UnlocksView {
    /// The table that gives each unlocked character the one target.
    pub open spec fn for_unlocked_chars(self, t: Target) -> Map<Character, Set<Target>> {
        Map::new(|c: Character| self.unlocked_chars.contains(c), |c: Character| set![t])
    }

    /// What to pursue for a value that can be unlocked next.
    ///
    /// A target is to be beaten by any unlocked character, and a marker is
    /// earned by beating its target. A tainted character is unlocked by its
    /// untainted counterpart beating the Beast. Bethany is unlocked by
    /// Lazarus, who gets her valid targets but for the Beast, or Mom's Heart
    /// where she has none. Any other character stands for what it depends on.
    pub open spec fn materialized(self, v: DependencyValue) -> Map<Character, Set<Target>>
        decreases v.rank(), 0nat, 0nat,
    {
        match v {
            DependencyValue::Character(c) => {
                if c.spec_is_tainted() {
                    map![c.spec_tainted_to_normal().unwrap() => set![Target::Beast]]
                } else if c == Character::Bethany {
                    let valid = self.valid_targets(Character::Bethany);
                    map![Character::Lazarus => if valid == Set::<Target>::empty() {
                        set![Target::Heart]
                    } else {
                        valid.remove(Target::Beast)
                    }]
                } else {
                    proof {
                        lemma_depends_on_ranks_lower(v);
                    }
                    self.resolved(c.spec_depends_on())
                }
            },
            DependencyValue::Target(t) => self.for_unlocked_chars(t),
            DependencyValue::Mantle(_) => self.for_unlocked_chars(Target::UltraGreed),
            DependencyValue::ItLives(_) => self.for_unlocked_chars(Target::Heart),
            DependencyValue::Mom(_) => self.for_unlocked_chars(Target::Mom),
            DependencyValue::Polaroid(_) => self.for_unlocked_chars(Target::Isaac),
            DependencyValue::Negative(_) => self.for_unlocked_chars(Target::Satan),
        }
    }

    /// What to pursue for the first `n` of some values: for each of them, or
    /// only for those that can be unlocked next.
    pub open spec fn materialized_among(
        self,
        vs: Seq<DependencyValue>,
        n: int,
        reachable_only: bool,
    ) -> Map<Character, Set<Target>>
        decreases max_rank(vs, vs.len() as int), 1nat, n,
    {
        if n <= 0 || n > vs.len() {
            Map::empty()
        } else {
            let rest = self.materialized_among(vs, n - 1, reachable_only);
            if reachable_only && !self.newly_reachable(vs[n - 1]) {
                rest
            } else {
                proof {
                    lemma_max_rank(vs, vs.len() as int, n - 1);
                }
                merged(rest, self.materialized(vs[n - 1]))
            }
        }
    }

    /// What to pursue for what the first `n` of some values depend on.
    pub open spec fn resolved_beneath(self, vs: Seq<DependencyValue>, n: int) -> Map<
        Character,
        Set<Target>,
    >
        decreases max_rank(vs, vs.len() as int), 1nat, n,
    {
        if n <= 0 || n > vs.len() {
            Map::empty()
        } else {
            proof {
                lemma_max_rank(vs, vs.len() as int, n - 1);
                lemma_depends_on_ranks_lower(vs[n - 1]);
            }
            merged(self.resolved_beneath(vs, n - 1), self.resolved(vs[n - 1].spec_depends_on()))
        }
    }

    /// What to pursue for a dependency. Nothing, where it holds already.
    /// Where it can be met next: what its value asks for, or what those of
    /// its alternatives ask for that can be unlocked next, or what all of its
    /// parts ask for. Otherwise what is to be pursued for whatever its values
    /// depend on in turn.
    pub open spec fn resolved(self, d: DependencyView) -> Map<Character, Set<Target>>
        decreases d.rank(), 2nat, 0nat,
    {
        if self.satisfied(d) {
            Map::empty()
        } else if self.reachable(d) {
            match d {
                DependencyView::Trivial => Map::empty(),
                DependencyView::Singular(v) => self.materialized(v),
                DependencyView::Sum(vs) => self.materialized_among(vs, vs.len() as int, true),
                DependencyView::Product(vs) => self.materialized_among(
                    vs,
                    vs.len() as int,
                    false,
                ),
            }
        } else {
            match d {
                DependencyView::Trivial => Map::empty(),
                DependencyView::Singular(v) => {
                    proof {
                        lemma_depends_on_ranks_lower(v);
                    }
                    self.resolved(v.spec_depends_on())
                },
                DependencyView::Sum(vs) => self.resolved_beneath(vs, vs.len() as int),
                DependencyView::Product(vs) => self.resolved_beneath(vs, vs.len() as int),
            }
        }
    }

    /// What to pursue for the first `n` seeds.
    pub open spec fn discovered_among(self, n: int) -> Map<Character, Set<Target>>
        decreases n,
    {
        if n <= 0 || n > seeds().len() {
            Map::empty()
        } else {
            merged(
                self.discovered_among(n - 1),
                self.resolved(DependencyView::Singular(seeds()[n - 1])),
            )
        }
    }

    /// What to pursue when no character has a valid target: for each seed,
    /// what is to be pursued for it.
    pub open spec fn discovered(self) -> Map<Character, Set<Target>> {
        self.discovered_among(seeds().len() as int)
    }
}

impl Unlocks {
    /// Gives each unlocked character one more target to pursue.
    pub fn add_target_to_unlocked_chars(&self, target: Target, targets: &mut TargetTable)
        ensures
            final(targets)@ == merged(old(targets)@, self@.for_unlocked_chars(target)),
    {
        let ghost start = targets@;
        let ghost goal = merged(start, self@.for_unlocked_chars(target));
        let mut r = *targets;
        let mut i: usize = 0;
        while i < CHARACTER_COUNT
            invariant
                i <= CHARACTER_COUNT,
                goal == merged(start, self@.for_unlocked_chars(target)),
                forall|c: Character|
                    #![trigger r@.contains_key(c)]
                    c.spec_index() < i ==> (r@.contains_key(c) <==> goal.contains_key(c)),
                forall|c: Character|
                    #![trigger r@[c]]
                    c.spec_index() < i && r@.contains_key(c) ==> r@[c] == goal[c],
                forall|c: Character|
                    #![trigger r@.contains_key(c)]
                    c.spec_index() >= i ==> (r@.contains_key(c) <==> start.contains_key(c)),
                forall|c: Character|
                    #![trigger r@[c]]
                    c.spec_index() >= i && r@.contains_key(c) ==> r@[c] == start[c],
            decreases CHARACTER_COUNT - i,
        {
            proof {
                Character::lemma_index_bijection();
            }
            let c = Character::at(i);
            if self.unlocked_chars().contains(&c) {
                r.add(c, target);
                assert(r@[c] =~= goal[c]);
            }
            i += 1;
        }
        proof {
            Character::lemma_index_bijection();
            assert(r@ =~~= goal);
        }
        *targets = r;
    }

    /// Adds to a table what is to be pursued for a value that can be
    /// unlocked next.
    pub fn add_target_dependency_val(&self, dep_val: &DependencyValue, targets: &mut TargetTable)
        ensures
            final(targets)@ == merged(old(targets)@, self@.materialized(*dep_val)),
        decreases dep_val.rank(), 0nat, 0nat,
    {
        match dep_val {
            DependencyValue::Character(ch) => {
                match ch.tainted_to_normal() {
                    Some(normal) => {
                        targets.add(normal, Target::Beast);
                        assert(targets@ =~~= merged(
                            old(targets)@,
                            map![normal => set![Target::Beast]],
                        ));
                    },
                    None => {
                        let is_bethany = match ch {
                            Character::Bethany => true,
                            _ => false,
                        };
                        if is_bethany {
                            // Every target but the Beast has the Heart on its path.
                            let valid_targets = self.unlocked_targets_for(ch);
                            let mut extra = valid_targets;
                            if valid_targets.is_empty() {
                                extra.insert(Target::Heart);
                                assert(extra@ =~= set![Target::Heart]);
                            } else {
                                extra.remove(&Target::Beast);
                            }
                            targets.add_all(Character::Lazarus, &extra);
                            assert(targets@ =~~= merged(
                                old(targets)@,
                                map![Character::Lazarus => extra@],
                            ));
                        } else {
                            proof {
                                lemma_depends_on_ranks_lower(*dep_val);
                            }
                            self.resolve_dependency(&ch.depends_on(), targets);
                        }
                    },
                }
            },
            DependencyValue::Target(targ) => {
                self.add_target_to_unlocked_chars(*targ, targets);
            },
            DependencyValue::Mantle(_) => {
                self.add_target_to_unlocked_chars(Target::UltraGreed, targets);
            },
            DependencyValue::ItLives(_) => {
                self.add_target_to_unlocked_chars(Target::Heart, targets);
            },
            DependencyValue::Mom(_) => {
                self.add_target_to_unlocked_chars(Target::Mom, targets);
            },
            DependencyValue::Polaroid(_) => {
                self.add_target_to_unlocked_chars(Target::Isaac, targets);
            },
            DependencyValue::Negative(_) => {
                self.add_target_to_unlocked_chars(Target::Satan, targets);
            },
        }
    }

    /// Adds to a table what is to be pursued for a dependency.
    pub fn resolve_dependency(&self, dep: &Dependency, targets: &mut TargetTable)
        ensures
            final(targets)@ == merged(old(targets)@, self@.resolved(dep@)),
        decreases dep@.rank(), 2nat, 0nat,
    {
        let ghost start = targets@;
        proof {
            lemma_merged(start, Map::empty(), Map::empty());
        }
        if self.is_unlocked_now(dep) {
            return;
        }
        if self.is_unlockable_now(dep) {
            match dep {
                Dependency::Trivial => {},
                Dependency::Singular(val) => self.add_target_dependency_val(val, targets),
                Dependency::Sum(vals) => {
                    let mut i: usize = 0;
                    while i < vals.len()
                        invariant
                            i <= vals.len(),
                            dep@ == DependencyView::Sum(vals@),
                            targets@ == merged(
                                start,
                                self@.materialized_among(vals@, i as int, true),
                            ),
                        decreases vals.len() - i,
                    {
                        if self.is_dependency_val_unlockable(&vals[i]) {
                            proof {
                                lemma_max_rank(vals@, vals@.len() as int, i as int);
                                lemma_merged(
                                    start,
                                    self@.materialized_among(vals@, i as int, true),
                                    self@.materialized(vals@[i as int]),
                                );
                            }
                            self.add_target_dependency_val(&vals[i], targets);
                        }
                        i += 1;
                    }
                },
                Dependency::Product(vals) => {
                    let mut i: usize = 0;
                    while i < vals.len()
                        invariant
                            i <= vals.len(),
                            dep@ == DependencyView::Product(vals@),
                            targets@ == merged(
                                start,
                                self@.materialized_among(vals@, i as int, false),
                            ),
                        decreases vals.len() - i,
                    {
                        proof {
                            lemma_max_rank(vals@, vals@.len() as int, i as int);
                            lemma_merged(
                                start,
                                self@.materialized_among(vals@, i as int, false),
                                self@.materialized(vals@[i as int]),
                            );
                        }
                        self.add_target_dependency_val(&vals[i], targets);
                        i += 1;
                    }
                },
            }
        } else {
            match dep {
                Dependency::Trivial => {},
                Dependency::Singular(val) => {
                    proof {
                        lemma_depends_on_ranks_lower(*val);
                    }
                    self.resolve_dependency(&val.depends_on(), targets);
                },
                Dependency::Sum(vals) => {
                    self.resolve_beneath(dep, vals, targets);
                },
                Dependency::Product(vals) => {
                    self.resolve_beneath(dep, vals, targets);
                },
            }
        }
    }

    /// Adds to a table what is to be pursued for what each of a dependency's
    /// values depends on.
    fn resolve_beneath(
        &self,
        dep: &Dependency,
        vals: &Vec<DependencyValue>,
        targets: &mut TargetTable,
    )
        requires
            dep@ == DependencyView::Sum(vals@) || dep@ == DependencyView::Product(vals@),
        ensures
            final(targets)@ == merged(
                old(targets)@,
                self@.resolved_beneath(vals@, vals@.len() as int),
            ),
        decreases dep@.rank(), 1nat, 0nat,
    {
        let ghost start = targets@;
        proof {
            lemma_merged(start, Map::empty(), Map::empty());
        }
        let mut i: usize = 0;
        while i < vals.len()
            invariant
                i <= vals.len(),
                dep@ == DependencyView::Sum(vals@) || dep@ == DependencyView::Product(vals@),
                targets@ == merged(start, self@.resolved_beneath(vals@, i as int)),
            decreases vals.len() - i,
        {
            proof {
                lemma_max_rank(vals@, vals@.len() as int, i as int);
                lemma_depends_on_ranks_lower(vals@[i as int]);
                lemma_merged(
                    start,
                    self@.resolved_beneath(vals@, i as int),
                    self@.resolved(vals@[i as int].spec_depends_on()),
                );
            }
            self.resolve_dependency(&vals[i].depends_on(), targets);
            i += 1;
        }
    }

    /// The dependencies that discovery looks at, one for each seed.
    pub fn get_unlockables() -> (unlockables: Vec<Dependency>)
        ensures
            unlockables@.len() == seeds().len(),
            forall|i: int|
                0 <= i < unlockables@.len() ==> (#[trigger] unlockables@[i])@
                    == DependencyView::Singular(seeds()[i]),
    {
        let mut unlockables = vec![
            Dependency::Singular(DependencyValue::Character(Character::Judas)),
            Dependency::Singular(DependencyValue::Character(Character::BlueBaby)),
            Dependency::Singular(DependencyValue::Character(Character::Keeper)),
            Dependency::Singular(DependencyValue::Character(Character::Bethany)),
            Dependency::Singular(DependencyValue::Character(Character::Apollyon)),
            Dependency::Singular(DependencyValue::Mantle(Mantle)),
            Dependency::Singular(DependencyValue::Target(Target::BlueBaby)),
            Dependency::Singular(DependencyValue::Target(Target::Lamb)),
            Dependency::Singular(DependencyValue::Target(Target::MegaSatan)),
            Dependency::Singular(DependencyValue::Target(Target::Delirium)),
            Dependency::Singular(DependencyValue::Target(Target::Beast)),
            Dependency::Singular(DependencyValue::Target(Target::Mother)),
            Dependency::Singular(DependencyValue::Target(Target::Hush)),
        ];
        let mut i: usize = 0;
        while i < CHARACTER_COUNT
            invariant
                i <= CHARACTER_COUNT,
                unlockables@.len() == 13 + (if i <= 17 {
                    0
                } else {
                    i - 17
                }),
                forall|k: int|
                    0 <= k < unlockables@.len() ==> (#[trigger] unlockables@[k])@
                        == DependencyView::Singular(seeds()[k]),
            decreases CHARACTER_COUNT - i,
        {
            let ch = Character::at(i);
            if ch.is_tainted() {
                unlockables.push(Dependency::Singular(DependencyValue::Character(ch)));
            }
            i += 1;
        }
        unlockables
    }

    /// What to pursue when no character has a valid target.
    pub fn get_additional_targets(&self) -> (targets: TargetTable)
        ensures
            targets@ == self@.discovered(),
    {
        let unlockables = Self::get_unlockables();
        let mut targets = TargetTable::new();
        let mut i: usize = 0;
        while i < unlockables.len()
            invariant
                i <= unlockables.len(),
                unlockables@.len() == seeds().len(),
                forall|k: int|
                    0 <= k < unlockables@.len() ==> (#[trigger] unlockables@[k])@
                        == DependencyView::Singular(seeds()[k]),
                targets@ == self@.discovered_among(i as int),
            decreases unlockables.len() - i,
        {
            self.resolve_dependency(&unlockables[i], &mut targets);
            i += 1;
        }
        targets
    }
}

} // verus!
