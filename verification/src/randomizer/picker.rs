//! The pick engine: the pool of candidates that a state offers, and the
//! pairing of a character with targets that is settled from it.

use crate::randomizer::character_set::CharacterSet;
use crate::randomizer::characters::{Character, CHARACTER_COUNT};
use crate::randomizer::draw::draw_one;
use crate::randomizer::pool::{Unlocks, UnlocksView};
use crate::randomizer::table::TargetTable;
use crate::randomizer::target_set::TargetSet;
use crate::randomizer::targets::{Target, TARGET_COUNT};
use vstd::prelude::*;

verus! {

/// The nine targets that count toward completion whatever the state.
pub open spec fn core_targets() -> Set<Target> {
    Set::new(|t: Target| t.spec_is_significant())
}

/// The pool used once everything is finished: every character, each with
/// the nine targets that always count.
pub open spec fn everything_pool() -> Map<Character, Set<Target>> {
    Map::new(|c: Character| true, |c: Character| core_targets())
}

/// Whether a target is set aside from the ordinary draw: Boss Rush, Hush,
/// Mega Satan and Delirium only ever accompany or replace a drawn target.
pub open spec fn set_aside(t: Target) -> bool {
    t == Target::BossRush || t == Target::Hush || t == Target::MegaSatan || t == Target::Delirium
}

/// What a pick is, given the character and the targets settled for it: no
/// pick where there is no target.
pub open spec fn pick_of(c: Character, targets: Set<Target>) -> Option<(Character, Set<Target>)> {
    if targets == Set::<Target>::empty() {
        None
    } else {
        Some((c, targets))
    }
}

/// A pick as a mathematical value.
pub open spec fn pick_view(r: Option<(Character, TargetSet)>) -> Option<(Character, Set<Target>)> {
    match r {
        Some((c, targets)) => Some((c, targets@)),
        None => None,
    }
}

impl UnlocksView {
    /// Whether a character has marks for each of the nine targets that
    /// always count.
    pub open spec fn finished(self, c: Character) -> bool {
        self.marks.contains_key(c) && core_targets().subset_of(self.marks[c])
    }

    /// Whether every character is finished.
    pub open spec fn everything_unlocked(self) -> bool {
        forall|c: Character| #[trigger] self.finished(c)
    }

    /// Whether a character is a candidate in its own right: unlocked, not
    /// completed, and with a valid target.
    pub open spec fn in_direct_pool(self, c: Character) -> bool {
        self.unlocked_chars.contains(c) && !self.char_completed(c) && self.valid_targets(c)
            != Set::<Target>::empty()
    }

    /// The candidates in their own right, each with its valid targets.
    pub open spec fn direct_pool(self) -> Map<Character, Set<Target>> {
        Map::new(|c: Character| self.in_direct_pool(c), |c: Character| self.valid_targets(c))
    }

    /// The pool that a pick is made from: the pool of everything where
    /// every character is finished; else the candidates in their own right;
    /// and where there is none, what discovery finds.
    pub open spec fn pick_pool(self) -> Map<Character, Set<Target>> {
        if self.everything_unlocked() {
            everything_pool()
        } else if self.direct_pool() != Map::<Character, Set<Target>>::empty() {
            self.direct_pool()
        } else {
            self.discovered()
        }
    }

    /// The targets of a pool entry that the ordinary draw is made among:
    /// those that count now and are not set aside.
    pub open spec fn ordinary(self, entry: Set<Target>) -> Set<Target> {
        Set::new(|t: Target| entry.contains(t) && self.target_significant(t) && !set_aside(t))
    }

    /// Whether a draw is one that the ordinary draw can give for an entry:
    /// one of the ordinary targets, or none where there is none.
    pub open spec fn draw_fits(self, entry: Set<Target>, drawn: Option<Target>) -> bool {
        match drawn {
            Some(d) => self.ordinary(entry).contains(d),
            None => self.ordinary(entry) == Set::<Target>::empty(),
        }
    }

    /// What the ordinary draw contributes. Mega Satan comes along with the
    /// Lamb and with ???, where the entry holds it.
    pub open spec fn base(entry: Set<Target>, drawn: Option<Target>) -> Set<Target> {
        match drawn {
            Some(d) => if (d == Target::Lamb || d == Target::BlueBaby) && entry.contains(
                Target::MegaSatan,
            ) {
                set![d, Target::MegaSatan]
            } else {
                set![d]
            },
            None => Set::empty(),
        }
    }

    /// Whether neither modifier is left to chance: the ordinary draw had at
    /// most one target to choose from, or two with Ultra Greed in the entry.
    pub open spec fn forced(self, entry: Set<Target>) -> bool {
        let n = self.ordinary(entry).len();
        n <= 1 || (n == 2 && entry.contains(Target::UltraGreed))
    }

    /// Whether Hush may accompany what was drawn: the entry holds it, and
    /// the draw is not on the alternative path.
    pub open spec fn hush_eligible(entry: Set<Target>, drawn: Option<Target>) -> bool {
        entry.contains(Target::Hush) && drawn != Some(Target::Beast) && drawn != Some(
            Target::Mother,
        )
    }

    /// Whether Boss Rush may accompany what was drawn: the entry holds it,
    /// Mom's Heart is unlocked, and the draw is not on the alternative path
    /// unless the state allows Boss Rush there.
    pub open spec fn boss_rush_eligible(self, entry: Set<Target>, drawn: Option<Target>) -> bool {
        let on_alt = drawn == Some(Target::Beast) || drawn == Some(Target::Mother);
        entry.contains(Target::BossRush) && self.unlocked_targets.contains(Target::Heart) && (on_alt
            ==> self.roll_boss_rush_on_alt)
    }

    /// The targets settled for a pool entry, given what the ordinary draw
    /// gave and how the two rolls fell.
    ///
    /// Ultra Greed stands alone. With nothing drawn, Delirium comes with
    /// Hush where the entry holds it. Otherwise each eligible modifier joins
    /// what was drawn: always where it is forced, else where its roll fell
    /// within its chance.
    pub open spec fn settled(
        self,
        entry: Set<Target>,
        drawn: Option<Target>,
        hush_roll: bool,
        boss_rush_roll: bool,
    ) -> Set<Target> {
        if drawn == Some(Target::UltraGreed) {
            set![Target::UltraGreed]
        } else if drawn is None && entry.contains(Target::Delirium) {
            set![Target::Delirium, Target::Hush]
        } else {
            let with_hush = Self::hush_eligible(entry, drawn) && (self.forced(entry) || hush_roll);
            let with_boss_rush = self.boss_rush_eligible(entry, drawn) && (self.forced(entry)
                || boss_rush_roll);
            Self::base(entry, drawn).union(
                if with_hush {
                    set![Target::Hush]
                } else {
                    Set::empty()
                },
            ).union(
                if with_boss_rush {
                    set![Target::BossRush]
                } else {
                    Set::empty()
                },
            )
        }
    }

    /// The pick made from a pool, given the character drawn from it, what
    /// the ordinary draw gave among the targets of that character, and how
    /// the two rolls fell. There is no pick where no character was drawn or
    /// the pool does not hold the one drawn, nor where no target is settled.
    pub open spec fn picked(
        self,
        pool: Map<Character, Set<Target>>,
        rand_char: Option<Character>,
        drawn: Option<Target>,
        hush_roll: bool,
        boss_rush_roll: bool,
    ) -> Option<(Character, Set<Target>)> {
        match rand_char {
            Some(c) => if pool.contains_key(c) {
                pick_of(c, self.settled(pool[c], drawn, hush_roll, boss_rush_roll))
            } else {
                None
            },
            None => None,
        }
    }

    /// Whether a pick is one that rolling a pool can give: for some character
    /// of the pool and some draw that fits its entry, the pick settled from
    /// them. An empty pool gives no pick.
    pub open spec fn rolled(
        self,
        pool: Map<Character, Set<Target>>,
        hush_roll: bool,
        boss_rush_roll: bool,
        pick: Option<(Character, Set<Target>)>,
    ) -> bool {
        if pool == Map::<Character, Set<Target>>::empty() {
            pick is None
        } else {
            exists|c: Character, drawn: Option<Target>|
                pool.contains_key(c) && self.draw_fits(pool[c], drawn) && pick == #[trigger] pick_of(
                    c,
                    self.settled(pool[c], drawn, hush_roll, boss_rush_roll),
                )
        }
    }
}

impl Unlocks {
    /// Whether every character has marks for each of the nine targets that
    /// always count.
    pub fn is_everything_unlocked(&self) -> (r: bool)
        ensures
            r == self@.everything_unlocked(),
    {
        let mut core = TargetSet::new();
        let mut k: usize = 0;
        while k < TARGET_COUNT
            invariant
                k <= TARGET_COUNT,
                forall|t: Target|
                    #![trigger core@.contains(t)]
                    core@.contains(t) <==> (t.spec_index() < k && t.spec_is_significant()),
            decreases TARGET_COUNT - k,
        {
            proof {
                Target::lemma_index_bijection();
            }
            let t = Target::at(k);
            if t.is_significant() {
                core.insert(t);
            }
            k += 1;
        }
        proof {
            Target::lemma_index_bijection();
            assert(core@ =~= core_targets());
        }
        let mut i: usize = 0;
        while i < CHARACTER_COUNT
            invariant
                i <= CHARACTER_COUNT,
                core@ == core_targets(),
                forall|j: int| 0 <= j < i ==> self@.finished(#[trigger] Character::spec_at(j)),
            decreases CHARACTER_COUNT - i,
        {
            let ch = Character::at(i);
            let done = match self.marks().get(&ch) {
                Some(marks) => core.is_subset(&marks),
                None => false,
            };
            if !done {
                assert(!self@.finished(ch));
                return false;
            }
            i += 1;
        }
        proof {
            Character::lemma_index_bijection();
            assert forall|c: Character| #[trigger] self@.finished(c) by {
                assert(Character::spec_at(c.spec_index()) == c);
            }
        }
        true
    }

    /// The pool used once everything is finished.
    pub fn everything_pool() -> (pool: TargetTable)
        ensures
            pool@ == everything_pool(),
    {
        let mut targets = TargetSet::new();
        let mut k: usize = 0;
        while k < TARGET_COUNT
            invariant
                k <= TARGET_COUNT,
                forall|t: Target|
                    #![trigger targets@.contains(t)]
                    targets@.contains(t) <==> (t.spec_index() < k && t.spec_is_significant()),
            decreases TARGET_COUNT - k,
        {
            proof {
                Target::lemma_index_bijection();
            }
            let t = Target::at(k);
            if t.is_significant() {
                targets.insert(t);
            }
            k += 1;
        }
        proof {
            Target::lemma_index_bijection();
            assert(targets@ =~= core_targets());
        }
        let mut pool = TargetTable::new();
        let mut i: usize = 0;
        while i < CHARACTER_COUNT
            invariant
                i <= CHARACTER_COUNT,
                targets@ == core_targets(),
                forall|c: Character|
                    #![trigger pool@.contains_key(c)]
                    pool@.contains_key(c) <==> c.spec_index() < i,
                forall|c: Character|
                    #![trigger pool@[c]]
                    pool@.contains_key(c) ==> pool@[c] == core_targets(),
            decreases CHARACTER_COUNT - i,
        {
            proof {
                Character::lemma_index_bijection();
            }
            pool.insert(Character::at(i), targets);
            i += 1;
        }
        proof {
            Character::lemma_index_bijection();
            assert(pool@ =~= everything_pool());
        }
        pool
    }

    /// The candidates in their own right, each with its valid targets.
    pub fn direct_pool(&self) -> (pool: TargetTable)
        ensures
            pool@ == self@.direct_pool(),
    {
        let mut pool = TargetTable::new();
        let mut i: usize = 0;
        while i < CHARACTER_COUNT
            invariant
                i <= CHARACTER_COUNT,
                forall|c: Character|
                    #![trigger pool@.contains_key(c)]
                    pool@.contains_key(c) <==> (c.spec_index() < i && self@.in_direct_pool(c)),
                forall|c: Character|
                    #![trigger pool@[c]]
                    pool@.contains_key(c) ==> pool@[c] == self@.valid_targets(c),
            decreases CHARACTER_COUNT - i,
        {
            proof {
                Character::lemma_index_bijection();
            }
            let ch = Character::at(i);
            if self.unlocked_chars().contains(&ch) && !self.is_char_completed(&ch) {
                let valid_targets = self.unlocked_targets_for(&ch);
                if !valid_targets.is_empty() {
                    pool.insert(ch, valid_targets);
                }
            }
            i += 1;
        }
        proof {
            Character::lemma_index_bijection();
            assert(pool@ =~= self@.direct_pool());
        }
        pool
    }

    /// The pool that a pick is made from.
    pub fn pick_pool(&self) -> (pool: TargetTable)
        ensures
            pool@ == self@.pick_pool(),
    {
        if self.is_everything_unlocked() {
            return Self::everything_pool();
        }
        let pool = self.direct_pool();
        if pool.is_empty() {
            self.get_additional_targets()
        } else {
            pool
        }
    }

    /// The targets of a pool entry that the ordinary draw is made among.
    pub fn ordinary_targets(&self, entry: &TargetSet) -> (r: TargetSet)
        ensures
            r@ == self@.ordinary(entry@),
    {
        let mut r = TargetSet::new();
        let mut i: usize = 0;
        while i < TARGET_COUNT
            invariant
                i <= TARGET_COUNT,
                forall|t: Target|
                    #![trigger r@.contains(t)]
                    r@.contains(t) <==> (t.spec_index() < i && self@.ordinary(entry@).contains(t)),
            decreases TARGET_COUNT - i,
        {
            proof {
                Target::lemma_index_bijection();
            }
            let t = Target::at(i);
            if entry.contains(&t) {
                let keep = match t {
                    Target::BossRush | Target::Hush | Target::MegaSatan | Target::Delirium => false,
                    Target::UltraGreed | Target::Beast => true,
                    _ => self.is_target_significant(&t),
                };
                if keep {
                    r.insert(t);
                }
            }
            i += 1;
        }
        proof {
            Target::lemma_index_bijection();
            assert(r@ =~= self@.ordinary(entry@));
        }
        r
    }

    /// Settles the targets for a pool entry, given what the ordinary draw
    /// gave and how the two rolls fell.
    pub fn settle(
        &self,
        entry: &TargetSet,
        drawn: Option<Target>,
        hush_roll: bool,
        boss_rush_roll: bool,
    ) -> (targets: TargetSet)
        ensures
            targets@ == self@.settled(entry@, drawn, hush_roll, boss_rush_roll),
    {
        let mut targets = TargetSet::new();
        let mut on_alt = false;
        match drawn {
            Some(rand_target) => {
                match rand_target {
                    Target::UltraGreed => {
                        targets.insert(rand_target);
                        assert(targets@ =~= set![Target::UltraGreed]);
                        return targets;
                    },
                    Target::Lamb | Target::BlueBaby => {
                        if entry.contains(&Target::MegaSatan) {
                            targets.insert(Target::MegaSatan);
                        }
                    },
                    Target::Beast | Target::Mother => {
                        on_alt = true;
                    },
                    _ => {},
                }
                targets.insert(rand_target);
            },
            None => {
                if entry.contains(&Target::Delirium) {
                    targets.insert(Target::Delirium);
                    targets.insert(Target::Hush);
                    assert(targets@ =~= set![Target::Delirium, Target::Hush]);
                    return targets;
                }
            },
        }
        assert(targets@ =~= UnlocksView::base(entry@, drawn));
        let should_roll_boss_rush = entry.contains(&Target::BossRush) && (if on_alt {
            self.roll_boss_rush_on_alt()
        } else {
            true
        }) && self.unlocked_targets().contains(&Target::Heart);
        let should_roll_hush = entry.contains(&Target::Hush) && !on_alt;
        let options = self.ordinary_targets(entry).len();
        let forced = options <= 1 || (options == 2 && entry.contains(&Target::UltraGreed));
        if should_roll_hush && (forced || hush_roll) {
            targets.insert(Target::Hush);
        }
        if should_roll_boss_rush && (forced || boss_rush_roll) {
            targets.insert(Target::BossRush);
        }
        assert(targets@ =~= self@.settled(entry@, drawn, hush_roll, boss_rush_roll));
        targets
    }

    /// Makes the pick from a pool, given the character drawn from it, what
    /// the ordinary draw gave among the targets of that character, and how
    /// the two rolls fell.
    pub fn pick_from(
        &self,
        pool: &TargetTable,
        rand_char: Option<Character>,
        drawn: Option<Target>,
        hush_roll: bool,
        boss_rush_roll: bool,
    ) -> (r: Option<(Character, TargetSet)>)
        ensures
            pick_view(r) == self@.picked(pool@, rand_char, drawn, hush_roll, boss_rush_roll),
    {
        let rand_char = match rand_char {
            Some(ch) => ch,
            None => {
                return None;
            },
        };
        let entry = match pool.get(&rand_char) {
            Some(entry) => entry,
            None => {
                return None;
            },
        };
        let targets = self.settle(&entry, drawn, hush_roll, boss_rush_roll);
        if targets.is_empty() {
            None
        } else {
            Some((rand_char, targets))
        }
    }

    /// Draws a character from a pool and a target from among its ordinary
    /// ones, and makes the pick from them. The two rolls say whether the
    /// draw for Hush, and that for Boss Rush, fell within its chance.
    pub fn roll_pool(&self, pool: TargetTable, hush_roll: bool, boss_rush_roll: bool) -> (r: Option<
        (Character, TargetSet),
    >)
        ensures
            self@.rolled(pool@, hush_roll, boss_rush_roll, pick_view(r)),
    {
        let char_pool = pool.keys();
        proof {
            CharacterSet::lemma_members(pool@.dom());
        }
        let rand_char = draw_one(&char_pool);
        let target_pool = match rand_char {
            Some(ch) => match pool.get(&ch) {
                Some(entry) => {
                    proof {
                        TargetSet::lemma_members(self@.ordinary(entry@));
                    }
                    self.ordinary_targets(&entry).to_vec()
                },
                None => Vec::new(),
            },
            None => Vec::new(),
        };
        let drawn = draw_one(&target_pool);
        let r = self.pick_from(&pool, rand_char, drawn, hush_roll, boss_rush_roll);
        proof {
            match rand_char {
                Some(ch) => {
                    assert(char_pool@.contains(ch));
                    assert(pool@.contains_key(ch));
                    assert(self@.draw_fits(pool@[ch], drawn));
                    assert(pick_view(r) == pick_of(
                        ch,
                        self@.settled(pool@[ch], drawn, hush_roll, boss_rush_roll),
                    ));
                },
                None => {
                    assert(pool@ =~= Map::<Character, Set<Target>>::empty());
                },
            }
        }
        r
    }

    /// Picks the next challenge: a character and the targets to send it
    /// against, or nothing where the state offers no candidate.
    ///
    /// The two rolls are the caller's: whether a uniform draw from the unit
    /// interval came out no greater than the chance of Hush, and likewise
    /// for Boss Rush.
    pub fn get_random_pick(&self, hush_roll: bool, boss_rush_roll: bool) -> (r: Option<
        (Character, TargetSet),
    >)
        ensures
            self@.rolled(self@.pick_pool(), hush_roll, boss_rush_roll, pick_view(r)),
    {
        let pool = self.pick_pool();
        self.roll_pool(pool, hush_roll, boss_rush_roll)
    }
}

/// Ultra Greed stands alone. Where the ordinary draw gives Ultra Greed, the
/// targets settled are Ultra Greed and nothing else, whatever the entry holds
/// and however the rolls fell; and no other draw settles Ultra Greed at all.
pub proof fn lemma_ultra_greed_stands_alone(
    s: UnlocksView,
    entry: Set<Target>,
    drawn: Option<Target>,
    hush_roll: bool,
    boss_rush_roll: bool,
)
    ensures
        drawn == Some(Target::UltraGreed) ==> s.settled(entry, drawn, hush_roll, boss_rush_roll)
            == set![Target::UltraGreed],
        s.settled(entry, drawn, hush_roll, boss_rush_roll).contains(Target::UltraGreed) ==> drawn
            == Some(Target::UltraGreed),
{
}

/// No pick pairs Ultra Greed with anything else: a pick that holds Ultra
/// Greed holds it alone.
pub proof fn lemma_ultra_greed_is_picked_alone(
    s: UnlocksView,
    pool: Map<Character, Set<Target>>,
    hush_roll: bool,
    boss_rush_roll: bool,
    pick: Option<(Character, Set<Target>)>,
)
    requires
        s.rolled(pool, hush_roll, boss_rush_roll, pick),
    ensures
        pick matches Some((_, targets)) ==> (targets.contains(Target::UltraGreed) ==> targets
            == set![Target::UltraGreed]),
{
}

/// Where the ordinary draw has one target to give, and it is not Ultra
/// Greed, nothing is left to chance: Hush and Boss Rush, each being
/// eligible, both join the drawn target however the rolls fell.
pub proof fn lemma_forced_inclusion(
    s: UnlocksView,
    entry: Set<Target>,
    d: Target,
    hush_roll: bool,
    boss_rush_roll: bool,
)
    requires
        s.ordinary(entry) == set![d],
        d != Target::UltraGreed,
        UnlocksView::hush_eligible(entry, Some(d)),
        s.boss_rush_eligible(entry, Some(d)),
    ensures
        s.draw_fits(entry, Some(d)),
        s.settled(entry, Some(d), hush_roll, boss_rush_roll) == UnlocksView::base(
            entry,
            Some(d),
        ).insert(Target::Hush).insert(Target::BossRush),
        s.settled(entry, Some(d), hush_roll, boss_rush_roll).contains(d),
        s.settled(entry, Some(d), hush_roll, boss_rush_roll).contains(Target::Hush),
        s.settled(entry, Some(d), hush_roll, boss_rush_roll).contains(Target::BossRush),
{
    assert(s.ordinary(entry).len() == 1) by {
        assert(s.ordinary(entry) =~= Set::<Target>::empty().insert(d));
    }
    assert(s.forced(entry));
    assert(s.settled(entry, Some(d), hush_roll, boss_rush_roll) =~= UnlocksView::base(
        entry,
        Some(d),
    ).insert(Target::Hush).insert(Target::BossRush));
}

/// Where the pool is one character whose entry has one ordinary target,
/// not Ultra Greed, with Hush and Boss Rush both eligible, every pick is
/// that character against the target, Hush and Boss Rush together, however
/// the rolls fell.
pub proof fn lemma_forced_pick(
    s: UnlocksView,
    c: Character,
    entry: Set<Target>,
    d: Target,
    hush_roll: bool,
    boss_rush_roll: bool,
    pick: Option<(Character, Set<Target>)>,
)
    requires
        s.ordinary(entry) == set![d],
        d != Target::UltraGreed,
        UnlocksView::hush_eligible(entry, Some(d)),
        s.boss_rush_eligible(entry, Some(d)),
        s.rolled(map![c => entry], hush_roll, boss_rush_roll, pick),
    ensures
        pick == Some(
            (c, UnlocksView::base(entry, Some(d)).insert(Target::Hush).insert(Target::BossRush)),
        ),
{
    let pool = map![c => entry];
    assert(pool.contains_key(c));
    let (x, drawn) = choose|x: Character, drawn: Option<Target>|
        pool.contains_key(x) && s.draw_fits(pool[x], drawn) && pick == #[trigger] pick_of(
            x,
            s.settled(pool[x], drawn, hush_roll, boss_rush_roll),
        );
    assert(x == c);
    assert(set![d].contains(d));
    assert(drawn == Some(d));
    lemma_forced_inclusion(s, entry, d, hush_roll, boss_rush_roll);
}

/// A pick never comes without a target, its character is one of the pool's,
/// and an empty pool gives no pick.
pub proof fn lemma_pick_is_never_empty(
    s: UnlocksView,
    pool: Map<Character, Set<Target>>,
    hush_roll: bool,
    boss_rush_roll: bool,
    pick: Option<(Character, Set<Target>)>,
)
    requires
        s.rolled(pool, hush_roll, boss_rush_roll, pick),
    ensures
        pick matches Some((c, targets)) ==> pool.contains_key(c) && targets != Set::<
            Target,
        >::empty(),
        pool == Map::<Character, Set<Target>>::empty() ==> pick is None,
{
}

/// A player who has unlocked nothing yet always gets a pick. The pool is
/// Isaac with Mom, Ultra Greed and Boss Rush, and whatever is drawn, the
/// pick is Isaac against Ultra Greed alone or against Mom alone.
pub proof fn lemma_fresh_state_picks(
    hush_roll: bool,
    boss_rush_roll: bool,
    pick: Option<(Character, Set<Target>)>,
)
    requires
        UnlocksView::fresh().rolled(
            UnlocksView::fresh().pick_pool(),
            hush_roll,
            boss_rush_roll,
            pick,
        ),
    ensures
        UnlocksView::fresh().pick_pool() == map![
            Character::Isaac => set![Target::Mom, Target::UltraGreed, Target::BossRush],
        ],
        pick == Some((Character::Isaac, set![Target::UltraGreed])) || pick == Some(
            (Character::Isaac, set![Target::Mom]),
        ),
{
    let s = UnlocksView::fresh();
    let entry = set![Target::Mom, Target::UltraGreed, Target::BossRush];
    assert(!s.finished(Character::Isaac));
    assert(s.valid_targets(Character::Isaac) =~= entry);
    assert(entry.contains(Target::Mom));
    assert(s.in_direct_pool(Character::Isaac));
    assert(s.direct_pool() =~= map![Character::Isaac => entry]);
    assert(s.direct_pool().contains_key(Character::Isaac));
    assert(s.pick_pool() == map![Character::Isaac => entry]);
    let pool = s.pick_pool();
    assert(pool.contains_key(Character::Isaac));
    let (c, drawn) = choose|c: Character, drawn: Option<Target>|
        pool.contains_key(c) && s.draw_fits(pool[c], drawn) && pick == #[trigger] pick_of(
            c,
            s.settled(pool[c], drawn, hush_roll, boss_rush_roll),
        );
    assert(c == Character::Isaac);
    assert(s.ordinary(entry) =~= set![Target::Mom, Target::UltraGreed]);
    assert(s.ordinary(entry).contains(Target::Mom));
    assert(drawn == Some(Target::Mom) || drawn == Some(Target::UltraGreed));
    if drawn == Some(Target::Mom) {
        assert(s.settled(entry, drawn, hush_roll, boss_rush_roll) =~= set![Target::Mom]);
        assert(set![Target::Mom].contains(Target::Mom));
    } else {
        assert(set![Target::UltraGreed].contains(Target::UltraGreed));
    }
}

/// A character with marks for every target that counts now is no candidate
/// in its own right.
pub proof fn lemma_completed_is_out(s: UnlocksView, c: Character)
    requires
        s.char_completed(c),
    ensures
        !s.direct_pool().contains_key(c),
{
}

/// Marking every target that counts now for a character changes nothing
/// about which targets count, completes the character, and so takes it out
/// of the candidates in their own right.
pub proof fn lemma_marking_all_completes(s: UnlocksView, c: Character)
    ensures
        s.marked(c, s.significant_targets()).significant_targets() == s.significant_targets(),
        s.marked(c, s.significant_targets()).char_completed(c),
        !s.marked(c, s.significant_targets()).direct_pool().contains_key(c),
        s.wf() ==> s.marked(c, s.significant_targets()).wf(),
{
    let after = s.marked(c, s.significant_targets());
    assert forall|t: Target| after.target_significant(t) == s.target_significant(t) by {
        assert(s.significant_targets().contains(t) == s.target_significant(t));
    }
    assert(after.significant_targets() =~= s.significant_targets());
}

/// While the Holy Mantle is locked, neither the Lost nor its tainted
/// counterpart is a candidate in its own right, whatever else is unlocked.
pub proof fn lemma_mantle_gate(s: UnlocksView)
    requires
        !s.is_mantle_unlocked,
    ensures
        !s.direct_pool().contains_key(Character::Lost),
        !s.direct_pool().contains_key(Character::TaintedLost),
{
}

/// While the Holy Mantle is locked, no pick made from the candidates in
/// their own right sends out the Lost or its tainted counterpart.
pub proof fn lemma_mantle_gate_on_picks(
    s: UnlocksView,
    hush_roll: bool,
    boss_rush_roll: bool,
    pick: Option<(Character, Set<Target>)>,
)
    requires
        !s.is_mantle_unlocked,
        !s.everything_unlocked(),
        s.direct_pool() != Map::<Character, Set<Target>>::empty(),
        s.rolled(s.pick_pool(), hush_roll, boss_rush_roll, pick),
    ensures
        pick matches Some((c, _)) ==> c != Character::Lost && c != Character::TaintedLost,
{
    lemma_mantle_gate(s);
}

} // verus!
