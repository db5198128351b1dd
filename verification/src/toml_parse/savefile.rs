//! The document that an unlock state is stored as, and the conversions
//! between the two.
//!
//! The document names characters and targets by their names. Reading it
//! back fails on any name that is not one, and gives no state then.

use crate::randomizer::character_set::CharacterSet;
use crate::randomizer::characters::Character;
use crate::randomizer::pool::{Unlocks, UnlocksView};
use crate::randomizer::target_set::TargetSet;
use crate::randomizer::targets::Target;
use vstd::prelude::*;

verus! {

/// Why a document could not be turned into a state.
#[derive(Clone, Copy, Debug, PartialEq, Eq, Structural)]
pub enum Error {
    /// The document holds a name that is neither a character's nor a
    /// target's, where one was expected.
    ParseError,
}

/// The targets that a character has completed, by name.
#[derive(Debug, PartialEq, Eq)]
pub struct Marks {
    pub completed: Vec<String>,
}

/// The general part of a document: what is unlocked and how picks are made.
#[derive(Debug, PartialEq, Eq)]
pub struct General {
    pub unlocked_chars: Vec<String>,
    pub unlocked_targets: Vec<String>,
    pub is_mantle_unlocked: bool,
    pub is_it_lives_unlocked: bool,
    pub is_polaroid_unlocked: bool,
    pub is_negative_unlocked: bool,
    /// Whether Mom has been beaten. It is written as whether Mom's Heart is
    /// an unlocked target, and is not read back: the list of targets says it.
    pub is_mom_beaten: bool,
    /// The chance of Boss Rush, as the bit pattern of a single-precision
    /// number.
    pub boss_rush_chance: u32,
    /// The chance of Hush, likewise.
    pub hush_chance: u32,
    pub roll_boss_rush_on_alt: bool,
}

/// A stored unlock state. Where `marks` names a character more than once,
/// the last entry counts.
#[derive(Debug, PartialEq, Eq)]
pub struct Savefile {
    pub general_config: General,
    pub marks: Vec<(String, Marks)>,
}

/// The general part of a document as a mathematical value.
pub struct GeneralView {
    pub unlocked_chars: Seq<Seq<char>>,
    pub unlocked_targets: Seq<Seq<char>>,
    pub is_mantle_unlocked: bool,
    pub is_it_lives_unlocked: bool,
    pub is_polaroid_unlocked: bool,
    pub is_negative_unlocked: bool,
    pub is_mom_beaten: bool,
    pub boss_rush_chance: u32,
    pub hush_chance: u32,
    pub roll_boss_rush_on_alt: bool,
}

/// A document as a mathematical value.
pub struct SavefileView {
    pub general_config: GeneralView,
    pub marks: Seq<(Seq<char>, Seq<Seq<char>>)>,
}

/// A list of names as a mathematical value.
pub open spec fn names_view(names: Seq<String>) -> Seq<Seq<char>> {
    Seq::new(names.len(), |i: int| names[i]@)
}

impl View for Marks {
    type V = Seq<Seq<char>>;

    open spec fn view(&self) -> Seq<Seq<char>> {
        names_view(self.completed@)
    }
}

impl View for General {
    type V = GeneralView;

    open spec fn view(&self) -> GeneralView {
        GeneralView {
            unlocked_chars: names_view(self.unlocked_chars@),
            unlocked_targets: names_view(self.unlocked_targets@),
            is_mantle_unlocked: self.is_mantle_unlocked,
            is_it_lives_unlocked: self.is_it_lives_unlocked,
            is_polaroid_unlocked: self.is_polaroid_unlocked,
            is_negative_unlocked: self.is_negative_unlocked,
            is_mom_beaten: self.is_mom_beaten,
            boss_rush_chance: self.boss_rush_chance,
            hush_chance: self.hush_chance,
            roll_boss_rush_on_alt: self.roll_boss_rush_on_alt,
        }
    }
}

/// The entries of a document's marks as a mathematical value.
pub open spec fn entries_view(entries: Seq<(String, Marks)>) -> Seq<(Seq<char>, Seq<Seq<char>>)> {
    Seq::new(entries.len(), |i: int| (entries[i].0@, entries[i].1@))
}

impl View for Savefile {
    type V = SavefileView;

    open spec fn view(&self) -> SavefileView {
        SavefileView { general_config: self.general_config@, marks: entries_view(self.marks@) }
    }
}

impl Marks {
    pub fn new(completed: Vec<String>) -> (r: Self)
        ensures
            r.completed == completed,
    {
        Self { completed }
    }
}

impl General {
    pub fn new(
        unlocked_chars: Vec<String>,
        unlocked_targets: Vec<String>,
        is_mantle_unlocked: bool,
        is_it_lives_unlocked: bool,
        is_polaroid_unlocked: bool,
        is_negative_unlocked: bool,
        is_mom_beaten: bool,
        boss_rush_chance: u32,
        hush_chance: u32,
        roll_boss_rush_on_alt: bool,
    ) -> (r: Self)
        ensures
            r == (General {
                unlocked_chars,
                unlocked_targets,
                is_mantle_unlocked,
                is_it_lives_unlocked,
                is_polaroid_unlocked,
                is_negative_unlocked,
                is_mom_beaten,
                boss_rush_chance,
                hush_chance,
                roll_boss_rush_on_alt,
            }),
    {
        Self {
            unlocked_chars,
            unlocked_targets,
            is_mantle_unlocked,
            is_it_lives_unlocked,
            is_polaroid_unlocked,
            is_negative_unlocked,
            is_mom_beaten,
            boss_rush_chance,
            hush_chance,
            roll_boss_rush_on_alt,
        }
    }
}

impl Savefile {
    pub fn new(general_config: General, marks: Vec<(String, Marks)>) -> (r: Self)
        ensures
            r == (Savefile { general_config, marks }),
    {
        Self { general_config, marks }
    }
}

/// The character that a name is the name of, if it is one.
pub open spec fn character_named(name: Seq<char>) -> Option<Character> {
    if exists|c: Character| c.spec_name() == name {
        Some(choose|c: Character| c.spec_name() == name)
    } else {
        None
    }
}

/// The target that a name is the name of, if it is one.
pub open spec fn target_named(name: Seq<char>) -> Option<Target> {
    if exists|t: Target| t.spec_name() == name {
        Some(choose|t: Target| t.spec_name() == name)
    } else {
        None
    }
}

/// The characters that a list names, if each of its names is a character's.
pub open spec fn characters_named(names: Seq<Seq<char>>) -> Option<Set<Character>> {
    if forall|i: int| 0 <= i < names.len() ==> character_named(#[trigger] names[i]) is Some {
        Some(Set::new(|c: Character| names.contains(c.spec_name())))
    } else {
        None
    }
}

/// The targets that a list names, if each of its names is a target's.
pub open spec fn targets_named(names: Seq<Seq<char>>) -> Option<Set<Target>> {
    if forall|i: int| 0 <= i < names.len() ==> target_named(#[trigger] names[i]) is Some {
        Some(Set::new(|t: Target| names.contains(t.spec_name())))
    } else {
        None
    }
}

/// The names of the characters of a set, in the order of declaration.
pub open spec fn character_names(chars: Set<Character>) -> Seq<Seq<char>> {
    CharacterSet::members(chars).map_values(|c: Character| c.spec_name())
}

/// The names of the targets of a set, in the order of declaration.
pub open spec fn target_names(targets: Set<Target>) -> Seq<Seq<char>> {
    TargetSet::members(targets).map_values(|t: Target| t.spec_name())
}

/// The entries that marks are stored as: one for each character that has
/// any, in the order of declaration.
pub open spec fn marks_entries(marks: Map<Character, Set<Target>>) -> Seq<
    (Seq<char>, Seq<Seq<char>>),
> {
    CharacterSet::members(marks.dom()).map_values(
        |c: Character| (c.spec_name(), target_names(marks[c])),
    )
}

/// The state after the first `n` entries of marks are recorded in turn, if
/// each of their names is one.
pub open spec fn marks_applied(
    s: UnlocksView,
    entries: Seq<(Seq<char>, Seq<Seq<char>>)>,
    n: int,
) -> Option<UnlocksView>
    decreases n,
{
    if n <= 0 || n > entries.len() {
        Some(s)
    } else {
        match marks_applied(s, entries, n - 1) {
            Some(before) => match (
                character_named(entries[n - 1].0),
                targets_named(entries[n - 1].1),
            ) {
                (Some(c), Some(targets)) => Some(before.with_marks(c, targets)),
                _ => None,
            },
            None => None,
        }
    }
}

impl UnlocksView {
    /// The document that the state is stored as.
    pub open spec fn to_savefile(self) -> SavefileView {
        SavefileView {
            general_config: GeneralView {
                unlocked_chars: character_names(self.unlocked_chars),
                unlocked_targets: target_names(self.unlocked_targets),
                is_mantle_unlocked: self.is_mantle_unlocked,
                is_it_lives_unlocked: self.is_it_lives_unlocked,
                is_polaroid_unlocked: self.is_polaroid_unlocked,
                is_negative_unlocked: self.is_negative_unlocked,
                is_mom_beaten: self.unlocked_targets.contains(Target::Heart),
                boss_rush_chance: self.boss_rush_chance,
                hush_chance: self.hush_chance,
                roll_boss_rush_on_alt: self.roll_boss_rush_on_alt,
            },
            marks: marks_entries(self.marks),
        }
    }
}

impl SavefileView {
    /// The state that the document stores, if each of its names is one: the
    /// characters and targets that it lists as unlocked, then each entry of
    /// marks recorded in turn, with its flags, chances and policy.
    pub open spec fn to_unlocks(self) -> Option<UnlocksView> {
        match (
            characters_named(self.general_config.unlocked_chars),
            targets_named(self.general_config.unlocked_targets),
        ) {
            (Some(chars), Some(targets)) => {
                let listed = UnlocksView {
                    unlocked_chars: chars,
                    unlocked_targets: targets,
                    ..UnlocksView::fresh()
                };
                match marks_applied(listed, self.marks, self.marks.len() as int) {
                    Some(marked) => Some(
                        UnlocksView {
                            is_mantle_unlocked: self.general_config.is_mantle_unlocked,
                            is_it_lives_unlocked: self.general_config.is_it_lives_unlocked,
                            is_polaroid_unlocked: self.general_config.is_polaroid_unlocked,
                            is_negative_unlocked: self.general_config.is_negative_unlocked,
                            boss_rush_chance: self.general_config.boss_rush_chance,
                            hush_chance: self.general_config.hush_chance,
                            roll_boss_rush_on_alt: self.general_config.roll_boss_rush_on_alt,
                            ..marked
                        },
                    ),
                    None => None,
                }
            },
            _ => None,
        }
    }
}

/// The names of the characters of a set.
fn names_of_characters(chars: &CharacterSet) -> (names: Vec<String>)
    ensures
        names_view(names@) == character_names(chars@),
{
    let members = chars.to_vec();
    let mut names: Vec<String> = Vec::new();
    let mut i: usize = 0;
    while i < members.len()
        invariant
            i <= members.len(),
            names@.len() == i,
            forall|j: int| 0 <= j < i ==> (#[trigger] names@[j])@ == members@[j].spec_name(),
        decreases members.len() - i,
    {
        names.push(members[i].to_string());
        i += 1;
    }
    assert(names_view(names@) =~= members@.map_values(|c: Character| c.spec_name()));
    names
}

/// The names of the targets of a set.
fn names_of_targets(targets: &TargetSet) -> (names: Vec<String>)
    ensures
        names_view(names@) == target_names(targets@),
{
    let members = targets.to_vec();
    let mut names: Vec<String> = Vec::new();
    let mut i: usize = 0;
    while i < members.len()
        invariant
            i <= members.len(),
            names@.len() == i,
            forall|j: int| 0 <= j < i ==> (#[trigger] names@[j])@ == members@[j].spec_name(),
        decreases members.len() - i,
    {
        names.push(members[i].to_string());
        i += 1;
    }
    assert(names_view(names@) =~= members@.map_values(|t: Target| t.spec_name()));
    names
}

/// Reads a list of characters' names.
fn characters_of_names(names: &Vec<String>) -> (r: Result<CharacterSet, Error>)
    ensures
        match r {
            Ok(chars) => characters_named(names_view(names@)) == Some(chars@),
            Err(_) => characters_named(names_view(names@)) is None,
        },
{
    let ghost all = names_view(names@);
    let mut chars = CharacterSet::new();
    let mut i: usize = 0;
    while i < names.len()
        invariant
            i <= names.len(),
            all == names_view(names@),
            forall|j: int| 0 <= j < i ==> character_named(#[trigger] all[j]) is Some,
            forall|c: Character|
                #![trigger chars@.contains(c)]
                chars@.contains(c) <==> exists|j: int| 0 <= j < i && #[trigger] all[j] == c.spec_name(),
        decreases names.len() - i,
    {
        assert(all[i as int] == names@[i as int]@);
        match Character::from_str(names[i].as_str()) {
            Ok(ch) => {
                proof {
                    Character::lemma_names_distinct();
                }
                chars.insert(ch);
            },
            Err(_) => {
                assert(character_named(all[i as int]) is None);
                return Err(Error::ParseError);
            },
        }
        i += 1;
    }
    proof {
        assert(chars@ =~= Set::new(|c: Character| all.contains(c.spec_name())));
    }
    Ok(chars)
}

/// Reads a list of targets' names.
fn targets_of_names(names: &Vec<String>) -> (r: Result<TargetSet, Error>)
    ensures
        match r {
            Ok(targets) => targets_named(names_view(names@)) == Some(targets@),
            Err(_) => targets_named(names_view(names@)) is None,
        },
{
    let ghost all = names_view(names@);
    let mut targets = TargetSet::new();
    let mut i: usize = 0;
    while i < names.len()
        invariant
            i <= names.len(),
            all == names_view(names@),
            forall|j: int| 0 <= j < i ==> target_named(#[trigger] all[j]) is Some,
            forall|t: Target|
                #![trigger targets@.contains(t)]
                targets@.contains(t) <==> exists|j: int| 0 <= j < i && #[trigger] all[j] == t.spec_name(),
        decreases names.len() - i,
    {
        assert(all[i as int] == names@[i as int]@);
        match Target::from_str(names[i].as_str()) {
            Ok(targ) => {
                proof {
                    Target::lemma_names_distinct();
                }
                targets.insert(targ);
            },
            Err(_) => {
                assert(target_named(all[i as int]) is None);
                return Err(Error::ParseError);
            },
        }
        i += 1;
    }
    proof {
        assert(targets@ =~= Set::new(|t: Target| all.contains(t.spec_name())));
    }
    Ok(targets)
}

impl Savefile {
    /// The document that a state is stored as. Read back, it gives the
    /// state again.
    pub fn from_unlocks(unlocks: &Unlocks) -> (r: Savefile)
        ensures
            r@ == unlocks@.to_savefile(),
            r@.to_unlocks() == Some(unlocks@),
    {
        let keys = unlocks.marks().keys();
        proof {
            lemma_round_trip(unlocks@);
        }
        let mut marks: Vec<(String, Marks)> = Vec::new();
        let mut i: usize = 0;
        while i < keys.len()
            invariant
                i <= keys.len(),
                keys@ == CharacterSet::members(unlocks@.marks.dom()),
                marks@.len() == i,
                forall|j: int|
                    0 <= j < i ==> ((#[trigger] marks@[j]).0@, marks@[j].1@) == (
                        keys@[j].spec_name(),
                        target_names(unlocks@.marks[keys@[j]]),
                    ),
            decreases keys.len() - i,
        {
            let ch = keys[i];
            proof {
                CharacterSet::lemma_members(unlocks@.marks.dom());
                assert(keys@.contains(keys@[i as int]));
            }
            let completed = match unlocks.marks().get(&ch) {
                Some(targets) => names_of_targets(&targets),
                None => Vec::new(),
            };
            marks.push((ch.to_string(), Marks::new(completed)));
            i += 1;
        }
        let general_config = General::new(
            names_of_characters(unlocks.unlocked_chars()),
            names_of_targets(unlocks.unlocked_targets()),
            unlocks.is_mantle_unlocked(),
            unlocks.is_it_lives_unlocked(),
            unlocks.is_polaroid_unlocked(),
            unlocks.is_negative_unlocked(),
            unlocks.unlocked_targets().contains(&Target::Heart),
            unlocks.boss_rush_chance(),
            unlocks.hush_chance(),
            unlocks.roll_boss_rush_on_alt(),
        );
        assert(entries_view(marks@) =~= marks_entries(unlocks@.marks));
        Savefile::new(general_config, marks)
    }

    /// The state that the document stores. It is refused as a whole where
    /// any of its names is neither a character's nor a target's.
    pub fn to_unlocks(&self) -> (r: Result<Unlocks, Error>)
        ensures
            match r {
                Ok(unlocks) => self@.to_unlocks() == Some(unlocks@) && unlocks@.wf(),
                Err(e) => e == Error::ParseError && self@.to_unlocks() is None,
            },
    {
        let mut unl = Unlocks::default();
        let chars = match characters_of_names(&self.general_config.unlocked_chars) {
            Ok(chars) => chars,
            Err(e) => {
                return Err(e);
            },
        };
        unl.set_unlocked_chars(chars);
        let targs = match targets_of_names(&self.general_config.unlocked_targets) {
            Ok(targs) => targs,
            Err(e) => {
                return Err(e);
            },
        };
        unl.set_unlocked_targets(targs);
        let ghost listed = UnlocksView {
            unlocked_chars: chars@,
            unlocked_targets: targs@,
            ..UnlocksView::fresh()
        };
        let ghost entries = entries_view(self.marks@);
        proof {
            assert(unl@.marks =~= listed.marks);
            assert(unl@ == listed);
        }
        let mut i: usize = 0;
        while i < self.marks.len()
            invariant
                i <= self.marks.len(),
                entries == entries_view(self.marks@),
                characters_named(self@.general_config.unlocked_chars) == Some(
                    listed.unlocked_chars,
                ),
                targets_named(self@.general_config.unlocked_targets) == Some(
                    listed.unlocked_targets,
                ),
                listed == (UnlocksView {
                    unlocked_chars: listed.unlocked_chars,
                    unlocked_targets: listed.unlocked_targets,
                    ..UnlocksView::fresh()
                }),
                marks_applied(listed, entries, i as int) == Some(unl@),
                unl@.wf(),
            decreases self.marks.len() - i,
        {
            assert(entries[i as int] == (self.marks@[i as int].0@, self.marks@[i as int].1@));
            let ch = match Character::from_str(self.marks[i].0.as_str()) {
                Ok(ch) => ch,
                Err(_) => {
                    proof {
                        assert(character_named(entries[i as int].0) is None);
                        assert(marks_applied(listed, entries, i + 1) is None);
                        lemma_marks_applied_fails(listed, entries, i + 1, entries.len() as int);
                    }
                    return Err(Error::ParseError);
                },
            };
            let marks_set = match targets_of_names(&self.marks[i].1.completed) {
                Ok(marks_set) => marks_set,
                Err(e) => {
                    proof {
                        assert(targets_named(entries[i as int].1) is None);
                        assert(marks_applied(listed, entries, i + 1) is None);
                        lemma_marks_applied_fails(listed, entries, i + 1, entries.len() as int);
                    }
                    return Err(e);
                },
            };
            proof {
                Character::lemma_names_distinct();
            }
            unl.set_marks(ch, marks_set);
            i += 1;
        }
        unl.set_mantle_unlocked(self.general_config.is_mantle_unlocked);
        unl.set_it_lives_unlocked(self.general_config.is_it_lives_unlocked);
        unl.set_polaroid_unlocked(self.general_config.is_polaroid_unlocked);
        unl.set_negative_unlocked(self.general_config.is_negative_unlocked);
        unl.set_boss_rush_chance(self.general_config.boss_rush_chance);
        unl.set_hush_chance(self.general_config.hush_chance);
        unl.set_roll_boss_rush_on_alt(self.general_config.roll_boss_rush_on_alt);
        Ok(unl)
    }
}

/// Once an entry of marks cannot be read, no later one mends it.
proof fn lemma_marks_applied_fails(
    s: UnlocksView,
    entries: Seq<(Seq<char>, Seq<Seq<char>>)>,
    n: int,
    m: int,
)
    requires
        0 < n <= m <= entries.len(),
        marks_applied(s, entries, n) is None,
    ensures
        marks_applied(s, entries, m) is None,
    decreases m - n,
{
    if n < m {
        lemma_marks_applied_fails(s, entries, n, m - 1);
    }
}

/// A character's name is read back as the character.
pub proof fn lemma_character_named(c: Character)
    ensures
        character_named(c.spec_name()) == Some(c),
{
    Character::lemma_names_distinct();
}

/// A target's name is read back as the target.
pub proof fn lemma_target_named(t: Target)
    ensures
        target_named(t.spec_name()) == Some(t),
{
    Target::lemma_names_distinct();
}

/// The names of a set of characters are read back as the set.
pub proof fn lemma_character_names_read_back(chars: Set<Character>)
    ensures
        characters_named(character_names(chars)) == Some(chars),
{
    let members = CharacterSet::members(chars);
    let names = character_names(chars);
    CharacterSet::lemma_members(chars);
    Character::lemma_names_distinct();
    assert forall|i: int| 0 <= i < names.len() implies character_named(#[trigger] names[i])
        is Some by {
        lemma_character_named(members[i]);
    }
    let read = Set::new(|c: Character| names.contains(c.spec_name()));
    assert forall|c: Character| read.contains(c) <==> chars.contains(c) by {
        if read.contains(c) {
            let i = choose|i: int| 0 <= i < names.len() && names[i] == c.spec_name();
            assert(members[i].spec_name() == c.spec_name());
            assert(members.contains(members[i]));
        }
        if chars.contains(c) {
            assert(members.contains(c));
            let i = choose|i: int| 0 <= i < members.len() && members[i] == c;
            assert(names[i] == c.spec_name());
        }
    }
    assert(read =~= chars);
}

/// The names of a set of targets are read back as the set.
pub proof fn lemma_target_names_read_back(targets: Set<Target>)
    ensures
        targets_named(target_names(targets)) == Some(targets),
{
    let members = TargetSet::members(targets);
    let names = target_names(targets);
    TargetSet::lemma_members(targets);
    Target::lemma_names_distinct();
    assert forall|i: int| 0 <= i < names.len() implies target_named(#[trigger] names[i])
        is Some by {
        lemma_target_named(members[i]);
    }
    let read = Set::new(|t: Target| names.contains(t.spec_name()));
    assert forall|t: Target| read.contains(t) <==> targets.contains(t) by {
        if read.contains(t) {
            let i = choose|i: int| 0 <= i < names.len() && names[i] == t.spec_name();
            assert(members[i].spec_name() == t.spec_name());
            assert(members.contains(members[i]));
        }
        if targets.contains(t) {
            assert(members.contains(t));
            let i = choose|i: int| 0 <= i < members.len() && members[i] == t;
            assert(names[i] == t.spec_name());
        }
    }
    assert(read =~= targets);
}

/// Reading back the first `n` stored entries of a state's marks, on top of
/// what the state has unlocked, records the marks of the first `n`
/// characters that have any and unlocks nothing more.
proof fn lemma_marks_entries_read_back(s: UnlocksView, n: int)
    requires
        s.wf(),
        0 <= n <= CharacterSet::members(s.marks.dom()).len(),
    ensures
        marks_applied(
            UnlocksView {
                unlocked_chars: s.unlocked_chars,
                unlocked_targets: s.unlocked_targets,
                ..UnlocksView::fresh()
            },
            marks_entries(s.marks),
            n,
        ) == Some(
            UnlocksView {
                marks: Map::new(
                    |c: Character|
                        CharacterSet::members(s.marks.dom()).take(n).contains(c),
                    |c: Character| s.marks[c],
                ),
                unlocked_chars: s.unlocked_chars,
                unlocked_targets: s.unlocked_targets,
                ..UnlocksView::fresh()
            },
        ),
    decreases n,
{
    let keys = CharacterSet::members(s.marks.dom());
    let entries = marks_entries(s.marks);
    let listed = UnlocksView {
        unlocked_chars: s.unlocked_chars,
        unlocked_targets: s.unlocked_targets,
        ..UnlocksView::fresh()
    };
    let goal = UnlocksView {
        marks: Map::new(|c: Character| keys.take(n).contains(c), |c: Character| s.marks[c]),
        ..listed
    };
    CharacterSet::lemma_members(s.marks.dom());
    if n == 0 {
        assert(goal.marks =~= listed.marks);
    } else {
        lemma_marks_entries_read_back(s, n - 1);
        let before = UnlocksView {
            marks: Map::new(
                |c: Character| keys.take(n - 1).contains(c),
                |c: Character| s.marks[c],
            ),
            ..listed
        };
        let c = keys[n - 1];
        assert(keys.contains(c));
        assert(s.marks.contains_key(c));
        assert(entries[n - 1] == (c.spec_name(), target_names(s.marks[c])));
        lemma_character_named(c);
        lemma_target_names_read_back(s.marks[c]);
        let after = before.with_marks(c, s.marks[c]);
        assert(marks_applied(listed, entries, n) == Some(after));
        let prev = keys.take(n - 1);
        let cur = keys.take(n);
        assert(cur == prev.push(c));
        assert forall|x: Character| after.marks.contains_key(x) <==> cur.contains(x) by {
            if prev.contains(x) {
                let i = choose|i: int| 0 <= i < prev.len() && prev[i] == x;
                assert(cur[i] == x);
            }
            if x == c {
                assert(cur[n - 1] == x);
            }
            if cur.contains(x) {
                let i = choose|i: int| 0 <= i < cur.len() && cur[i] == x;
                if i < n - 1 {
                    assert(prev[i] == x);
                }
            }
        }
        assert(after.marks =~= goal.marks);
        assert(after.unlocked_chars =~= goal.unlocked_chars);
        assert(after.unlocked_targets =~= goal.unlocked_targets);
    }
}

/// Storing a state and reading the document back gives the state again:
/// the same characters and targets unlocked, the same marks, flags, chances
/// and policy.
pub proof fn lemma_round_trip(s: UnlocksView)
    requires
        s.wf(),
    ensures
        s.to_savefile().to_unlocks() == Some(s),
{
    let keys = CharacterSet::members(s.marks.dom());
    lemma_character_names_read_back(s.unlocked_chars);
    lemma_target_names_read_back(s.unlocked_targets);
    lemma_marks_entries_read_back(s, keys.len() as int);
    CharacterSet::lemma_members(s.marks.dom());
    assert(keys.take(keys.len() as int) == keys);
    let read = Map::new(|c: Character| keys.contains(c), |c: Character| s.marks[c]);
    assert(read =~= s.marks);
    assert(marks_entries(s.marks).len() == keys.len());
}

/// Recording entries of marks keeps the invariant of the state.
proof fn lemma_marks_applied_keeps_invariant(
    s: UnlocksView,
    entries: Seq<(Seq<char>, Seq<Seq<char>>)>,
    n: int,
)
    requires
        s.wf(),
    ensures
        marks_applied(s, entries, n) matches Some(after) ==> after.wf(),
    decreases n,
{
    if 0 < n <= entries.len() {
        lemma_marks_applied_keeps_invariant(s, entries, n - 1);
    }
}

/// Whatever state a document is read as has the invariant of the state:
/// its marks are held only by unlocked characters, and only for unlocked
/// targets.
pub proof fn lemma_read_state_is_well_formed(f: SavefileView)
    ensures
        f.to_unlocks() matches Some(s) ==> s.wf(),
{
    match (
        characters_named(f.general_config.unlocked_chars),
        targets_named(f.general_config.unlocked_targets),
    ) {
        (Some(chars), Some(targets)) => {
            let listed = UnlocksView {
                unlocked_chars: chars,
                unlocked_targets: targets,
                ..UnlocksView::fresh()
            };
            lemma_marks_applied_keeps_invariant(listed, f.marks, f.marks.len() as int);
        },
        _ => {},
    }
}

} // verus!
