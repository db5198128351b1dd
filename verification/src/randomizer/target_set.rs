//! Sets of targets.

use crate::randomizer::targets::{Target, TARGET_COUNT};
use vstd::prelude::*;

verus! {

/// A set of targets, held as one flag per target.
#[derive(Clone, Copy, Debug, PartialEq, Eq)]
pub struct TargetSet {
    present: [bool; TARGET_COUNT],
}

impl View for TargetSet {
    type V = Set<Target>;

    closed spec fn view(&self) -> Set<Target> {
        Set::new(|t: Target| self.present@[t.spec_index()])
    }
}

impl TargetSet {
    /// The members of `s` whose position is below `n`, in the order of
    /// declaration.
    pub open spec fn members_below(s: Set<Target>, n: int) -> Seq<Target>
        decreases n,
    {
        if n <= 0 {
            Seq::empty()
        } else {
            let rest = Self::members_below(s, n - 1);
            let t = Target::spec_at(n - 1);
            if s.contains(t) {
                rest.push(t)
            } else {
                rest
            }
        }
    }

    /// The members of `s` in the order of declaration.
    pub open spec fn members(s: Set<Target>) -> Seq<Target> {
        Self::members_below(s, TARGET_COUNT as int)
    }

    /// `members_below` lists exactly the members below `n`, each once, by
    /// rising position.
    pub proof fn lemma_members_below(s: Set<Target>, n: int)
        requires
            0 <= n <= TARGET_COUNT,
        ensures
            Self::members_below(s, n).len() <= n,
            forall|t: Target|
                #![trigger Self::members_below(s, n).contains(t)]
                #![trigger s.contains(t)]
                Self::members_below(s, n).contains(t) <==> (s.contains(t) && t.spec_index() < n),
            forall|i: int, j: int|
                0 <= i < j < Self::members_below(s, n).len() ==> (#[trigger] Self::members_below(
                    s,
                    n,
                )[i]).spec_index() < (#[trigger] Self::members_below(s, n)[j]).spec_index(),
        decreases n,
    {
        Target::lemma_index_bijection();
        if n > 0 {
            Self::lemma_members_below(s, n - 1);
            let rest = Self::members_below(s, n - 1);
            let t = Target::spec_at(n - 1);
            let all = Self::members_below(s, n);
            assert forall|u: Target| all.contains(u) <==> (s.contains(u) && u.spec_index()
                < n) by {
                if s.contains(t) {
                    assert(all == rest.push(t));
                    if all.contains(u) {
                        let k = choose|k: int| 0 <= k < all.len() && all[k] == u;
                        if k < rest.len() {
                            assert(rest[k] == u);
                            assert(rest.contains(u));
                        }
                    }
                    if s.contains(u) && u.spec_index() < n {
                        if u.spec_index() < n - 1 {
                            assert(rest.contains(u));
                            let k = choose|k: int| 0 <= k < rest.len() && rest[k] == u;
                            assert(all[k] == u);
                        } else {
                            assert(u == t);
                            assert(all[rest.len() as int] == u);
                        }
                    }
                } else {
                    assert(all == rest);
                    if s.contains(u) && u.spec_index() < n {
                        assert(u != t);
                    }
                }
            }
            assert forall|i: int, j: int| 0 <= i < j < all.len() implies (#[trigger] all[i]).spec_index()
                < (#[trigger] all[j]).spec_index() by {
                if s.contains(t) && j == rest.len() {
                    assert(rest.contains(rest[i]));
                }
            }
        }
    }

    /// `members` lists exactly the members of the set, each once.
    pub proof fn lemma_members(s: Set<Target>)
        ensures
            Self::members(s).len() <= TARGET_COUNT,
            Self::members(s).no_duplicates(),
            forall|t: Target|
                #![trigger Self::members(s).contains(t)]
                #![trigger s.contains(t)]
                Self::members(s).contains(t) <==> s.contains(t),
            Self::members(s).len() == 0 <==> s == Set::<Target>::empty(),
            Self::members(s).to_set() == s,
            s.finite(),
            s.len() == Self::members(s).len(),
    {
        Target::lemma_index_bijection();
        Self::lemma_members_below(s, TARGET_COUNT as int);
        let all = Self::members(s);
        assert(all.to_set() =~= s);
        vstd::seq_lib::seq_to_set_is_finite(all);
        all.unique_seq_to_set();
        if all.len() == 0 {
            assert forall|t: Target| !s.contains(t) by {
                if s.contains(t) {
                    assert(all.contains(t));
                }
            }
            assert(s =~= Set::<Target>::empty());
        } else {
            assert(all.contains(all[0]));
        }
    }

    /// The empty set.
    pub fn new() -> (r: Self)
        ensures
            r@ == Set::<Target>::empty(),
    {
        let r = TargetSet { present: [false; TARGET_COUNT] };
        proof {
            Target::lemma_index_bijection();
            let filled = vstd::array::spec_array_fill_for_copy_type::<bool, TARGET_COUNT>(false);
            assert(r.present == filled);
            assert(forall|i: int| 0 <= i < TARGET_COUNT ==> !filled@[i]);
            assert(r@ =~= Set::<Target>::empty());
        }
        r
    }

    /// The set of all targets.
    pub fn full() -> (r: Self)
        ensures
            r@ == Set::<Target>::full(),
    {
        let r = TargetSet { present: [true; TARGET_COUNT] };
        proof {
            Target::lemma_index_bijection();
            let filled = vstd::array::spec_array_fill_for_copy_type::<bool, TARGET_COUNT>(true);
            assert(r.present == filled);
            assert(forall|i: int| 0 <= i < TARGET_COUNT ==> filled@[i]);
            assert(r@ =~= Set::<Target>::full());
        }
        r
    }

    pub fn contains(&self, t: &Target) -> (r: bool)
        ensures
            r == self@.contains(*t),
    {
        self.present[t.index()]
    }

    /// Adds a target, and says whether it was new to the set.
    pub fn insert(&mut self, t: Target) -> (r: bool)
        ensures
            final(self)@ == old(self)@.insert(t),
            r == !old(self)@.contains(t),
    {
        let i = t.index();
        let was = self.present[i];
        self.present[i] = true;
        assert(self@ =~= old(self)@.insert(t));
        !was
    }

    /// Takes a target out, and says whether it was in the set.
    pub fn remove(&mut self, t: &Target) -> (r: bool)
        ensures
            final(self)@ == old(self)@.remove(*t),
            r == old(self)@.contains(*t),
    {
        let i = t.index();
        let was = self.present[i];
        self.present[i] = false;
        assert(self@ =~= old(self)@.remove(*t));
        was
    }

    pub fn is_empty(&self) -> (r: bool)
        ensures
            r == (self@ == Set::<Target>::empty()),
    {
        let mut i: usize = 0;
        while i < TARGET_COUNT
            invariant
                i <= TARGET_COUNT,
                forall|j: int| 0 <= j < i ==> !self.present@[j],
            decreases TARGET_COUNT - i,
        {
            if self.present[i] {
                proof {
                    Target::lemma_index_bijection();
                    assert(self@.contains(Target::spec_at(i as int)));
                }
                return false;
            }
            i += 1;
        }
        proof {
            Target::lemma_index_bijection();
            assert(self@ =~= Set::<Target>::empty());
        }
        true
    }

    /// The number of targets in the set.
    pub fn len(&self) -> (n: usize)
        ensures
            self@.finite(),
            n == self@.len(),
            n <= TARGET_COUNT,
    {
        proof {
            Self::lemma_members(self@);
        }
        let mut n: usize = 0;
        let mut i: usize = 0;
        while i < TARGET_COUNT
            invariant
                i <= TARGET_COUNT,
                n <= i,
                n == Self::members_below(self@, i as int).len(),
            decreases TARGET_COUNT - i,
        {
            proof {
                Target::lemma_index_bijection();
            }
            if self.present[i] {
                n += 1;
            }
            i += 1;
        }
        n
    }

    /// The targets of the set in the order of declaration.
    pub fn to_vec(&self) -> (v: Vec<Target>)
        ensures
            v@ == Self::members(self@),
    {
        let mut v: Vec<Target> = Vec::new();
        let mut i: usize = 0;
        while i < TARGET_COUNT
            invariant
                i <= TARGET_COUNT,
                v@ == Self::members_below(self@, i as int),
            decreases TARGET_COUNT - i,
        {
            proof {
                Target::lemma_index_bijection();
            }
            if self.present[i] {
                v.push(Target::at(i));
            }
            i += 1;
        }
        v
    }

    /// The set of the targets that a list holds.
    pub fn from_vec(items: &Vec<Target>) -> (r: Self)
        ensures
            r@ == items@.to_set(),
    {
        let mut r = TargetSet::new();
        let mut i: usize = 0;
        while i < items.len()
            invariant
                i <= items.len(),
                r@ == items@.take(i as int).to_set(),
            decreases items.len() - i,
        {
            let ghost before = r@;
            r.insert(items[i]);
            proof {
                let a = items@.take(i as int);
                let b = items@.take(i + 1);
                assert(b == a.push(items@[i as int]));
                assert forall|t: Target| before.insert(items@[i as int]).contains(t)
                    <==> b.to_set().contains(t) by {
                    if a.contains(t) {
                        let k = choose|k: int| 0 <= k < a.len() && a[k] == t;
                        assert(b[k] == t);
                    }
                    if t == items@[i as int] {
                        assert(b[i as int] == t);
                    }
                    if b.contains(t) {
                        let k = choose|k: int| 0 <= k < b.len() && b[k] == t;
                        if k < i {
                            assert(a[k] == t);
                        }
                    }
                }
                assert(r@ =~= b.to_set());
            }
            i += 1;
        }
        assert(items@.take(items.len() as int) == items@);
        r
    }

    /// The targets that either set holds.
    pub fn union(&self, other: &TargetSet) -> (r: Self)
        ensures
            r@ == self@.union(other@),
    {
        let mut r = *self;
        let mut i: usize = 0;
        while i < TARGET_COUNT
            invariant
                i <= TARGET_COUNT,
                forall|j: int|
                    0 <= j < i ==> r.present@[j] == (self.present@[j] || other.present@[j]),
                forall|j: int| i <= j < TARGET_COUNT ==> r.present@[j] == self.present@[j],
            decreases TARGET_COUNT - i,
        {
            if other.present[i] {
                r.present[i] = true;
            }
            i += 1;
        }
        proof {
            Target::lemma_index_bijection();
            assert(r@ =~= self@.union(other@));
        }
        r
    }

    /// Adds every target of another set.
    pub fn extend(&mut self, other: &TargetSet)
        ensures
            final(self)@ == old(self)@.union(other@),
    {
        let merged = self.union(other);
        *self = merged;
    }

    /// The targets of this set that another does not hold.
    pub fn difference(&self, other: &TargetSet) -> (r: Self)
        ensures
            r@ == self@.difference(other@),
    {
        let mut r = *self;
        let mut i: usize = 0;
        while i < TARGET_COUNT
            invariant
                i <= TARGET_COUNT,
                forall|j: int|
                    0 <= j < i ==> r.present@[j] == (self.present@[j] && !other.present@[j]),
                forall|j: int| i <= j < TARGET_COUNT ==> r.present@[j] == self.present@[j],
            decreases TARGET_COUNT - i,
        {
            if other.present[i] {
                r.present[i] = false;
            }
            i += 1;
        }
        proof {
            Target::lemma_index_bijection();
            assert(r@ =~= self@.difference(other@));
        }
        r
    }

    /// The targets that both sets hold.
    pub fn intersection(&self, other: &TargetSet) -> (r: Self)
        ensures
            r@ == self@.intersect(other@),
    {
        let mut r = *self;
        let mut i: usize = 0;
        while i < TARGET_COUNT
            invariant
                i <= TARGET_COUNT,
                forall|j: int|
                    0 <= j < i ==> r.present@[j] == (self.present@[j] && other.present@[j]),
                forall|j: int| i <= j < TARGET_COUNT ==> r.present@[j] == self.present@[j],
            decreases TARGET_COUNT - i,
        {
            if !other.present[i] {
                r.present[i] = false;
            }
            i += 1;
        }
        proof {
            Target::lemma_index_bijection();
            assert(r@ =~= self@.intersect(other@));
        }
        r
    }

    /// Whether every target of this set is in the other.
    pub fn is_subset(&self, other: &TargetSet) -> (r: bool)
        ensures
            r == self@.subset_of(other@),
    {
        let mut i: usize = 0;
        while i < TARGET_COUNT
            invariant
                i <= TARGET_COUNT,
                forall|j: int| 0 <= j < i ==> (self.present@[j] ==> other.present@[j]),
            decreases TARGET_COUNT - i,
        {
            if self.present[i] && !other.present[i] {
                proof {
                    Target::lemma_index_bijection();
                    let t = Target::spec_at(i as int);
                    assert(self@.contains(t) && !other@.contains(t));
                }
                return false;
            }
            i += 1;
        }
        proof {
            Target::lemma_index_bijection();
        }
        true
    }

    /// Whether two sets hold the same targets.
    pub fn equals(&self, other: &TargetSet) -> (r: bool)
        ensures
            r == (self@ == other@),
    {
        let r = self.is_subset(other) && other.is_subset(self);
        proof {
            if r {
                assert(self@ =~= other@);
            }
        }
        r
    }

    /// The sum, over the members of `s` whose position is below `n`, of two
    /// to the power of the position.
    pub open spec fn mask_below(s: Set<Target>, n: int) -> int
        decreases n,
    {
        if n <= 0 {
            0
        } else if s.contains(Target::spec_at(n - 1)) {
            Self::mask_below(s, n - 1) + vstd::arithmetic::power2::pow2((n - 1) as nat)
        } else {
            Self::mask_below(s, n - 1)
        }
    }

    /// The set as a mask of bits: the bit at each member's position is set,
    /// and no other.
    pub fn bits(&self) -> (mask: u32)
        ensures
            mask == Self::mask_below(self@, TARGET_COUNT as int),
    {
        let mut mask: u32 = 0;
        let mut bit: u32 = 1;
        let mut i: usize = 0;
        proof {
            vstd::arithmetic::power2::lemma2_to64();
        }
        while i < TARGET_COUNT
            invariant
                i <= TARGET_COUNT,
                bit == vstd::arithmetic::power2::pow2(i as nat),
                bit <= 0x2000,
                mask < bit,
                mask == Self::mask_below(self@, i as int),
            decreases TARGET_COUNT - i,
        {
            proof {
                Target::lemma_index_bijection();
                vstd::arithmetic::power2::lemma2_to64();
                vstd::arithmetic::power2::lemma_pow2_unfold((i + 1) as nat);
            }
            if self.present[i] {
                mask += bit;
            }
            bit *= 2;
            i += 1;
        }
        mask
    }

    /// Whether one target is shown before another: the one of higher
    /// precedence first, and of two with the same precedence the one
    /// declared first.
    pub open spec fn shown_before(a: Target, b: Target) -> bool {
        a.spec_precedence() > b.spec_precedence() || (a.spec_precedence() == b.spec_precedence()
            && a.spec_index() < b.spec_index())
    }

    /// The targets of the set in the order in which they are shown: by
    /// falling precedence.
    pub fn by_precedence(&self) -> (v: Vec<Target>)
        ensures
            forall|t: Target| #[trigger] v@.contains(t) <==> self@.contains(t),
            forall|i: int, j: int|
                0 <= i < j < v@.len() ==> Self::shown_before(#[trigger] v@[i], #[trigger] v@[j]),
    {
        let mut v: Vec<Target> = Vec::new();
        let mut left: u8 = 8;
        while left > 0
            invariant
                left <= 8,
                forall|t: Target|
                    #[trigger] v@.contains(t) <==> (self@.contains(t) && t.spec_precedence()
                        >= left),
                forall|i: int, j: int|
                    0 <= i < j < v@.len() ==> Self::shown_before(
                        #[trigger] v@[i],
                        #[trigger] v@[j],
                    ),
            decreases left,
        {
            left -= 1;
            let mut i: usize = 0;
            while i < TARGET_COUNT
                invariant
                    i <= TARGET_COUNT,
                    left < 8,
                    forall|t: Target|
                        #[trigger] v@.contains(t) <==> (self@.contains(t) && (t.spec_precedence()
                            > left || (t.spec_precedence() == left && t.spec_index() < i))),
                    forall|a: int, b: int|
                        0 <= a < b < v@.len() ==> Self::shown_before(
                            #[trigger] v@[a],
                            #[trigger] v@[b],
                        ),
                decreases TARGET_COUNT - i,
            {
                proof {
                    Target::lemma_index_bijection();
                }
                let t = Target::at(i);
                if self.present[i] && t.precedence() == left {
                    let ghost before = v@;
                    v.push(t);
                    proof {
                        assert forall|x: Target| #[trigger]
                            v@.contains(x) <==> (before.contains(x) || x == t) by {
                            vstd::seq_lib::lemma_seq_contains_after_push(before, t, x);
                        }
                        assert forall|a: int, b: int| 0 <= a < b < v@.len() implies Self::shown_before(
                            #[trigger] v@[a],
                            #[trigger] v@[b],
                        ) by {
                            if b == before.len() {
                                assert(before.contains(before[a]));
                            }
                        }
                    }
                }
                i += 1;
            }
        }
        v
    }
}

} // verus!
