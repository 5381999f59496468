//! Random bit-flag generator.
//!
//! A flag set is modelled as a `u64` mask together with the list of the
//! named single-flag values of the composite type.  Generation runs one
//! pass: each listed flag is drawn independently, the registered
//! implication constraints are applied once in registration order, the
//! exclusion mask is cleared, and the inclusion mask is set last, so
//! inclusion overrides exclusion for any bit present in both.
use vstd::prelude::*;

use crate::Generator;
use crate::random::PROB_ONE;
use crate::random::clamp_prob;
use crate::random::coin;
use crate::random::new_rng;
use crate::random::to_prob;

verus! {

/// Holds when every bit of `f` is set in `v`.
pub open spec fn has_flags(v: u64, f: u64) -> bool {
    v | f == v
}

/// The mask drawn by the free stage: the union of the listed flags whose
/// draw succeeded.
pub open spec fn free_mask(flags: Seq<u64>, picks: Seq<bool>) -> u64
    decreases flags.len(),
{
    if flags.len() == 0 {
        0u64
    } else {
        let rest = free_mask(flags.drop_last(), picks.drop_last());
        if picks.last() {
            rest | flags.last()
        } else {
            rest
        }
    }
}

/// The working mask after the ordered implication constraints have been
/// applied once, in registration order: a constraint whose premise is
/// contained in the working mask at its turn adds its conclusion, and a
/// later constraint sees the additions of earlier ones.
pub open spec fn apply_constraints(v: u64, cs: Seq<(u64, u64)>) -> u64
    decreases cs.len(),
{
    if cs.len() == 0 {
        v
    } else {
        let w = apply_constraints(v, cs.drop_last());
        if has_flags(w, cs.last().0) {
            w | cs.last().1
        } else {
            w
        }
    }
}

/// The value generated from one vector of free-stage draws: the free mask,
/// then the constraints, then the exclusion mask cleared, then the
/// inclusion mask set.
pub open spec fn flags_value(
    flags: Seq<u64>,
    picks: Seq<bool>,
    cs: Seq<(u64, u64)>,
    excl: u64,
    incl: u64,
) -> u64 {
    (apply_constraints(free_mask(flags, picks), cs) & !excl) | incl
}

/// What the free-stage draws can be for a given probability: with
/// probability one every draw succeeds, with probability zero none does.
pub open spec fn picks_match(prob: u32, len: nat, picks: Seq<bool>) -> bool {
    &&& picks.len() == len
    &&& (prob == 0 ==> forall|k: int| 0 <= k < picks.len() ==> !picks[k])
    &&& (prob >= PROB_ONE ==> forall|k: int| 0 <= k < picks.len() ==> picks[k])
}

/// A generator that randomly generates a flag-set value.
///
/// Each generation independently draws every flag of the listed flag set
/// with probability `prob / PROB_ONE`, then applies the registered
/// implication constraints in order, clears the exclusion mask and sets
/// the inclusion mask.  Generation never fails: any mask, including zero,
/// is a valid value.
pub struct RandomFlags {
    /// Handle to this generator's own random source.
    pub rng: rand::rngs::ThreadRng,
    /// Probability of drawing each flag, in millionths.
    pub prob: u32,
    /// The named single-flag values of the composite type, drawn
    /// independently by the free stage.
    pub flags: Vec<u64>,
    /// Flags always set in generated values, applied last.
    pub inclusion: u64,
    /// Flags cleared from generated values before inclusion applies.
    pub exclusion: u64,
    /// The ordered implication constraints `(premise, conclusion)`.
    pub constraints: Vec<(u64, u64)>,
}

impl RandomFlags {
    /// Create a new `RandomFlags` over the given flag set; the probability
    /// is given in millionths and clamped into `[0, PROB_ONE]`.
    pub fn new(flags: Vec<u64>, prob: i64) -> (g: Self)
        ensures
            g.flags@ == flags@,
            g.prob == clamp_prob(prob as int),
            g.inclusion == 0,
            g.exclusion == 0,
            g.constraints@ == Seq::<(u64, u64)>::empty(),
    {
        RandomFlags {
            rng: new_rng(),
            prob: to_prob(prob),
            flags,
            inclusion: 0,
            exclusion: 0,
            constraints: Vec::new(),
        }
    }

    /// Set the probability of drawing each flag, in millionths; values
    /// outside `[0, PROB_ONE]` are clamped, never rejected.
    pub fn set_prob(&mut self, prob: i64)
        ensures
            final(self).prob == clamp_prob(prob as int),
            final(self).flags@ == old(self).flags@,
            final(self).inclusion == old(self).inclusion,
            final(self).exclusion == old(self).exclusion,
            final(self).constraints@ == old(self).constraints@,
    {
        self.prob = to_prob(prob);
    }

    /// Include some flags: generated values will always hold them.  The
    /// flags accumulate into the inclusion mask.
    pub fn include_flags(&mut self, flags: u64)
        ensures
            final(self).inclusion == old(self).inclusion | flags,
            final(self).prob == old(self).prob,
            final(self).flags@ == old(self).flags@,
            final(self).exclusion == old(self).exclusion,
            final(self).constraints@ == old(self).constraints@,
    {
        self.inclusion = self.inclusion | flags;
    }

    /// Exclude some flags: generated values will never hold them, unless
    /// the inclusion mask sets them again.  The flags accumulate into the
    /// exclusion mask.
    pub fn exclude(&mut self, flags: u64)
        ensures
            final(self).exclusion == old(self).exclusion | flags,
            final(self).prob == old(self).prob,
            final(self).flags@ == old(self).flags@,
            final(self).inclusion == old(self).inclusion,
            final(self).constraints@ == old(self).constraints@,
    {
        self.exclusion = self.exclusion | flags;
    }

    /// Add a constraint: whenever `flag1` is present at the constraint's
    /// turn, `flag2` is also set.  Constraints accumulate in registration
    /// order and are never removed.
    pub fn constraint(&mut self, flag1: u64, flag2: u64)
        ensures
            final(self).constraints@ == old(self).constraints@.push((flag1, flag2)),
            final(self).prob == old(self).prob,
            final(self).flags@ == old(self).flags@,
            final(self).inclusion == old(self).inclusion,
            final(self).exclusion == old(self).exclusion,
    {
        self.constraints.push((flag1, flag2));
    }
}

impl Generator<u64> for RandomFlags {
    open spec fn ready(&self) -> bool {
        true
    }

    open spec fn gen_rel(pre: Self, post: Self, r: Option<u64>) -> bool {
        &&& post.prob == pre.prob
        &&& post.flags@ == pre.flags@
        &&& post.inclusion == pre.inclusion
        &&& post.exclusion == pre.exclusion
        &&& post.constraints@ == pre.constraints@
        &&& exists|picks: Seq<bool>|
            {
                &&& picks_match(pre.prob, pre.flags@.len(), picks)
                &&& r == Some(
                    #[trigger] flags_value(
                        pre.flags@,
                        picks,
                        pre.constraints@,
                        pre.exclusion,
                        pre.inclusion,
                    ),
                )
            }
    }

    fn try_generate(&mut self) -> (r: Option<u64>) {
        let p = if self.prob > PROB_ONE {
            PROB_ONE
        } else {
            self.prob
        };
        let ghost mut picks: Seq<bool> = Seq::empty();
        let mut value: u64 = 0;
        let n = self.flags.len();
        let mut i: usize = 0;
        while i < n
            invariant
                i <= n,
                n == self.flags.len(),
                self.prob == old(self).prob,
                self.flags@ == old(self).flags@,
                self.inclusion == old(self).inclusion,
                self.exclusion == old(self).exclusion,
                self.constraints@ == old(self).constraints@,
                p == (if old(self).prob > PROB_ONE {
                    PROB_ONE
                } else {
                    old(self).prob
                }),
                picks.len() == i,
                value == free_mask(self.flags@.take(i as int), picks),
                old(self).prob == 0 ==> forall|k: int| 0 <= k < picks.len() ==> !picks[k],
                old(self).prob >= PROB_ONE ==> forall|k: int| 0 <= k < picks.len() ==> picks[k],
            decreases n - i,
        {
            let b = coin(&mut self.rng, p, PROB_ONE);
            let f = self.flags[i];
            proof {
                assert(self.flags@.take(i as int + 1).drop_last() =~= self.flags@.take(i as int));
                assert(picks.push(b).drop_last() =~= picks);
            }
            if b {
                value = value | f;
            }
            proof {
                picks = picks.push(b);
            }
            i += 1;
        }
        proof {
            assert(self.flags@.take(n as int) =~= self.flags@);
        }
        let ghost v1: u64 = value;
        let m = self.constraints.len();
        let mut j: usize = 0;
        while j < m
            invariant
                j <= m,
                m == self.constraints.len(),
                self.prob == old(self).prob,
                self.flags@ == old(self).flags@,
                self.inclusion == old(self).inclusion,
                self.exclusion == old(self).exclusion,
                self.constraints@ == old(self).constraints@,
                value == apply_constraints(v1, self.constraints@.take(j as int)),
            decreases m - j,
        {
            let c = self.constraints[j];
            proof {
                assert(self.constraints@.take(j as int + 1).drop_last() =~= self.constraints@.take(
                    j as int,
                ));
            }
            if value | c.0 == value {
                value = value | c.1;
            }
            j += 1;
        }
        proof {
            assert(self.constraints@.take(m as int) =~= self.constraints@);
        }
        value = value & !self.exclusion;
        value = value | self.inclusion;
        proof {
            assert(picks_match(old(self).prob, old(self).flags@.len(), picks));
            assert(value == flags_value(
                old(self).flags@,
                picks,
                old(self).constraints@,
                old(self).exclusion,
                old(self).inclusion,
            ));
        }
        Some(value)
    }
}

proof fn lemma_or_keeps_flags(v: u64, y: u64, x: u64)
    requires
        has_flags(v, x),
    ensures
        has_flags(v | y, x),
{
    assert((v | y) | x == v | y) by (bit_vector)
        requires
            v | x == v,
    ;
}

proof fn lemma_ac_monotone(v: u64, cs: Seq<(u64, u64)>, x: u64)
    requires
        has_flags(v, x),
    ensures
        has_flags(apply_constraints(v, cs), x),
    decreases cs.len(),
{
    if cs.len() > 0 {
        lemma_ac_monotone(v, cs.drop_last(), x);
        let w = apply_constraints(v, cs.drop_last());
        if has_flags(w, cs.last().0) {
            lemma_or_keeps_flags(w, cs.last().1, x);
        }
    }
}

proof fn lemma_ac_split(v: u64, s1: Seq<(u64, u64)>, s2: Seq<(u64, u64)>)
    ensures
        apply_constraints(v, s1 + s2) == apply_constraints(apply_constraints(v, s1), s2),
    decreases s2.len(),
{
    if s2.len() == 0 {
        assert(s1 + s2 =~= s1);
    } else {
        lemma_ac_split(v, s1, s2.drop_last());
        assert((s1 + s2).drop_last() =~= s1 + s2.drop_last());
        assert((s1 + s2).last() == s2.last());
    }
}

proof fn lemma_ac_stable(v: u64, cs: Seq<(u64, u64)>, a: u64)
    requires
        has_flags(apply_constraints(v, cs), a),
        forall|k: int| 0 <= k < cs.len() ==> (#[trigger] cs[k]).1 & a == 0,
    ensures
        has_flags(v, a),
    decreases cs.len(),
{
    if cs.len() > 0 {
        let w = apply_constraints(v, cs.drop_last());
        let f2 = cs.last().1;
        assert(cs[cs.len() - 1].1 & a == 0);
        if has_flags(w, cs.last().0) {
            assert(w | a == w) by (bit_vector)
                requires
                    (w | f2) | a == w | f2,
                    f2 & a == 0,
            ;
        }
        lemma_ac_stable(v, cs.drop_last(), a);
    }
}

proof fn lemma_free_mask_all(flags: Seq<u64>, picks: Seq<bool>)
    requires
        picks.len() == flags.len(),
        forall|k: int| 0 <= k < picks.len() ==> picks[k],
    ensures
        forall|k: int|
            0 <= k < flags.len() ==> has_flags(free_mask(flags, picks), #[trigger] flags[k]),
    decreases flags.len(),
{
    if flags.len() > 0 {
        lemma_free_mask_all(flags.drop_last(), picks.drop_last());
        let rest = free_mask(flags.drop_last(), picks.drop_last());
        let fm = free_mask(flags, picks);
        assert(picks.last());
        assert forall|k: int| 0 <= k < flags.len() implies has_flags(fm, #[trigger] flags[k]) by {
            if k < flags.len() - 1 {
                assert(flags.drop_last()[k] == flags[k]);
                lemma_or_keeps_flags(rest, flags.last(), flags[k]);
            } else {
                let f = flags.last();
                assert((rest | f) | f == rest | f) by (bit_vector);
            }
        }
    }
}

proof fn lemma_free_mask_none(flags: Seq<u64>, picks: Seq<bool>)
    requires
        picks.len() == flags.len(),
        forall|k: int| 0 <= k < picks.len() ==> !picks[k],
    ensures
        free_mask(flags, picks) == 0,
    decreases flags.len(),
{
    if flags.len() > 0 {
        lemma_free_mask_none(flags.drop_last(), picks.drop_last());
        assert(!picks.last());
    }
}

proof fn lemma_ac_from_zero(cs: Seq<(u64, u64)>)
    requires
        forall|k: int| 0 <= k < cs.len() ==> (#[trigger] cs[k]).0 != 0,
    ensures
        apply_constraints(0u64, cs) == 0u64,
    decreases cs.len(),
{
    if cs.len() > 0 {
        lemma_ac_from_zero(cs.drop_last());
        let f1 = cs.last().0;
        assert(cs[cs.len() - 1].0 != 0);
        assert(!(0u64 | f1 == 0u64)) by (bit_vector)
            requires
                f1 != 0u64,
        ;
    }
}

/// With the draw probability at one and an empty exclusion mask, every
/// flag of the listed flag set is present in every generated value.
pub proof fn lemma_flags_prob_one_all_present(pre: RandomFlags, post: RandomFlags, r: Option<u64>)
    requires
        <RandomFlags as Generator<u64>>::gen_rel(pre, post, r),
        pre.prob >= PROB_ONE,
        pre.exclusion == 0,
    ensures
        r is Some,
        forall|k: int| 0 <= k < pre.flags@.len() ==> has_flags(r.unwrap(), #[trigger] pre.flags@[k]),
{
    let picks = choose|picks: Seq<bool>|
        {
            &&& picks_match(pre.prob, pre.flags@.len(), picks)
            &&& r == Some(
                #[trigger] flags_value(
                    pre.flags@,
                    picks,
                    pre.constraints@,
                    pre.exclusion,
                    pre.inclusion,
                ),
            )
        };
    lemma_free_mask_all(pre.flags@, picks);
    let fm = free_mask(pre.flags@, picks);
    let w = apply_constraints(fm, pre.constraints@);
    let incl = pre.inclusion;
    let rv = r.unwrap();
    assert forall|k: int| 0 <= k < pre.flags@.len() implies has_flags(
        rv,
        #[trigger] pre.flags@[k],
    ) by {
        let f = pre.flags@[k];
        lemma_ac_monotone(fm, pre.constraints@, f);
        assert(((w & !0u64) | incl) | f == (w & !0u64) | incl) by (bit_vector)
            requires
                w | f == w,
        ;
    }
}

/// With the draw probability at zero, and no constraint whose premise is
/// the empty flag set (such a premise is contained in everything, so the
/// constraint always fires), the generated value is exactly the inclusion
/// mask: no flag is present except those forced by inclusion.
pub proof fn lemma_flags_prob_zero_yields_inclusion(
    pre: RandomFlags,
    post: RandomFlags,
    r: Option<u64>,
)
    requires
        <RandomFlags as Generator<u64>>::gen_rel(pre, post, r),
        pre.prob == 0,
        forall|k: int| 0 <= k < pre.constraints@.len() ==> (#[trigger] pre.constraints@[k]).0 != 0,
    ensures
        r == Some(pre.inclusion),
{
    let picks = choose|picks: Seq<bool>|
        {
            &&& picks_match(pre.prob, pre.flags@.len(), picks)
            &&& r == Some(
                #[trigger] flags_value(
                    pre.flags@,
                    picks,
                    pre.constraints@,
                    pre.exclusion,
                    pre.inclusion,
                ),
            )
        };
    lemma_free_mask_none(pre.flags@, picks);
    lemma_ac_from_zero(pre.constraints@);
    let e = pre.exclusion;
    let incl = pre.inclusion;
    assert((0u64 & !e) | incl == incl) by (bit_vector);
}

/// Every generated value holds the whole inclusion mask: because inclusion
/// is applied last, a flag present in both the exclusion and the inclusion
/// mask is always present (inclusion wins).
pub proof fn lemma_flags_inclusion_always_present(
    pre: RandomFlags,
    post: RandomFlags,
    r: Option<u64>,
)
    requires
        <RandomFlags as Generator<u64>>::gen_rel(pre, post, r),
    ensures
        r is Some,
        has_flags(r.unwrap(), pre.inclusion),
{
    let picks = choose|picks: Seq<bool>|
        {
            &&& picks_match(pre.prob, pre.flags@.len(), picks)
            &&& r == Some(
                #[trigger] flags_value(
                    pre.flags@,
                    picks,
                    pre.constraints@,
                    pre.exclusion,
                    pre.inclusion,
                ),
            )
        };
    let w = apply_constraints(free_mask(pre.flags@, picks), pre.constraints@);
    let e = pre.exclusion;
    let incl = pre.inclusion;
    assert(((w & !e) | incl) | incl == (w & !e) | incl) by (bit_vector);
}

/// A registered constraint `(a, b)` is honoured: every generated value
/// that holds `a` also holds `b`, provided the later stages cannot forge
/// `a` or erase `b` behind the constraint's back: no later constraint may
/// add bits of `a`, the inclusion mask must not hold bits of `a`, and the
/// exclusion mask must not hold bits of `b`.
pub proof fn lemma_flags_constraint_honoured(
    pre: RandomFlags,
    post: RandomFlags,
    r: Option<u64>,
    i: int,
)
    requires
        <RandomFlags as Generator<u64>>::gen_rel(pre, post, r),
        0 <= i < pre.constraints@.len(),
        pre.constraints@[i].0 & pre.inclusion == 0,
        pre.constraints@[i].1 & pre.exclusion == 0,
        forall|j: int|
            i < j < pre.constraints@.len() ==> (#[trigger] pre.constraints@[j]).1
                & pre.constraints@[i].0 == 0,
    ensures
        r is Some,
        has_flags(r.unwrap(), pre.constraints@[i].0) ==> has_flags(r.unwrap(), pre.constraints@[i].1),
{
    let picks = choose|picks: Seq<bool>|
        {
            &&& picks_match(pre.prob, pre.flags@.len(), picks)
            &&& r == Some(
                #[trigger] flags_value(
                    pre.flags@,
                    picks,
                    pre.constraints@,
                    pre.exclusion,
                    pre.inclusion,
                ),
            )
        };
    let cs = pre.constraints@;
    let a = cs[i].0;
    let b = cs[i].1;
    let e = pre.exclusion;
    let incl = pre.inclusion;
    let v0 = free_mask(pre.flags@, picks);
    let wn = apply_constraints(v0, cs);
    let rv = r.unwrap();
    if has_flags(rv, a) {
        let wi = apply_constraints(v0, cs.take(i));
        let wi1 = apply_constraints(v0, cs.take(i + 1));
        assert(cs.take(i + 1).drop_last() =~= cs.take(i));
        assert(cs.take(i + 1).last() == cs[i]);
        assert(cs =~= cs.take(i + 1) + cs.skip(i + 1));
        lemma_ac_split(v0, cs.take(i + 1), cs.skip(i + 1));
        assert(wn == apply_constraints(wi1, cs.skip(i + 1)));
        // `a` cannot come from the inclusion stage, so it is already in
        // the mask the constraint pass produced.
        assert(wn | a == wn) by (bit_vector)
            requires
                ((wn & !e) | incl) | a == (wn & !e) | incl,
                a & incl == 0,
        ;
        // Later constraints cannot add bits of `a`, so `a` was present
        // when this constraint had its turn, and the constraint fired.
        assert forall|k: int| 0 <= k < cs.skip(i + 1).len() implies (#[trigger] cs.skip(i + 1)[k]).1
            & a == 0 by {
            assert(cs.skip(i + 1)[k] == cs[i + 1 + k]);
        }
        lemma_ac_stable(wi1, cs.skip(i + 1), a);
        if !has_flags(wi, a) {
            assert(wi1 == wi);
            assert(false);
        }
        assert(wi1 == (wi | b));
        assert((wi | b) | b == wi | b) by (bit_vector);
        lemma_ac_monotone(wi1, cs.skip(i + 1), b);
        assert(((wn & !e) | incl) | b == (wn & !e) | incl) by (bit_vector)
            requires
                wn | b == wn,
                b & e == 0,
        ;
    }
}

} // verus!
