//! Random-based generators.
//!
//! Every generator here owns its own handle to the thread-local random
//! source of the rand crate, so two instances draw independently.  The
//! randomness itself is not modelled: each contract states only what holds
//! of every possible draw.
use vstd::prelude::*;

use crate::Generator;

verus! {

/// Handle to the thread-local random source of the rand crate.  The handle
/// is opaque: nothing is known of a value of it.
#[verifier::external_type_specification]
#[verifier::external_body]
pub struct ExThreadRng(rand::rngs::ThreadRng);

/// Relies on rand::thread_rng: obtains a handle to the thread-local random
/// source.  Nothing is promised of it.
#[verifier::external_body]
pub(crate) fn new_rng() -> rand::rngs::ThreadRng {
    rand::thread_rng()
}

/// Relies on rand::Rng::gen_range over `lb..ub`: the sample is uniformly
/// distributed in the half-open range `[lb, ub)`.  The call panics on an
/// empty range, which the precondition rules out.
#[verifier::external_body]
fn sample_i64(rng: &mut rand::rngs::ThreadRng, lb: i64, ub: i64) -> (r: i64)
    requires
        lb < ub,
    ensures
        lb <= r < ub,
{
    rand::Rng::gen_range(rng, lb..ub)
}

/// Relies on rand::Rng::gen_range over `0..n`: the sample is uniformly
/// distributed in `[0, n)`.  The call panics on an empty range, which the
/// precondition rules out.
#[verifier::external_body]
fn sample_index(rng: &mut rand::rngs::ThreadRng, n: usize) -> (r: usize)
    requires
        0 < n,
    ensures
        r < n,
{
    rand::Rng::gen_range(rng, 0..n)
}

/// Relies on rand::Rng::gen_ratio: the result is true with probability
/// `num / den`; it is documented to be always true when `num == den` and
/// always false when `num == 0`.  The call panics when `den == 0` or
/// `num > den`, which the precondition rules out.
#[verifier::external_body]
pub(crate) fn coin(rng: &mut rand::rngs::ThreadRng, num: u32, den: u32) -> (r: bool)
    requires
        0 < den,
        num <= den,
    ensures
        num == 0 ==> !r,
        num == den ==> r,
{
    rand::Rng::gen_ratio(rng, num, den)
}

/// A uniform distribution range generator.
///
/// This structure represents a range with a closed lower bound (`lb`) and
/// an open upper bound (`ub`), from which it generates a value uniformly.
/// Generation fails exactly when the range is empty (`lb >= ub`).
pub struct UniformRange {
    /// The closed lower bound of the range.
    pub lb: i64,
    /// The open upper bound of the range.
    pub ub: i64,
    /// Handle to this generator's own random source.
    pub rng: rand::rngs::ThreadRng,
}

impl UniformRange {
    /// Create a new `UniformRange` with the specified bounds.
    pub fn new(lb: i64, ub: i64) -> (g: Self)
        ensures
            g.lb == lb,
            g.ub == ub,
    {
        UniformRange { lb, ub, rng: new_rng() }
    }

    /// Replace both bounds; they apply to later generations only.
    pub fn set_range(&mut self, lb: i64, ub: i64)
        ensures
            final(self).lb == lb,
            final(self).ub == ub,
    {
        self.lb = lb;
        self.ub = ub;
    }
}

impl Generator<i64> for UniformRange {
    open spec fn ready(&self) -> bool {
        self.lb < self.ub
    }

    open spec fn gen_rel(pre: Self, post: Self, r: Option<i64>) -> bool {
        &&& post.lb == pre.lb
        &&& post.ub == pre.ub
        &&& if pre.lb < pre.ub {
            r matches Some(x) && pre.lb <= x < pre.ub
        } else {
            r is None
        }
    }

    fn try_generate(&mut self) -> (r: Option<i64>) {
        if self.lb < self.ub {
            Some(sample_i64(&mut self.rng, self.lb, self.ub))
        } else {
            None
        }
    }
}

/// A [`UniformRange`] generation yields a value inside the bounds whenever
/// the range is non-empty, fails exactly when it is empty, and leaves the
/// bounds unchanged.
pub proof fn lemma_uniform_range_bounds(pre: UniformRange, post: UniformRange, r: Option<i64>)
    requires
        <UniformRange as Generator<i64>>::gen_rel(pre, post, r),
    ensures
        pre.lb < pre.ub ==> (r matches Some(x) && pre.lb <= x < pre.ub),
        pre.lb >= pre.ub ==> r is None,
        post.lb == pre.lb && post.ub == pre.ub,
{
}

/// Holds when `post` is `pre` with its first occurrence of `v` deleted, or
/// all of `pre` when `v` does not occur in it.
pub open spec fn removed_first(pre: Seq<i64>, post: Seq<i64>, v: i64) -> bool {
    if pre.contains(v) {
        exists|i: int|
            {
                &&& 0 <= i < pre.len()
                &&& pre[i] == v
                &&& (forall|j: int| 0 <= j < i ==> pre[j] != v)
                &&& post == pre.remove(i)
            }
    } else {
        post == pre
    }
}

/// A generator that samples uniformly from a pool of values.
///
/// The pool may hold duplicates; generation copies an element out without
/// changing the pool, and fails exactly when the pool is empty.
pub struct UniformCollection {
    /// The pool of values sampled from.
    pub values: Vec<i64>,
    /// Handle to this generator's own random source.
    pub rng: rand::rngs::ThreadRng,
}

impl UniformCollection {
    /// Create a new `UniformCollection` with the given initial values.
    pub fn new(values: Vec<i64>) -> (g: Self)
        ensures
            g.values@ == values@,
    {
        UniformCollection { values, rng: new_rng() }
    }

    /// Check if the pool is empty.
    pub fn is_empty(&self) -> (r: bool)
        ensures
            r == (self.values@.len() == 0),
    {
        self.values.len() == 0
    }

    /// Append a value to the pool; duplicates are kept.
    pub fn add(&mut self, value: i64)
        ensures
            final(self).values@ == old(self).values@.push(value),
    {
        self.values.push(value);
    }

    /// Delete the first occurrence of `value` from the pool, if any; when
    /// `value` is absent the pool is left unchanged.
    pub fn consume(&mut self, value: i64)
        ensures
            removed_first(old(self).values@, final(self).values@, value),
    {
        let n = self.values.len();
        let mut i: usize = 0;
        while i < n
            invariant
                n == self.values.len(),
                i <= n,
                self.values@ == old(self).values@,
                forall|j: int| 0 <= j < i ==> self.values@[j] != value,
            decreases n - i,
        {
            if self.values[i] == value {
                self.values.remove(i);
                return ;
            }
            i += 1;
        }
    }
}

impl Generator<i64> for UniformCollection {
    open spec fn ready(&self) -> bool {
        self.values@.len() > 0
    }

    open spec fn gen_rel(pre: Self, post: Self, r: Option<i64>) -> bool {
        &&& post.values@ == pre.values@
        &&& if pre.values@.len() > 0 {
            r matches Some(x) && pre.values@.contains(x)
        } else {
            r is None
        }
    }

    fn try_generate(&mut self) -> (r: Option<i64>) {
        let n = self.values.len();
        if n == 0 {
            None
        } else {
            let i = sample_index(&mut self.rng, n);
            let x = self.values[i];
            proof {
                assert(old(self).values@.contains(x));
            }
            Some(x)
        }
    }
}

/// One on the fixed-denominator probability scale: probabilities are given
/// in millionths, `0` meaning never and `PROB_ONE` meaning always.
pub const PROB_ONE: u32 = 1000000;

/// Clamp a millionths probability into `[0, PROB_ONE]`.
pub open spec fn clamp_prob(p: int) -> u32 {
    if p < 0 {
        0u32
    } else if p > PROB_ONE as int {
        PROB_ONE
    } else {
        p as u32
    }
}

/// Clamp a millionths probability into `[0, PROB_ONE]`.
pub(crate) fn to_prob(p: i64) -> (r: u32)
    ensures
        r == clamp_prob(p as int),
{
    if p < 0 {
        0
    } else if p > PROB_ONE as i64 {
        PROB_ONE
    } else {
        p as u32
    }
}

/// A switch generator that randomly selects between two generators.
///
/// Each generation draws one boolean that is true with probability
/// `prob / PROB_ONE` and delegates to the first generator on true, to the
/// second on false; the other generator is never consulted for that call.
pub struct RandomSwitch<G1, G2> {
    /// The generator delegated to when the draw succeeds.
    pub gen1: G1,
    /// The generator delegated to when the draw fails.
    pub gen2: G2,
    /// Probability of selecting the first generator, in millionths.
    pub prob: u32,
    /// Handle to this generator's own random source.
    pub rng: rand::rngs::ThreadRng,
}

impl<G1, G2> RandomSwitch<G1, G2> {
    /// Create a new `RandomSwitch` with the specified generators; the
    /// probability is given in millionths and clamped into `[0, PROB_ONE]`.
    pub fn new(gen1: G1, gen2: G2, prob: i64) -> (g: Self)
        ensures
            g.gen1 == gen1,
            g.gen2 == gen2,
            g.prob == clamp_prob(prob as int),
    {
        RandomSwitch { gen1, gen2, prob: to_prob(prob), rng: new_rng() }
    }

    /// Set the probability of selecting the first generator, in
    /// millionths; values outside `[0, PROB_ONE]` are clamped, never
    /// rejected.
    pub fn set_g1_prob(&mut self, prob: i64)
        ensures
            final(self).prob == clamp_prob(prob as int),
            final(self).gen1 == old(self).gen1,
            final(self).gen2 == old(self).gen2,
    {
        self.prob = to_prob(prob);
    }
}

impl<T, G1: Generator<T>, G2: Generator<T>> Generator<T> for RandomSwitch<G1, G2> {
    open spec fn ready(&self) -> bool {
        &&& (self.prob != 0 ==> self.gen1.ready())
        &&& (self.prob != PROB_ONE ==> self.gen2.ready())
    }

    open spec fn gen_rel(pre: Self, post: Self, r: Option<T>) -> bool {
        &&& post.prob == pre.prob
        &&& {
            ||| {
                &&& pre.prob != 0
                &&& G1::gen_rel(pre.gen1, post.gen1, r)
                &&& post.gen2 == pre.gen2
            }
            ||| {
                &&& pre.prob != PROB_ONE
                &&& G2::gen_rel(pre.gen2, post.gen2, r)
                &&& post.gen1 == pre.gen1
            }
        }
    }

    fn try_generate(&mut self) -> (r: Option<T>) {
        let p = if self.prob > PROB_ONE {
            PROB_ONE
        } else {
            self.prob
        };
        let b = coin(&mut self.rng, p, PROB_ONE);
        if b {
            self.gen1.try_generate()
        } else {
            self.gen2.try_generate()
        }
    }
}

/// A generator that randomly chooses between a constant value and another
/// generator.
pub type SwitchConstant<T, G> = RandomSwitch<crate::Constant<T>, G>;

/// With the selection probability at zero, a [`RandomSwitch`] generation
/// always delegates to the second generator and leaves the first untouched.
pub proof fn lemma_switch_prob_zero<T, G1: Generator<T>, G2: Generator<T>>(
    pre: RandomSwitch<G1, G2>,
    post: RandomSwitch<G1, G2>,
    r: Option<T>,
)
    requires
        <RandomSwitch<G1, G2> as Generator<T>>::gen_rel(pre, post, r),
        pre.prob == 0,
    ensures
        G2::gen_rel(pre.gen2, post.gen2, r),
        post.gen1 == pre.gen1,
{
}

/// With the selection probability at one, a [`RandomSwitch`] generation
/// always delegates to the first generator and leaves the second untouched.
pub proof fn lemma_switch_prob_one<T, G1: Generator<T>, G2: Generator<T>>(
    pre: RandomSwitch<G1, G2>,
    post: RandomSwitch<G1, G2>,
    r: Option<T>,
)
    requires
        <RandomSwitch<G1, G2> as Generator<T>>::gen_rel(pre, post, r),
        pre.prob == PROB_ONE,
    ensures
        G1::gen_rel(pre.gen1, post.gen1, r),
        post.gen2 == pre.gen2,
{
}

/// Deleting the first occurrence of `v` from a pool that holds it removes
/// exactly one occurrence: the pool shrinks by one and the number of copies
/// of `v` drops by one, every other value keeping its count.  A pool
/// without `v` is left unchanged.
pub proof fn lemma_consume_removes_exactly_one(pre: Seq<i64>, post: Seq<i64>, v: i64)
    requires
        removed_first(pre, post, v),
    ensures
        pre.contains(v) ==> {
            &&& post.len() + 1 == pre.len()
            &&& post.to_multiset() == pre.to_multiset().remove(v)
        },
        !pre.contains(v) ==> post == pre,
{
    broadcast use vstd::seq_lib::group_to_multiset_ensures;

    if pre.contains(v) {
        let i = choose|i: int|
            {
                &&& 0 <= i < pre.len()
                &&& pre[i] == v
                &&& (forall|j: int| 0 <= j < i ==> pre[j] != v)
                &&& post == pre.remove(i)
            };
        assert(pre.remove(i).to_multiset() =~= pre.to_multiset().remove(pre[i]));
    }
}

} // verus!
