//! Composable value generators.
//!
//! A generator is anything that can produce values of some type on demand,
//! possibly failing.  Leaf generators (a fixed value, a uniform range, a
//! pool of values) can be wrapped in combinators (a fallback default, a
//! probabilistic switch) to build richer ones.  Every generator's behaviour
//! is captured by a relation between its state before a generation attempt,
//! its state after, and the outcome, so combinators can be reasoned about
//! without knowing which concrete generators they wrap.
use vstd::prelude::*;

mod flags;
mod random;

pub use flags::RandomFlags;
pub use flags::apply_constraints;
pub use flags::flags_value;
pub use flags::free_mask;
pub use flags::has_flags;
pub use flags::lemma_flags_constraint_honoured;
pub use flags::lemma_flags_inclusion_always_present;
pub use flags::lemma_flags_prob_one_all_present;
pub use flags::lemma_flags_prob_zero_yields_inclusion;
pub use flags::picks_match;
pub use random::PROB_ONE;
pub use random::RandomSwitch;
pub use random::SwitchConstant;
pub use random::UniformCollection;
pub use random::UniformRange;
pub use random::clamp_prob;
pub use random::lemma_consume_removes_exactly_one;
pub use random::lemma_switch_prob_one;
pub use random::lemma_switch_prob_zero;
pub use random::lemma_uniform_range_bounds;
pub use random::removed_first;

verus! {

/// A generic value generator.
///
/// Each implementation describes itself through two spec functions:
/// [`Generator::ready`], which holds exactly when the next generation
/// attempt is guaranteed to produce a value, and [`Generator::gen_rel`],
/// which relates the state before an attempt, the state after, and the
/// outcome of the attempt.
pub trait Generator<T>: Sized {
    /// Holds when the next generation attempt cannot fail.
    spec fn ready(&self) -> bool;

    /// Relates the generator's state before a generation attempt (`pre`),
    /// its state after (`post`), and the outcome of the attempt (`r`).
    spec fn gen_rel(pre: Self, post: Self, r: Option<T>) -> bool;

    /// Try to generate a value, returning `None` if the generator is in a
    /// state that cannot currently produce one.  A failed attempt never
    /// breaks the generator: a later call may succeed once its state has
    /// changed.
    fn try_generate(&mut self) -> (r: Option<T>)
        ensures
            Self::gen_rel(*old(self), *final(self), r),
            old(self).ready() ==> r is Some,
    ;

    /// Generate a value.  Callers must know that the generator cannot fail
    /// in its current state.
    fn generate(&mut self) -> (r: T)
        requires
            old(self).ready(),
        ensures
            Self::gen_rel(*old(self), *final(self), Some(r)),
    {
        let r = self.try_generate();
        match r {
            Some(v) => v,
            None => vstd::pervasive::unreached(),
        }
    }
}

/// Constant generator: every generation yields the stored value.
pub struct Constant<T> {
    /// The value handed out by every generation.
    pub value: T,
}

impl<T> Constant<T> {
    /// Create a new constant generator.
    pub fn new(value: T) -> (g: Self)
        ensures
            g.value == value,
    {
        Constant { value }
    }

    /// Set the value of the generator; it is returned by every later
    /// generation until set again.
    pub fn set(&mut self, value: T)
        ensures
            final(self).value == value,
    {
        self.value = value;
    }
}

impl<T: Copy> Generator<T> for Constant<T> {
    open spec fn ready(&self) -> bool {
        true
    }

    open spec fn gen_rel(pre: Self, post: Self, r: Option<T>) -> bool {
        post == pre && r == Some(pre.value)
    }

    fn try_generate(&mut self) -> (r: Option<T>) {
        Some(self.value)
    }
}

/// Default-or generator.
///
/// Delegates to the wrapped generator and substitutes the stored default
/// value whenever the wrapped generator fails, so it never fails itself.
pub struct DefaultOr<T, G> {
    /// The value substituted when the wrapped generator fails.
    pub default: T,
    /// The wrapped generator.
    pub inner: G,
}

impl<T, G> DefaultOr<T, G> {
    /// Create a new default-or generator.
    pub fn new(default: T, generator: G) -> (g: Self)
        ensures
            g.default == default,
            g.inner == generator,
    {
        DefaultOr { default, inner: generator }
    }

    /// Set the default value; it applies to later generations only.
    pub fn set_default(&mut self, default: T)
        ensures
            final(self).default == default,
            final(self).inner == old(self).inner,
    {
        self.default = default;
    }
}

impl<T: Copy, G: Generator<T>> Generator<T> for DefaultOr<T, G> {
    open spec fn ready(&self) -> bool {
        true
    }

    open spec fn gen_rel(pre: Self, post: Self, r: Option<T>) -> bool {
        &&& post.default == pre.default
        &&& exists|ri: Option<T>|
            {
                &&& #[trigger] G::gen_rel(pre.inner, post.inner, ri)
                &&& r == (if ri is Some {
                    ri
                } else {
                    Some(pre.default)
                })
            }
    }

    fn try_generate(&mut self) -> (r: Option<T>) {
        let ri = self.inner.try_generate();
        let r = match ri {
            Some(v) => Some(v),
            None => Some(self.default),
        };
        proof {
            assert(G::gen_rel(old(self).inner, self.inner, ri));
            assert(r == (if ri is Some {
                ri
            } else {
                Some(old(self).default)
            }));
        }
        r
    }
}

/// When the wrapped generator cannot ever produce a value from its current
/// state, a [`DefaultOr`] generation yields exactly the stored default.
pub proof fn lemma_default_or_absorbs_failure<T: Copy, G: Generator<T>>(
    pre: DefaultOr<T, G>,
    post: DefaultOr<T, G>,
    r: Option<T>,
)
    requires
        <DefaultOr<T, G> as Generator<T>>::gen_rel(pre, post, r),
        forall|gp: G, ri: Option<T>| #[trigger] G::gen_rel(pre.inner, gp, ri) ==> ri is None,
    ensures
        r == Some(pre.default),
{
}

/// When the wrapped generator always produces `v` from its current state,
/// a [`DefaultOr`] generation yields `v` and the default is never consulted.
pub proof fn lemma_default_or_passes_success<T: Copy, G: Generator<T>>(
    pre: DefaultOr<T, G>,
    post: DefaultOr<T, G>,
    r: Option<T>,
    v: T,
)
    requires
        <DefaultOr<T, G> as Generator<T>>::gen_rel(pre, post, r),
        forall|gp: G, ri: Option<T>| #[trigger] G::gen_rel(pre.inner, gp, ri) ==> ri == Some(v),
    ensures
        r == Some(v),
{
}

/// Every generation of a [`Constant`] yields the stored value and leaves
/// the generator unchanged, however many attempts are made.
pub proof fn lemma_constant_always_yields_value<T: Copy>(
    pre: Constant<T>,
    post: Constant<T>,
    r: Option<T>,
)
    requires
        <Constant<T> as Generator<T>>::gen_rel(pre, post, r),
    ensures
        r == Some(pre.value),
        post == pre,
{
}

} // verus!
