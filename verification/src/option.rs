//! Strategies for optional values.
//!
//! An optional strategy chooses between two branches. The first, and the
//! simpler, yields nothing; the second wraps a value of an inner strategy.
//! A tree that was drawn with a value shrinks in two ways: it can give the
//! value up altogether, which it tries first, and it can shrink the value,
//! which it leaves to the inner tree.

use std::marker::PhantomData;
use vstd::prelude::*;
use crate::runner::{draw_of, scramble, TestRunner};
use crate::strategy::{GenerationError, Strategy, ValueTree};
use crate::weight::{
    is_probability,
    lemma_probability_patterns,
    weights_from_bits,
    weights_of,
    weights_of_half,
    InvalidProbability,
    WeightPair,
    HALF_BITS,
    ONE_BITS,
};

verus! {

/// The strategy, and the tree, of the branch that yields nothing. It has no
/// state: it draws nothing, shows `None`, and cannot move.
#[derive(Debug)]
pub struct NoneStrategy<T> {
    marker: PhantomData<T>,
}

impl<T> NoneStrategy<T> {
    /// The absent generator for values of type `T`.
    pub fn new() -> (none: Self)
        ensures
            none == Self::only(),
    {
        NoneStrategy { marker: PhantomData }
    }

    /// The one value of this type.
    pub closed spec fn only() -> Self {
        NoneStrategy { marker: PhantomData }
    }

    /// Absent generators have no state to differ in: there is one value of
    /// the type, and every generator is equal to it.
    pub proof fn is_only(self)
        ensures
            self == Self::only(),
    {
    }
}

impl<T> Clone for NoneStrategy<T> {
    fn clone(&self) -> (copy: Self)
        ensures
            copy == *self,
    {
        *self
    }
}

impl<T> Copy for NoneStrategy<T> {

}

impl<T> Strategy for NoneStrategy<T> {
    type Tree = Self;

    /// Generation always succeeds, hands back the generator itself as the
    /// tree, and leaves the runner untouched.
    open spec fn generates(
        &self,
        before: u64,
        after: u64,
        out: Result<Self, GenerationError>,
    ) -> bool {
        after == before && out == Ok::<Self, GenerationError>(*self)
    }

    fn new_value(&self, runner: &mut TestRunner) -> (out: Result<Self, GenerationError>)
        ensures
            out == Ok::<Self, GenerationError>(*self),
            final(runner)@ == old(runner)@,
    {
        Ok(*self)
    }
}

impl<T> ValueTree for NoneStrategy<T> {
    type Value = Option<T>;

    open spec fn shown(&self) -> Option<T> {
        None
    }

    /// There is nothing simpler: the call changes nothing and says so.
    open spec fn simplifies_to(&self, after: Self, moved: bool) -> bool {
        !moved && after == *self
    }

    /// There is nothing to undo: the call changes nothing and says so.
    open spec fn complicates_to(&self, after: Self, moved: bool) -> bool {
        !moved && after == *self
    }

    fn current(&self) -> (value: Option<T>)
        ensures
            value is None,
    {
        None
    }

    fn simplify(&mut self) -> (moved: bool)
        ensures
            !moved,
            *final(self) == *old(self),
    {
        false
    }

    fn complicate(&mut self) -> (moved: bool)
        ensures
            !moved,
            *final(self) == *old(self),
    {
        false
    }
}

/// Where an optional tree stands in its search. This is the tree's
/// mathematical model; `T` is the type of the inner tree.
pub enum Cursor<T> {
    /// Drawn without a value. There is nothing to shrink.
    Absent,
    /// Drawn with a value; giving the value up has not been tried yet.
    Untried(T),
    /// The value was given up in the last step: the tree shows nothing, and
    /// holds the inner tree back in case the step has to be undone.
    Switched(T),
    /// Giving the value up was tried and undone. The value stays, and no
    /// step of the inner tree is waiting to be undone.
    Settled(T),
    /// The value stays, and the inner tree has taken steps of its own.
    Shrinking(T),
}

impl<T: ValueTree> Cursor<T> {
    /// The inner tree, where one was drawn.
    pub open spec fn held(self) -> Option<T> {
        match self {
            Cursor::Absent => None,
            Cursor::Untried(t)
            | Cursor::Switched(t)
            | Cursor::Settled(t)
            | Cursor::Shrinking(t) => Some(t),
        }
    }

    /// The tree shows a value.
    pub open spec fn is_present(self) -> bool {
        self is Untried || self is Settled || self is Shrinking
    }

    /// What the tree shows: the inner tree's value, wrapped, or nothing.
    pub open spec fn shown(self) -> Option<T::Value> {
        match self {
            Cursor::Untried(t) | Cursor::Settled(t) | Cursor::Shrinking(t) => Some(t.shown()),
            Cursor::Absent | Cursor::Switched(_) => None,
        }
    }

    /// One call of `simplify`. A value that has never been given up is given
    /// up, whole, and the inner tree is left as it is. Once that has been
    /// tried and undone, the call is the inner tree's. A tree that shows
    /// nothing cannot move.
    pub open spec fn simplify_step(self, after: Self, moved: bool) -> bool {
        match self {
            Cursor::Untried(t) => moved && after == Cursor::Switched(t),
            Cursor::Settled(t) => match after {
                Cursor::Shrinking(u) => moved && t.simplifies_to(u, true),
                Cursor::Settled(u) => !moved && t.simplifies_to(u, false),
                _ => false,
            },
            Cursor::Shrinking(t) => {
                &&& after matches Cursor::Shrinking(u)
                &&& t.simplifies_to(u, moved)
            },
            Cursor::Absent | Cursor::Switched(_) => !moved && after == self,
        }
    }

    /// One call of `complicate`. A value that was given up in the last step
    /// comes back, with the very inner tree that was held back, and is not
    /// given up again. Where the inner tree has taken steps, the call is
    /// the inner tree's. Everywhere else there is nothing to undo.
    pub open spec fn complicate_step(self, after: Self, moved: bool) -> bool {
        match self {
            Cursor::Switched(t) => moved && after == Cursor::Settled(t),
            Cursor::Shrinking(t) => {
                &&& after matches Cursor::Shrinking(u)
                &&& t.complicates_to(u, moved)
            },
            Cursor::Absent | Cursor::Untried(_) | Cursor::Settled(_) => !moved && after == self,
        }
    }

    /// A bound on the number of `simplify` calls that can still succeed,
    /// given such a bound for the inner tree.
    pub open spec fn rank(self, inner_rank: spec_fn(T) -> nat) -> nat {
        match self {
            Cursor::Absent | Cursor::Switched(_) => 0,
            Cursor::Untried(_) => 1,
            Cursor::Settled(t) | Cursor::Shrinking(t) => inner_rank(t),
        }
    }
}

/// How far the search of a tree that holds a value has come.
#[derive(Clone, Copy, Debug)]
enum Phase {
    Untried,
    Switched,
    Settled,
    Shrinking,
}

/// The tree of an optional value.
#[derive(Clone, Debug)]
pub struct OptionValueTree<T: ValueTree> {
    absent: NoneStrategy<T::Value>,
    present: Option<T>,
    phase: Phase,
}

impl<T: ValueTree> View for OptionValueTree<T> {
    type V = Cursor<T>;

    closed spec fn view(&self) -> Cursor<T> {
        match self.present {
            None => Cursor::Absent,
            Some(t) => match self.phase {
                Phase::Untried => Cursor::Untried(t),
                Phase::Switched => Cursor::Switched(t),
                Phase::Settled => Cursor::Settled(t),
                Phase::Shrinking => Cursor::Shrinking(t),
            },
        }
    }
}

impl<T: ValueTree> OptionValueTree<T> {
    /// The tree of a draw without a value.
    pub fn absent() -> (tree: Self)
        ensures
            tree@ == Cursor::<T>::Absent,
    {
        OptionValueTree { absent: NoneStrategy::new(), present: None, phase: Phase::Untried }
    }

    /// The tree of a draw with a value, whose tree is `inner`.
    pub fn present(inner: T) -> (tree: Self)
        ensures
            tree@ == Cursor::Untried(inner),
    {
        OptionValueTree { absent: NoneStrategy::new(), present: Some(inner), phase: Phase::Untried }
    }
}

impl<T: ValueTree> ValueTree for OptionValueTree<T> {
    type Value = Option<T::Value>;

    open spec fn shown(&self) -> Option<T::Value> {
        self@.shown()
    }

    open spec fn simplifies_to(&self, after: Self, moved: bool) -> bool {
        self@.simplify_step(after@, moved)
    }

    open spec fn complicates_to(&self, after: Self, moved: bool) -> bool {
        self@.complicate_step(after@, moved)
    }

    fn current(&self) -> (value: Option<T::Value>)
        ensures
            value == self@.shown(),
    {
        match &self.present {
            None => self.absent.current(),
            Some(inner) => match self.phase {
                Phase::Switched => self.absent.current(),
                Phase::Untried | Phase::Settled | Phase::Shrinking => Some(inner.current()),
            },
        }
    }

    fn simplify(&mut self) -> (moved: bool)
        ensures
            old(self)@.simplify_step(final(self)@, moved),
    {
        match &mut self.present {
            None => self.absent.simplify(),
            Some(inner) => match self.phase {
                Phase::Untried => {
                    self.phase = Phase::Switched;
                    true
                },
                Phase::Switched => self.absent.simplify(),
                Phase::Settled | Phase::Shrinking => {
                    let moved = inner.simplify();
                    if moved {
                        self.phase = Phase::Shrinking;
                    }
                    moved
                },
            },
        }
    }

    fn complicate(&mut self) -> (moved: bool)
        ensures
            old(self)@.complicate_step(final(self)@, moved),
    {
        match &mut self.present {
            None => self.absent.complicate(),
            Some(inner) => match self.phase {
                Phase::Switched => {
                    self.phase = Phase::Settled;
                    true
                },
                Phase::Shrinking => inner.complicate(),
                Phase::Untried | Phase::Settled => false,
            },
        }
    }
}

/// What an optional strategy is made of. This is the strategy's
/// mathematical model; `S` is the type of the inner strategy.
pub struct OptionModel<S> {
    /// The weights of the two branches.
    pub weights: WeightPair,
    /// The strategy whose values the present branch wraps.
    pub inner: S,
}

/// A strategy for optional values: nothing, or a value of the inner strategy.
///
/// It is made by `of` and `weighted`.
#[derive(Clone, Debug)]
pub struct OptionStrategy<S: Strategy> {
    weights: WeightPair,
    some: S,
}

impl<S: Strategy> View for OptionStrategy<S> {
    type V = OptionModel<S>;

    closed spec fn view(&self) -> OptionModel<S> {
        OptionModel { weights: self.weights, inner: self.some }
    }
}

impl<S: Strategy> Strategy for OptionStrategy<S> {
    type Tree = OptionValueTree<S::Tree>;

    /// One draw selects the branch. The absent branch, which comes first,
    /// draws nothing more and gives a tree without a value. The present
    /// branch hands the runner on to the inner strategy: its tree comes back
    /// wrapped and untried, its failure comes back as it is.
    open spec fn generates(
        &self,
        before: u64,
        after: u64,
        out: Result<OptionValueTree<S::Tree>, GenerationError>,
    ) -> bool {
        let drawn = scramble(before);
        if self@.weights.selects_present(draw_of(drawn)) {
            match out {
                Ok(tree) => tree@ matches Cursor::Untried(inner) && self@.inner.generates(
                    drawn,
                    after,
                    Ok(inner),
                ),
                Err(error) => self@.inner.generates(drawn, after, Err(error)),
            }
        } else {
            &&& after == drawn
            &&& out matches Ok(tree)
            &&& tree@ == Cursor::<S::Tree>::Absent
        }
    }

    fn new_value(&self, runner: &mut TestRunner) -> (out: Result<
        OptionValueTree<S::Tree>,
        GenerationError,
    >)
        ensures
            self.generates(old(runner)@, final(runner)@, out),
    {
        let draw = runner.next_u32();
        let none = NoneStrategy::new();
        let absent = match none.new_value(runner) {
            Ok(tree) => tree,
            Err(error) => {
                return Err(error);
            },
        };
        if self.weights.select(draw) {
            match self.some.new_value(runner) {
                Ok(inner) => Ok(
                    OptionValueTree { absent, present: Some(inner), phase: Phase::Untried },
                ),
                Err(error) => Err(error),
            }
        } else {
            Ok(OptionValueTree { absent, present: None, phase: Phase::Untried })
        }
    }
}

/// What `weighted` makes of a probability, given as binary64 bits, and an
/// inner strategy.
pub open spec fn weighted_model<S>(probability_bits: u64, inner: S) -> Result<
    OptionModel<S>,
    InvalidProbability,
> {
    if is_probability(probability_bits) {
        Ok(OptionModel { weights: weights_of(probability_bits), inner })
    } else {
        Err(InvalidProbability { bits: probability_bits })
    }
}

/// What `of` makes of an inner strategy: both branches weigh the same.
pub open spec fn of_model<S>(inner: S) -> OptionModel<S> {
    OptionModel { weights: WeightPair { absent: 0x4000_0000, present: 0x4000_0000 }, inner }
}

/// A strategy for optional values that wrap values of `inner`, present and
/// absent with equal probability.
///
/// Present values shrink to absent ones.
pub fn of<S: Strategy>(inner: S) -> (strategy: OptionStrategy<S>)
    ensures
        strategy@ == of_model(inner),
{
    proof {
        weights_of_half();
        lemma_probability_patterns(HALF_BITS);
    }
    match weighted(HALF_BITS, inner) {
        Ok(strategy) => strategy,
        Err(_) => vstd::pervasive::unreached(),
    }
}

/// A strategy for optional values that wrap values of `inner`, present with
/// the probability whose binary64 bit pattern is `probability_bits`.
///
/// The probability must lie strictly between 0 and 1; any other pattern is
/// rejected. Present values shrink to absent ones.
pub fn weighted<S: Strategy>(probability_bits: u64, inner: S) -> (out: Result<
    OptionStrategy<S>,
    InvalidProbability,
>)
    ensures
        match out {
            Ok(strategy) => weighted_model(probability_bits, inner) == Ok::<
                OptionModel<S>,
                InvalidProbability,
            >(strategy@),
            Err(error) => weighted_model(probability_bits, inner) == Err::<
                OptionModel<S>,
                InvalidProbability,
            >(error),
        },
        out is Ok <==> 0 < probability_bits < ONE_BITS,
        out matches Ok(strategy) ==> strategy@.weights.wf(),
{
    match weights_from_bits(probability_bits) {
        Ok(weights) => Ok(OptionStrategy { weights, some: inner }),
        Err(error) => Err(error),
    }
}

/// `of` is `weighted` with one half: the two make the same strategy, and so
/// the same trees from the same draws.
pub proof fn of_is_weighted_half<S>(inner: S)
    ensures
        weighted_model(HALF_BITS, inner) == Ok::<OptionModel<S>, InvalidProbability>(
            of_model(inner),
        ),
{
    weights_of_half();
}

/// A tree is generated at the start of its search: it is absent, or holds a
/// value that it has not tried to give up, and which of the two is decided by
/// the runner's next draw and the weights alone.
pub proof fn generated_tree_is_untried<S: Strategy>(
    strategy: OptionStrategy<S>,
    before: u64,
    after: u64,
    tree: OptionValueTree<S::Tree>,
)
    requires
        strategy.generates(before, after, Ok(tree)),
    ensures
        tree@ is Absent || tree@ is Untried,
        tree@ is Untried <==> strategy@.weights.selects_present(draw_of(scramble(before))),
{
}

/// Generation is repeatable. If the inner strategy gives one outcome for one
/// runner state, so does the optional strategy: two runs from the same state
/// leave the runner in the same state and end alike, with trees that stand
/// at the same cursor or with the same failure.
pub proof fn generation_is_repeatable<S: Strategy>(
    strategy: OptionStrategy<S>,
    before: u64,
    after_one: u64,
    out_one: Result<OptionValueTree<S::Tree>, GenerationError>,
    after_two: u64,
    out_two: Result<OptionValueTree<S::Tree>, GenerationError>,
)
    requires
        forall|
            state: u64,
            a: u64,
            x: Result<S::Tree, GenerationError>,
            b: u64,
            y: Result<S::Tree, GenerationError>,
        |
            {
                &&& #[trigger] strategy@.inner.generates(state, a, x)
                &&& #[trigger] strategy@.inner.generates(state, b, y)
            } ==> a == b && x == y,
        strategy.generates(before, after_one, out_one),
        strategy.generates(before, after_two, out_two),
    ensures
        after_one == after_two,
        match (out_one, out_two) {
            (Ok(one), Ok(two)) => one@ == two@,
            (Err(one), Err(two)) => one == two,
            _ => false,
        },
{
    let drawn = scramble(before);
    if strategy@.weights.selects_present(draw_of(drawn)) {
        match (out_one, out_two) {
            (Ok(one), Ok(two)) => {
                assert(strategy@.inner.generates(drawn, after_one, Ok(one@->Untried_0)));
                assert(strategy@.inner.generates(drawn, after_two, Ok(two@->Untried_0)));
            },
            (Ok(one), Err(two)) => {
                assert(strategy@.inner.generates(drawn, after_one, Ok(one@->Untried_0)));
                assert(strategy@.inner.generates(drawn, after_two, Err(two)));
            },
            (Err(one), Ok(two)) => {
                assert(strategy@.inner.generates(drawn, after_one, Err(one)));
                assert(strategy@.inner.generates(drawn, after_two, Ok(two@->Untried_0)));
            },
            (Err(one), Err(two)) => {
                assert(strategy@.inner.generates(drawn, after_one, Err(one)));
                assert(strategy@.inner.generates(drawn, after_two, Err(two)));
            },
        }
    }
}

/// A value that has not been given up yet is given up by the next
/// `simplify`, before anything else is tried: the call succeeds, the tree
/// shows nothing, and the inner tree has not moved.
pub proof fn simplify_gives_up_first<T: ValueTree>(
    before: Cursor<T>,
    after: Cursor<T>,
    moved: bool,
)
    requires
        before is Untried,
        before.simplify_step(after, moved),
    ensures
        moved,
        after.shown() is None,
        after.held() == before.held(),
{
}

/// Giving a value up and taking that back leaves the value as it was: where
/// `simplify` leads from a tree that shows a value to one that shows none,
/// the `complicate` that follows succeeds and brings back the same inner
/// tree, and with it the same value.
pub proof fn complicate_restores_value<T: ValueTree>(
    before: Cursor<T>,
    between: Cursor<T>,
    after: Cursor<T>,
    first: bool,
    second: bool,
)
    requires
        before.is_present(),
        before.simplify_step(between, first),
        between.shown() is None,
        between.complicate_step(after, second),
    ensures
        first,
        second,
        after.held() == before.held(),
        after.shown() == before.shown(),
{
}

/// Once a value has been brought back, a further `complicate` has nothing
/// to undo: it fails and changes nothing.
pub proof fn complicate_again_is_idle<T: ValueTree>(
    before: Cursor<T>,
    between: Cursor<T>,
    after: Cursor<T>,
    first: bool,
    second: bool,
)
    requires
        before is Switched,
        before.complicate_step(between, first),
        between.complicate_step(after, second),
    ensures
        first,
        !second,
        after == between,
{
}

/// Simplifying comes to an end. If every successful step of the inner tree
/// lowers `inner_rank`, every successful step of the optional tree lowers
/// its own rank, so no more steps can succeed in a row than the rank says.
pub proof fn simplify_lowers_rank<T: ValueTree>(
    before: Cursor<T>,
    after: Cursor<T>,
    inner_rank: spec_fn(T) -> nat,
)
    requires
        forall|t: T, u: T| #[trigger] t.simplifies_to(u, true) ==> inner_rank(u) < inner_rank(t),
        before.simplify_step(after, true),
    ensures
        after.rank(inner_rank) < before.rank(inner_rank),
{
}

/// Where simplifying ends. A `simplify` that fails finds the tree showing
/// nothing, or showing a value that the inner tree has just refused to
/// simplify.
pub proof fn simplify_ends_at_minimum<T: ValueTree>(before: Cursor<T>, after: Cursor<T>)
    requires
        before.simplify_step(after, false),
    ensures
        before.is_present() ==> ({
            &&& before.held() matches Some(t)
            &&& after.held() matches Some(u)
            &&& t.simplifies_to(u, false)
        }),
{
}

/// A step that fails leaves the shown value alone, as long as the same
/// holds of the inner tree.
pub proof fn failed_step_keeps_value<T: ValueTree>(before: Cursor<T>, after: Cursor<T>)
    requires
        forall|t: T, u: T| #[trigger] t.simplifies_to(u, false) ==> u.shown() == t.shown(),
        forall|t: T, u: T| #[trigger] t.complicates_to(u, false) ==> u.shown() == t.shown(),
        before.simplify_step(after, false) || before.complicate_step(after, false),
    ensures
        after.shown() == before.shown(),
{
}

/// A successful `simplify` can always be followed by a successful
/// `complicate`, as long as the same holds of the inner tree.
pub proof fn complicate_follows_simplify<T: ValueTree>(
    before: Cursor<T>,
    between: Cursor<T>,
    after: Cursor<T>,
    moved: bool,
)
    requires
        forall|t: T, u: T, v: T, m: bool|
            #[trigger] t.simplifies_to(u, true) && #[trigger] u.complicates_to(v, m) ==> m,
        before.simplify_step(between, true),
        between.complicate_step(after, moved),
    ensures
        moved,
{
}

} // verus!
