//! The two capabilities everything else is built from: a strategy, which
//! generates, and a value tree, which shrinks.
//!
//! Both traits are meant to be implemented outside this crate as well. Each
//! method's contract is phrased through a spec function of the same trait,
//! which the implementation defines: the contract names what a call did, and
//! promises nothing on an implementation's behalf. An implementation that
//! leaves a spec function at its default says nothing about that method.

use vstd::prelude::*;
use crate::runner::TestRunner;

verus! {

/// Why a strategy could not produce a value.
#[derive(Clone, Debug, PartialEq, Eq)]
pub struct GenerationError {
    pub reason: String,
}

/// A cursor over one generated value and the simpler values around it.
pub trait ValueTree: Sized {
    /// The type of the values the tree shows.
    type Value;

    /// The value the cursor rests on. Unknown by default.
    open spec fn shown(&self) -> Self::Value {
        arbitrary()
    }

    /// `simplify`, called on `self`, may leave `after` and return `moved`.
    /// By default anything may happen.
    open spec fn simplifies_to(&self, after: Self, moved: bool) -> bool {
        true
    }

    /// `complicate`, called on `self`, may leave `after` and return `moved`.
    /// By default anything may happen.
    open spec fn complicates_to(&self, after: Self, moved: bool) -> bool {
        true
    }

    /// The value the cursor rests on.
    fn current(&self) -> (value: Self::Value)
        ensures
            value == self.shown(),
    ;

    /// Tries one step towards a simpler value; says whether it took one.
    fn simplify(&mut self) -> (moved: bool)
        ensures
            old(self).simplifies_to(*final(self), moved),
    ;

    /// Tries one step back towards the value before the last simplification;
    /// says whether it took one.
    fn complicate(&mut self) -> (moved: bool)
        ensures
            old(self).complicates_to(*final(self), moved),
    ;
}

/// A fixed configuration that turns entropy into value trees.
pub trait Strategy {
    /// The type of the trees the strategy generates.
    type Tree: ValueTree;

    /// `new_value`, called with a runner in state `before`, may leave the
    /// runner in state `after` and return `out`. By default anything may
    /// happen.
    open spec fn generates(
        &self,
        before: u64,
        after: u64,
        out: Result<Self::Tree, GenerationError>,
    ) -> bool {
        true
    }

    /// Generates a tree, drawing from `runner`.
    fn new_value(&self, runner: &mut TestRunner) -> (out: Result<Self::Tree, GenerationError>)
        ensures
            self.generates(old(runner)@, final(runner)@, out),
    ;
}

} // verus!
