//! The novelty feedback.
//!
//! An input is interesting iff its execution introduced at least one
//! previously unseen transition in the state graph.  The decision itself is
//! made here, from the observer's novelty flag; publishing the vertex and
//! edge counts to the monitor bus is the surrounding harness's business.

use vstd::prelude::*;

use crate::observer::StateObserver;

verus! {

/// Decides, after each execution, whether the input that ran is worth
/// keeping: it is iff the named observer saw a new transition.
#[derive(Debug)]
pub struct StateFeedback {
    observer_name: String,
}

impl StateFeedback {
    /// The name of the observer this feedback reads.
    pub closed spec fn spec_observer_name(&self) -> Seq<char> {
        self.observer_name@
    }

    /// Create a new StateFeedback from a StateObserver: the feedback will
    /// look the observer up under its name.
    pub fn new(observer: &StateObserver) -> (r: Self)
        ensures
            r.spec_observer_name() == observer.spec_name(),
    {
        StateFeedback { observer_name: observer.name().to_owned() }
    }

    /// The name under which the observer is looked up.
    pub fn observer_name(&self) -> (r: &str)
        ensures
            r@ == self.spec_observer_name(),
    {
        self.observer_name.as_str()
    }

    /// The decision: the input is interesting iff the observer's execution
    /// produced a transition that was not already in the graph.
    pub fn is_interesting(&self, observer: &StateObserver) -> (r: bool)
        ensures
            r == observer@.fresh,
    {
        observer.had_new_transitions()
    }
}

} // verus!
