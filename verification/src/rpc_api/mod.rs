//! The results that subscriptions deliver.
use vstd::prelude::*;

pub mod state;

use state::{StateStorageResult, StateStorageResultView};

verus! {

/// What a subscription notification carries.
#[derive(Debug)]
pub enum SubscribedResult {
    StateStorageResult(StateStorageResult),
}

/// A subscription result taken as a value.
pub enum SubscribedResultView {
    StateStorageResult(StateStorageResultView),
}

impl View for SubscribedResult {
    type V = SubscribedResultView;

    open spec fn view(&self) -> SubscribedResultView {
        match self {
            SubscribedResult::StateStorageResult(r) => SubscribedResultView::StateStorageResult(r@),
        }
    }
}

impl SubscribedResult {
    /// A copy of the result.
    pub fn duplicate(&self) -> (r: SubscribedResult)
        ensures
            r@ == self@,
    {
        match self {
            SubscribedResult::StateStorageResult(s) => SubscribedResult::StateStorageResult(s.duplicate()),
        }
    }
}

} // verus!
