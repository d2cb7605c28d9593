//! Rules that judge a pending action against the store.

use crate::entity_store::{Action, EntityStore};
use vstd::prelude::*;

verus! {

/// What a rule says of a pending action.
#[derive(Clone, Copy, Debug, PartialEq, Eq, Structural)]
pub enum RuleResult {
    Success,
    Reject,
}

/// A rule that accepts every action.
pub fn test_rule<V>(entity: &EntityStore<V>, action: &Action<V>) -> (result: RuleResult)
    ensures
        result is Success,
{
    RuleResult::Success
}

} // verus!
