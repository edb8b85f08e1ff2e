//! Strategy selection: single-pass versus multi-level summarization,
//! decided by provider capability and estimated transcript size.

use vstd::prelude::*;
use crate::estimator::{estimated_tokens, rough_token_count};

verus! {

/// What the LLM backend can take in one call: effectively unbounded
/// context (cloud providers), or a bounded context window (locally
/// hosted models). This classification, not the provider's identity,
/// drives strategy selection.
#[derive(Clone, Copy, Debug, PartialEq, Eq, Structural)]
pub enum ProviderCapability {
    UnboundedContext,
    BoundedContext,
}

/// How the transcript will be summarized: whole in one call, or
/// chunk-by-chunk with a combination pass.
#[derive(Clone, Copy, Debug, PartialEq, Eq, Structural)]
pub enum Strategy {
    SinglePass,
    MultiLevel,
}

/// The strategy rule: single-pass whenever the provider's context is
/// unbounded or the text is estimated below the token threshold.
pub open spec fn strategy_for(cap: ProviderCapability, est: int, threshold: int) -> Strategy {
    if cap == ProviderCapability::UnboundedContext || est < threshold {
        Strategy::SinglePass
    } else {
        Strategy::MultiLevel
    }
}

/// Picks single-pass or multi-level summarization for a text.
pub fn select_strategy(cap: ProviderCapability, text: &str, token_threshold: usize) -> (r:
    Strategy)
    ensures
        r == strategy_for(cap, estimated_tokens(text@), token_threshold as int),
        cap == ProviderCapability::UnboundedContext ==> r == Strategy::SinglePass,
        r == Strategy::SinglePass <==> (cap == ProviderCapability::UnboundedContext
            || estimated_tokens(text@) < token_threshold),
{
    if cap == ProviderCapability::UnboundedContext {
        Strategy::SinglePass
    } else if rough_token_count(text) < token_threshold {
        Strategy::SinglePass
    } else {
        Strategy::MultiLevel
    }
}

/// The decision boundary: an unbounded-context provider always gets
/// single-pass; a bounded one gets single-pass strictly below the
/// threshold and multi-level from the threshold up.
pub proof fn lemma_strategy_boundary(est: int, threshold: int)
    ensures
        forall|e: int| strategy_for(ProviderCapability::UnboundedContext, e, threshold)
            == Strategy::SinglePass,
        est < threshold ==> strategy_for(ProviderCapability::BoundedContext, est, threshold)
            == Strategy::SinglePass,
        est >= threshold ==> strategy_for(ProviderCapability::BoundedContext, est, threshold)
            == Strategy::MultiLevel,
{
}

} // verus!
