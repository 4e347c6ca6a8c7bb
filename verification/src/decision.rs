//! The binary capability decision every check in the system produces.
use vstd::prelude::*;

use crate::claude_code;
use crate::copilot_cli;
use crate::pi;

verus! {

/// The result of one capability check: granted, or denied with the reason.
#[derive(Debug, Clone, PartialEq, Eq)]
pub enum CapabilityDecision {
    Granted,
    Denied { reason: String },
}

/// A capability decision, with the denial reason as characters.
pub enum DecisionView {
    Granted,
    Denied(Seq<char>),
}

impl View for CapabilityDecision {
    type V = DecisionView;

    open spec fn view(&self) -> DecisionView {
        match self {
            CapabilityDecision::Granted => DecisionView::Granted,
            CapabilityDecision::Denied { reason } => DecisionView::Denied(reason@),
        }
    }
}

/// Harness-adapter parity: the three adapters relay one decision alike.
/// Each blocks the tool call exactly when the decision is a denial, and
/// all three give the same reason: the denial's own, or the same grant
/// text.
pub proof fn law_adapters_relay_decisions_alike(d: DecisionView)
    ensures
        (claude_code::output_for_spec(d).1 == "deny"@) <==> d is Denied,
        (copilot_cli::output_for_spec(d).0 == "deny"@) <==> d is Denied,
        !pi::decision_for_spec(d).0 <==> d is Denied,
        claude_code::output_for_spec(d).2 == pi::decision_for_spec(d).1,
        copilot_cli::output_for_spec(d).1 == pi::decision_for_spec(d).1,
{
    reveal_strlit("allow");
    reveal_strlit("deny");
    assert("allow"@[0] != "deny"@[0]);
}

} // verus!
