//! The final verdict on one proposal, read purely from the evidence the
//! two-stage pipeline logged for it.
use vstd::prelude::*;

use crate::audit::{about, event_views, first_about, first_about_exec, lemma_first_about, AuditEvent, EventKind, EventView};
use crate::decision::{CapabilityDecision, DecisionView};
use crate::text::{push_str, string_of};

verus! {

/// The verdict the evidence about `subject` supports: any denial at any
/// stage (deny pattern, capability, sandbox) denies with that stage's
/// detail, checked in that order; otherwise a clean static analysis or a
/// granted capability grants; with no evidence at all, it denies.
pub open spec fn gate_decision(evs: Seq<EventView>, subject: Seq<char>) -> DecisionView {
    match first_about(evs, subject, EventKind::StaticAnalysisFlagged) {
        Some(e) => DecisionView::Denied(e.detail),
        None => match first_about(evs, subject, EventKind::CapabilityDenied) {
            Some(e) => DecisionView::Denied(e.detail),
            None => match first_about(evs, subject, EventKind::SandboxDryRunDenied) {
                Some(e) => DecisionView::Denied(e.detail),
                None => if first_about(evs, subject, EventKind::StaticAnalysisClean) is Some
                    || first_about(evs, subject, EventKind::CapabilityGranted) is Some {
                    DecisionView::Granted
                } else {
                    DecisionView::Denied(
                        "no evidence found in the audit log for subject "@ + subject,
                    )
                },
            },
        },
    }
}

/// `evs` holds an event about `subject` that records `kind`.
pub open spec fn logged(evs: Seq<EventView>, subject: Seq<char>, kind: EventKind) -> bool {
    exists|i: int| 0 <= i < evs.len() && about(#[trigger] evs[i], subject, kind)
}

/// Nothing is granted by default: a proposal is granted exactly when its
/// evidence holds no denial at any stage and at least one positive
/// result (a clean static analysis or a granted capability check).
/// Events about other subjects never matter.
pub proof fn law_gate_grants_only_on_clean_evidence(evs: Seq<EventView>, subject: Seq<char>)
    ensures
        gate_decision(evs, subject) is Granted <==> {
            &&& !logged(evs, subject, EventKind::StaticAnalysisFlagged)
            &&& !logged(evs, subject, EventKind::CapabilityDenied)
            &&& !logged(evs, subject, EventKind::SandboxDryRunDenied)
            &&& (logged(evs, subject, EventKind::StaticAnalysisClean) || logged(
                evs,
                subject,
                EventKind::CapabilityGranted,
            ))
        },
{
    lemma_first_about(evs, subject, EventKind::StaticAnalysisFlagged);
    lemma_first_about(evs, subject, EventKind::CapabilityDenied);
    lemma_first_about(evs, subject, EventKind::SandboxDryRunDenied);
    lemma_first_about(evs, subject, EventKind::StaticAnalysisClean);
    lemma_first_about(evs, subject, EventKind::CapabilityGranted);
}

/// Deterministic final verdict for one harness-gate proposal, computed
/// only from the logged evidence about `subject_id`.
pub fn evaluate(events: &Vec<AuditEvent>, subject_id: &str) -> (d: CapabilityDecision)
    ensures
        d@ == gate_decision(event_views(events@), subject_id@),
{
    if let Some(i) = first_about_exec(events, subject_id, EventKind::StaticAnalysisFlagged) {
        return CapabilityDecision::Denied { reason: events[i].detail.clone() };
    }
    if let Some(i) = first_about_exec(events, subject_id, EventKind::CapabilityDenied) {
        return CapabilityDecision::Denied { reason: events[i].detail.clone() };
    }
    if let Some(i) = first_about_exec(events, subject_id, EventKind::SandboxDryRunDenied) {
        return CapabilityDecision::Denied { reason: events[i].detail.clone() };
    }
    let clean = first_about_exec(events, subject_id, EventKind::StaticAnalysisClean);
    let granted = first_about_exec(events, subject_id, EventKind::CapabilityGranted);
    if clean.is_some() || granted.is_some() {
        return CapabilityDecision::Granted;
    }
    let mut out: Vec<char> = Vec::new();
    push_str(&mut out, "no evidence found in the audit log for subject ");
    push_str(&mut out, subject_id);
    CapabilityDecision::Denied { reason: string_of(&out) }
}

} // verus!
