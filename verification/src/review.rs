//! The two-stage pipeline one proposal goes through, as the evidence it
//! logs: stage one (static analysis, always) and stage two (the sandbox
//! dry-run write, for a file write that stage one granted, and only
//! then). The pipeline never decides; the verdict module reads this
//! evidence back and decides.
use vstd::prelude::*;

use crate::audit::{about, first_about, EventKind, EventView, Timestamp};
use crate::decision::{CapabilityDecision, DecisionView};
use crate::gate_verdict::gate_decision;
use crate::proposal::{Proposal, ProposalView};
use crate::text::{
    decimal, lemma_decimal_value, lemma_zero_padded, pow10, push_decimal, push_str, push_zero_padded,
    string_of, zero_padded,
};

verus! {

/// The subject a review tags its evidence with: the time in nanoseconds,
/// zero-padded to twenty characters, and a per-process sequence number
/// that keeps two reviews in the same nanosecond apart.
pub fn proposal_subject_id(nanos: i64, seq: u64) -> (id: String)
    ensures
        id@ == "proposal-"@ + zero_padded(nanos as int, 20) + "-"@ + decimal(seq as nat),
{
    let mut out: Vec<char> = Vec::new();
    push_str(&mut out, "proposal-");
    push_zero_padded(&mut out, nanos, 20);
    push_str(&mut out, "-");
    push_decimal(&mut out, seq);
    assert(out@ =~= "proposal-"@ + zero_padded(nanos as int, 20) + "-"@ + decimal(seq as nat));
    string_of(&out)
}

/// Two reviews never share a subject: ids made at distinct times, or with
/// distinct sequence numbers, are distinct.
pub proof fn law_proposal_subject_ids_are_distinct(nanos1: i64, seq1: u64, nanos2: i64, seq2: u64)
    requires
        nanos1 != nanos2 || seq1 != seq2,
    ensures
        "proposal-"@ + zero_padded(nanos1 as int, 20) + "-"@ + decimal(seq1 as nat) != "proposal-"@
            + zero_padded(nanos2 as int, 20) + "-"@ + decimal(seq2 as nat),
{
    assert(pow10(19) == 10000000000000000000nat && pow10(20) == 100000000000000000000nat) by {
        reveal_with_fuel(pow10, 21);
    }
    lemma_zero_padded(nanos1 as int);
    lemma_zero_padded(nanos2 as int);
    lemma_decimal_value(seq1 as nat);
    lemma_decimal_value(seq2 as nat);
    let a = "proposal-"@ + zero_padded(nanos1 as int, 20) + "-"@ + decimal(seq1 as nat);
    let b = "proposal-"@ + zero_padded(nanos2 as int, 20) + "-"@ + decimal(seq2 as nat);
    if a == b {
        reveal_strlit("proposal-");
        reveal_strlit("-");
        assert(a.subrange(9, 29) =~= zero_padded(nanos1 as int, 20));
        assert(b.subrange(9, 29) =~= zero_padded(nanos2 as int, 20));
        assert(a.subrange(30, a.len() as int) =~= decimal(seq1 as nat));
        assert(b.subrange(30, b.len() as int) =~= decimal(seq2 as nat));
    }
}

/// Outcome of one sandboxed dry-run write.
#[derive(Debug, Clone, PartialEq, Eq)]
pub enum SandboxOutcome {
    /// The write succeeded inside the preopened scratch boundary.
    WriteSucceeded,
    /// The capability check denied the write before any sandbox existed
    /// (its reason unchanged), or the sandbox itself rejected it.
    WriteDenied { detail: String },
}

/// A sandbox outcome with its text as characters.
pub enum SandboxView {
    WriteSucceeded,
    WriteDenied(Seq<char>),
}

impl View for SandboxOutcome {
    type V = SandboxView;

    open spec fn view(&self) -> SandboxView {
        match self {
            SandboxOutcome::WriteSucceeded => SandboxView::WriteSucceeded,
            SandboxOutcome::WriteDenied { detail } => SandboxView::WriteDenied(detail@),
        }
    }
}

/// The evidence stage one logs: a deny-pattern result for a shell command,
/// a capability result for a file write.
pub open spec fn stage_one_spec(p: ProposalView, d: DecisionView) -> (EventKind, Seq<char>) {
    match (p, d) {
        (ProposalView::ShellCommand { .. }, DecisionView::Granted) => (
            EventKind::StaticAnalysisClean,
            "static analysis found no matching deny pattern"@,
        ),
        (ProposalView::ShellCommand { .. }, DecisionView::Denied(r)) => (
            EventKind::StaticAnalysisFlagged,
            r,
        ),
        (ProposalView::FileWrite { .. }, DecisionView::Granted) => (
            EventKind::CapabilityGranted,
            "proposed path resolves inside the workspace root"@,
        ),
        (ProposalView::FileWrite { .. }, DecisionView::Denied(r)) => (EventKind::CapabilityDenied, r),
    }
}

/// The evidence stage two logs for a dry-run outcome.
pub open spec fn stage_two_spec(o: SandboxView) -> (EventKind, Seq<char>) {
    match o {
        SandboxView::WriteSucceeded => (
            EventKind::SandboxDryRunSucceeded,
            "dry-run write succeeded inside the scratch capability boundary"@,
        ),
        SandboxView::WriteDenied(d) => (EventKind::SandboxDryRunDenied, d),
    }
}

/// Stage two runs exactly for a file write that stage one granted.
pub open spec fn sandbox_stage_runs(p: ProposalView, d: DecisionView) -> bool {
    p is FileWrite && d is Granted
}

/// The event kind and detail stage one logs for `proposal` given the
/// static-analysis decision.
pub fn stage_one_event(proposal: &Proposal, decision: &CapabilityDecision) -> (r: (EventKind, String))
    ensures
        (r.0, r.1@) == stage_one_spec(proposal@, decision@),
{
    match (proposal, decision) {
        (Proposal::ShellCommand { .. }, CapabilityDecision::Granted) => (
            EventKind::StaticAnalysisClean,
            String::from_str("static analysis found no matching deny pattern"),
        ),
        (Proposal::ShellCommand { .. }, CapabilityDecision::Denied { reason }) => (
            EventKind::StaticAnalysisFlagged,
            reason.clone(),
        ),
        (Proposal::FileWrite { .. }, CapabilityDecision::Granted) => (
            EventKind::CapabilityGranted,
            String::from_str("proposed path resolves inside the workspace root"),
        ),
        (Proposal::FileWrite { .. }, CapabilityDecision::Denied { reason }) => (
            EventKind::CapabilityDenied,
            reason.clone(),
        ),
    }
}

/// Whether the pipeline goes on to the sandbox dry-run: only for a file write
/// that stage one granted.
pub fn needs_sandbox(proposal: &Proposal, decision: &CapabilityDecision) -> (r: bool)
    ensures
        r == sandbox_stage_runs(proposal@, decision@),
{
    match (proposal, decision) {
        (Proposal::FileWrite { .. }, CapabilityDecision::Granted) => true,
        _ => false,
    }
}

/// The event kind and detail stage two logs for a dry-run outcome.
pub fn stage_two_event(outcome: &SandboxOutcome) -> (r: (EventKind, String))
    ensures
        (r.0, r.1@) == stage_two_spec(outcome@),
{
    match outcome {
        SandboxOutcome::WriteSucceeded => (
            EventKind::SandboxDryRunSucceeded,
            String::from_str("dry-run write succeeded inside the scratch capability boundary"),
        ),
        SandboxOutcome::WriteDenied { detail } => (EventKind::SandboxDryRunDenied, detail.clone()),
    }
}

/// The dry-run's own guard: a denied capability check ends the dry-run
/// with that reason before any sandbox is constructed; a grant lets it
/// proceed (`None`).
pub fn sandbox_precheck(decision: &CapabilityDecision) -> (r: Option<SandboxOutcome>)
    ensures
        match decision@ {
            DecisionView::Granted => r is None,
            DecisionView::Denied(reason) => r matches Some(o) && o@ == SandboxView::WriteDenied(reason),
        },
{
    match decision {
        CapabilityDecision::Granted => None,
        CapabilityDecision::Denied { reason } => Some(SandboxOutcome::WriteDenied { detail: reason.clone() }),
    }
}

/// An event about `subject` with the given kind and detail.
pub open spec fn event_of(
    at: Timestamp,
    actor: Seq<char>,
    subject: Seq<char>,
    e: (EventKind, Seq<char>),
) -> EventView {
    EventView { timestamp: at, actor, subject_id: subject, kind: e.0, detail: e.1 }
}

/// The verdict the pipeline's own evidence calls for: the static-analysis
/// decision, unless the dry-run then denied the write.
pub open spec fn reviewed_verdict(p: ProposalView, d: DecisionView, o: SandboxView) -> DecisionView {
    if sandbox_stage_runs(p, d) {
        match o {
            SandboxView::WriteSucceeded => DecisionView::Granted,
            SandboxView::WriteDenied(detail) => DecisionView::Denied(detail),
        }
    } else {
        d
    }
}

proof fn lemma_first_about_append(
    prior: Seq<EventView>,
    tail: Seq<EventView>,
    subject: Seq<char>,
    kind: EventKind,
)
    requires
        forall|i: int| 0 <= i < prior.len() ==> (#[trigger] prior[i]).subject_id != subject,
    ensures
        first_about(prior + tail, subject, kind) == first_about(tail, subject, kind),
    decreases prior.len(),
{
    if prior.len() > 0 {
        assert((prior + tail).drop_first() =~= prior.drop_first() + tail);
        assert((prior + tail)[0] == prior[0]);
        lemma_first_about_append(prior.drop_first(), tail, subject, kind);
    } else {
        assert(prior + tail =~= tail);
    }
}

proof fn lemma_first_about_short(tail: Seq<EventView>, subject: Seq<char>, kind: EventKind)
    requires
        tail.len() <= 2,
        forall|i: int| 0 <= i < tail.len() ==> (#[trigger] tail[i]).subject_id == subject,
    ensures
        first_about(tail, subject, kind) == if tail.len() > 0 && tail[0].kind == kind {
            Some(tail[0])
        } else if tail.len() > 1 && tail[1].kind == kind {
            Some(tail[1])
        } else {
            None::<EventView>
        },
{
    reveal_with_fuel(first_about, 3);
    if tail.len() > 0 {
        assert(tail.drop_first().len() == tail.len() - 1);
        if tail.len() > 1 {
            assert(tail.drop_first()[0] == tail[1]);
            assert(tail.drop_first().drop_first().len() == 0);
        }
    }
}

/// The verdict read back from the pipeline's evidence is the one that
/// evidence calls for: whatever else the log holds, as long as nothing
/// else is about the freshly generated subject, a shell command
/// gets its static-analysis decision, a denied file write is denied with
/// the capability check's reason, and a granted file write is granted if
/// its dry-run succeeded and denied with the dry-run's detail otherwise.
pub proof fn law_gate_verdict_follows_review(
    prior: Seq<EventView>,
    subject: Seq<char>,
    at: Timestamp,
    actor: Seq<char>,
    p: ProposalView,
    d: DecisionView,
    o: SandboxView,
)
    requires
        forall|i: int| 0 <= i < prior.len() ==> (#[trigger] prior[i]).subject_id != subject,
    ensures
        gate_decision(
            prior + seq![event_of(at, actor, subject, stage_one_spec(p, d))] + (if sandbox_stage_runs(
                p,
                d,
            ) {
                seq![event_of(at, actor, subject, stage_two_spec(o))]
            } else {
                Seq::empty()
            }),
            subject,
        ) == reviewed_verdict(p, d, o),
{
    let e1 = event_of(at, actor, subject, stage_one_spec(p, d));
    let tail = seq![e1] + (if sandbox_stage_runs(p, d) {
        seq![event_of(at, actor, subject, stage_two_spec(o))]
    } else {
        Seq::<EventView>::empty()
    });
    let all = prior + seq![e1] + (if sandbox_stage_runs(p, d) {
        seq![event_of(at, actor, subject, stage_two_spec(o))]
    } else {
        Seq::<EventView>::empty()
    });
    assert(all =~= prior + tail);
    lemma_first_about_short(tail, subject, EventKind::StaticAnalysisFlagged);
    lemma_first_about_short(tail, subject, EventKind::CapabilityDenied);
    lemma_first_about_short(tail, subject, EventKind::SandboxDryRunDenied);
    lemma_first_about_short(tail, subject, EventKind::StaticAnalysisClean);
    lemma_first_about_short(tail, subject, EventKind::CapabilityGranted);
    lemma_first_about_append(prior, tail, subject, EventKind::StaticAnalysisFlagged);
    lemma_first_about_append(prior, tail, subject, EventKind::CapabilityDenied);
    lemma_first_about_append(prior, tail, subject, EventKind::SandboxDryRunDenied);
    lemma_first_about_append(prior, tail, subject, EventKind::StaticAnalysisClean);
    lemma_first_about_append(prior, tail, subject, EventKind::CapabilityGranted);
    assert(tail[0] == e1);
    assert(tail.drop_first() =~= (if sandbox_stage_runs(p, d) {
        seq![event_of(at, actor, subject, stage_two_spec(o))]
    } else {
        Seq::<EventView>::empty()
    }));
    if sandbox_stage_runs(p, d) {
        let e2 = event_of(at, actor, subject, stage_two_spec(o));
        assert(tail.drop_first().drop_first() =~= Seq::<EventView>::empty());
        assert(tail.drop_first()[0] == e2);
    }
}

} // verus!
