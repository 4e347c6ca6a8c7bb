//! The attack/defend lab's agents, as decisions: what the attacker does
//! with each queued technique and what it logs, and what the defender
//! concludes from the log and from the real on-disk marker.
//!
//! Only the synthetic proving technique ever executes; every real,
//! ingested technique that the scope grants is still logged as blocked at
//! the execution stage, since no execution path exists for it.
use vstd::prelude::*;

use crate::audit::{event_views, AuditEvent, EventKind, EventView};
use crate::decision::{CapabilityDecision, DecisionView};
use crate::research::{MARKER_CONTENT, SYNTHETIC_SOURCE, SYNTHETIC_TECHNIQUE_ID};
use crate::scope::ScopeConfig;
use crate::text::{contains, matches_at, push_str, same_text, string_of};

verus! {

/// The marker file the synthetic proving technique writes into the lab's
/// declared target directory.
pub const MARKER_FILE_NAME: &'static str = "synthetic-proving-marker.txt";

/// What a granted technique without an execution path logs.
pub const EXECUTION_BLOCKED_DETAIL: &'static str = "capability granted by scope, but this v1 has no wasmtime/WASI-P2 sandbox execution path implemented — test_command was NOT run";

/// Outcome of actually executing the synthetic proving technique.
#[derive(Debug, Clone, PartialEq, Eq)]
pub enum ExecutionOutcome {
    /// The marker was written inside the capability-scoped target.
    Succeeded { detail: String },
    /// The capability check denied the write before any sandbox existed,
    /// or the sandbox rejected it.
    Failed { detail: String },
}

/// Outcome of one attacker attempt. `decision` is only the capability
/// check's result; `outcome_kind` and `detail` are what the attempt
/// logged, which tell a blocked grant from an executed one.
#[derive(Debug)]
pub struct AttackAttempt {
    pub technique_id: String,
    pub guid: String,
    pub decision: CapabilityDecision,
    pub outcome_kind: EventKind,
    pub detail: String,
}

/// The identifier of the first declared `local-directory` target.
pub open spec fn first_local_directory(targets: Seq<crate::scope::Target>) -> Option<Seq<char>>
    decreases targets.len(),
{
    if targets.len() == 0 {
        None
    } else if targets[0].kind@ == "local-directory"@ {
        Some(targets[0].identifier@)
    } else {
        first_local_directory(targets.drop_first())
    }
}

/// The identifier of the lab's declared `local-directory` target (the
/// first one), relative to the workspace root, if the scope declares one.
pub fn local_directory_target(scope: &ScopeConfig) -> (r: Option<String>)
    ensures
        match first_local_directory(scope.environment.targets@) {
            Some(id) => r matches Some(s) && s@ == id,
            None => r is None,
        },
{
    let targets = &scope.environment.targets;
    let mut i: usize = 0;
    assert(targets@.skip(0) =~= targets@);
    while i < targets.len()
        invariant
            i <= targets.len(),
            targets@ == scope.environment.targets@,
            first_local_directory(targets@) == first_local_directory(targets@.skip(i as int)),
        decreases targets.len() - i,
    {
        assert(targets@.skip(i as int)[0] == targets@[i as int]);
        assert(targets@.skip(i as int).drop_first() =~= targets@.skip(i + 1));
        if same_text(targets[i].kind.as_str(), "local-directory") {
            return Some(targets[i].identifier.clone());
        }
        i += 1;
    }
    None
}

/// What the attacker does next with one technique.
#[derive(Debug, Clone, PartialEq, Eq)]
pub enum AttemptStep {
    /// Run the synthetic proving technique in the sandbox.
    Execute,
    /// Log this event kind and detail; nothing runs.
    Log { kind: EventKind, detail: String },
}

/// The attacker's step: execute only a granted synthetic proving technique
/// that has a real target directory; a granted real technique is logged
/// as blocked at the execution stage; a denied one as denied.
pub open spec fn attempt_step_spec(d: DecisionView, source: Seq<char>, has_target: bool) -> Option<
    (EventKind, Seq<char>),
> {
    match d {
        DecisionView::Denied(reason) => Some((EventKind::CapabilityDenied, reason)),
        DecisionView::Granted => if source == SYNTHETIC_SOURCE@ && has_target {
            None
        } else {
            Some((EventKind::ExecutionBlocked, EXECUTION_BLOCKED_DETAIL@))
        },
    }
}

/// The attacker's step for one technique of `source` under `decision`.
pub fn attempt_step(decision: &CapabilityDecision, source: &str, has_target: bool) -> (s: AttemptStep)
    ensures
        match attempt_step_spec(decision@, source@, has_target) {
            None => s is Execute,
            Some((k, d)) => s matches AttemptStep::Log { kind, detail } && kind == k && detail@ == d,
        },
{
    match decision {
        CapabilityDecision::Denied { reason } => AttemptStep::Log {
            kind: EventKind::CapabilityDenied,
            detail: reason.clone(),
        },
        CapabilityDecision::Granted => {
            if same_text(source, SYNTHETIC_SOURCE) && has_target {
                AttemptStep::Execute
            } else {
                AttemptStep::Log {
                    kind: EventKind::ExecutionBlocked,
                    detail: String::from_str(EXECUTION_BLOCKED_DETAIL),
                }
            }
        },
    }
}

/// What an execution logs: its success or failure, or a failure naming a
/// sandbox construction error.
pub open spec fn execution_event_spec(r: Result<(bool, Seq<char>), Seq<char>>) -> (EventKind, Seq<char>) {
    match r {
        Ok((true, d)) => (EventKind::ExecutionSucceeded, d),
        Ok((false, d)) => (EventKind::ExecutionFailed, d),
        Err(e) => (EventKind::ExecutionFailed, "sandbox construction error: "@ + e),
    }
}

/// An execution result as (succeeded, detail), or the construction error.
pub open spec fn execution_view(r: Result<ExecutionOutcome, String>) -> Result<(bool, Seq<char>), Seq<char>> {
    match r {
        Ok(ExecutionOutcome::Succeeded { detail }) => Ok((true, detail@)),
        Ok(ExecutionOutcome::Failed { detail }) => Ok((false, detail@)),
        Err(e) => Err(e@),
    }
}

/// The event an execution of the synthetic proving technique logs.
pub fn execution_event(result: &Result<ExecutionOutcome, String>) -> (r: (EventKind, String))
    ensures
        (r.0, r.1@) == execution_event_spec(execution_view(*result)),
{
    match result {
        Ok(ExecutionOutcome::Succeeded { detail }) => (EventKind::ExecutionSucceeded, detail.clone()),
        Ok(ExecutionOutcome::Failed { detail }) => (EventKind::ExecutionFailed, detail.clone()),
        Err(e) => {
            let mut out: Vec<char> = Vec::new();
            push_str(&mut out, "sandbox construction error: ");
            push_str(&mut out, e.as_str());
            (EventKind::ExecutionFailed, string_of(&out))
        },
    }
}

/// The execution engine's own guard: a marker path outside the workspace
/// fails with the capability check's reason before any sandbox is
/// constructed; a grant lets it proceed (`None`).
pub fn marker_precheck(decision: &CapabilityDecision) -> (r: Option<ExecutionOutcome>)
    ensures
        match decision@ {
            DecisionView::Granted => r is None,
            DecisionView::Denied(reason) => r matches Some(ExecutionOutcome::Failed { detail })
                && detail@ == reason,
        },
{
    match decision {
        CapabilityDecision::Granted => None,
        CapabilityDecision::Denied { reason } => Some(ExecutionOutcome::Failed { detail: reason.clone() }),
    }
}

/// The detail of a successful marker write at `marker_path`.
pub fn marker_written_detail(marker_path: &str) -> (d: String)
    ensures
        d@ == "wrote marker to "@ + marker_path@,
{
    let mut out: Vec<char> = Vec::new();
    push_str(&mut out, "wrote marker to ");
    push_str(&mut out, marker_path);
    string_of(&out)
}

/// The audit-log signal expected for an attempt of `category`.
pub open spec fn expected_signal_spec(category: Seq<char>) -> Seq<char> {
    if category == "T1059"@ {
        "a CapabilityGranted, CapabilityDenied, or ExecutionBlocked event for a Command and Scripting Interpreter attempt"@
    } else if category == "T1078"@ {
        "a CapabilityGranted, CapabilityDenied, or ExecutionBlocked event for a Valid Accounts attempt"@
    } else if category == SYNTHETIC_TECHNIQUE_ID@ {
        "a CapabilityGranted, CapabilityDenied, ExecutionBlocked, ExecutionSucceeded, or ExecutionFailed event for the synthetic proving technique's attempt"@
    } else {
        "a CapabilityGranted, CapabilityDenied, ExecutionBlocked, ExecutionSucceeded, or ExecutionFailed event for this technique's attempt"@
    }
}

/// Fixed, deterministic table of the audit-log signal expected for an
/// attempt of `category`.
pub fn expected_signal(category: &str) -> (r: &'static str)
    ensures
        r@ == expected_signal_spec(category@),
{
    if same_text(category, "T1059") {
        "a CapabilityGranted, CapabilityDenied, or ExecutionBlocked event for a Command and Scripting Interpreter attempt"
    } else if same_text(category, "T1078") {
        "a CapabilityGranted, CapabilityDenied, or ExecutionBlocked event for a Valid Accounts attempt"
    } else if same_text(category, SYNTHETIC_TECHNIQUE_ID) {
        "a CapabilityGranted, CapabilityDenied, ExecutionBlocked, ExecutionSucceeded, or ExecutionFailed event for the synthetic proving technique's attempt"
    } else {
        "a CapabilityGranted, CapabilityDenied, ExecutionBlocked, ExecutionSucceeded, or ExecutionFailed event for this technique's attempt"
    }
}

/// An event kind that shows an attempt was observably made.
pub open spec fn recognized(k: EventKind) -> bool {
    ||| k == EventKind::CapabilityGranted
    ||| k == EventKind::CapabilityDenied
    ||| k == EventKind::ExecutionBlocked
    ||| k == EventKind::ExecutionSucceeded
    ||| k == EventKind::ExecutionFailed
}

/// The latest event about `id` with a recognized kind.
pub open spec fn last_recognized(evs: Seq<EventView>, id: Seq<char>) -> Option<EventView>
    decreases evs.len(),
{
    if evs.len() == 0 {
        None
    } else if evs.last().subject_id == id && recognized(evs.last().kind) {
        Some(evs.last())
    } else {
        last_recognized(evs.drop_last(), id)
    }
}

/// The result of checking one queued technique for its expected signal.
#[derive(Debug)]
pub struct DetectionResult {
    pub technique_id: String,
    pub expected_signal: &'static str,
    pub signal_present: bool,
    /// The log entry that satisfied the check, if any.
    pub referenced_event: Option<AuditEvent>,
}

fn is_recognized(k: EventKind) -> (r: bool)
    ensures
        r == recognized(k),
{
    k == EventKind::CapabilityGranted || k == EventKind::CapabilityDenied || k
        == EventKind::ExecutionBlocked || k == EventKind::ExecutionSucceeded || k
        == EventKind::ExecutionFailed
}

/// The latest logged event about `technique_id` that shows an attempt.
pub fn referenced_event(events: &Vec<AuditEvent>, technique_id: &str) -> (r: Option<AuditEvent>)
    ensures
        match last_recognized(event_views(events@), technique_id@) {
            Some(e) => r matches Some(x) && x@ == e,
            None => r is None,
        },
{
    let ghost evs = event_views(events@);
    let mut i: usize = events.len();
    assert(evs.take(evs.len() as int) =~= evs);
    while i > 0
        invariant
            i <= events.len(),
            evs == event_views(events@),
            last_recognized(evs, technique_id@) == last_recognized(evs.take(i as int), technique_id@),
        decreases i,
    {
        let e = &events[i - 1];
        assert(evs.take(i as int).last() == e@);
        assert(evs.take(i as int).drop_last() =~= evs.take(i - 1));
        if is_recognized(e.kind) && same_text(e.subject_id.as_str(), technique_id) {
            return Some(e.clone());
        }
        i -= 1;
    }
    None
}

/// Whether the marker content read from disk (if the read succeeded) is
/// exactly the expected marker content.
pub fn marker_matches(content: &Option<String>) -> (r: bool)
    ensures
        r == (content matches Some(c) && c@ == MARKER_CONTENT@),
{
    match content {
        Some(c) => same_text(c.as_str(), MARKER_CONTENT),
        None => false,
    }
}

/// The defender's conclusion: for the synthetic proving technique the
/// logged attempt must also have left the real marker on disk; for every
/// other technique the logged attempt alone is the signal.
pub open spec fn signal_spec(source: Seq<char>, event_logged: bool, marker_ok: bool) -> bool {
    if source == SYNTHETIC_SOURCE@ {
        event_logged && marker_ok
    } else {
        event_logged
    }
}

/// Whether the expected signal is present.
pub fn signal_present(source: &str, event_logged: bool, marker_ok: bool) -> (r: bool)
    ensures
        r == signal_spec(source@, event_logged, marker_ok),
{
    if same_text(source, SYNTHETIC_SOURCE) {
        event_logged && marker_ok
    } else {
        event_logged
    }
}

/// The detail the defender logs for a technique: the expected signal and
/// whether it was found.
pub open spec fn detection_text(technique_id: Seq<char>, present: bool) -> Seq<char> {
    "expected signal: "@ + expected_signal_spec(technique_id) + " — present: "@ + (if present {
        "true"@
    } else {
        "false"@
    })
}

/// The text the verifier looks for in a check's detail occurs in the
/// defender's detail exactly when the signal was found.
pub proof fn lemma_detection_text_reports_presence(technique_id: Seq<char>, present: bool)
    ensures
        contains(detection_text(technique_id, present), "present: true"@) == present,
{
    let x = expected_signal_spec(technique_id);
    let s = detection_text(technique_id, present);
    reveal_strlit("expected signal: ");
    reveal_strlit(" — present: ");
    reveal_strlit("true");
    reveal_strlit("false");
    reveal_strlit("present: true");
    if present {
        assert(s.subrange(s.len() - 13, s.len() as int) =~= "present: true"@);
        assert(matches_at(s, "present: true"@, s.len() - 13));
    } else {
        reveal_strlit(
            "a CapabilityGranted, CapabilityDenied, or ExecutionBlocked event for a Command and Scripting Interpreter attempt",
        );
        reveal_strlit(
            "a CapabilityGranted, CapabilityDenied, or ExecutionBlocked event for a Valid Accounts attempt",
        );
        reveal_strlit(
            "a CapabilityGranted, CapabilityDenied, ExecutionBlocked, ExecutionSucceeded, or ExecutionFailed event for the synthetic proving technique's attempt",
        );
        reveal_strlit(
            "a CapabilityGranted, CapabilityDenied, ExecutionBlocked, ExecutionSucceeded, or ExecutionFailed event for this technique's attempt",
        );
        assert(forall|k: int| 0 <= k < x.len() ==> x[k] != ':');
        let p = "expected signal: "@;
        let m = " — present: "@;
        assert(s =~= p + x + m + "false"@);
        assert forall|i: int| !matches_at(s, "present: true"@, i) by {
            if matches_at(s, "present: true"@, i) {
                let w = s.subrange(i, i + 13);
                assert(w[7] == ':' && w[0] == 'p' && w[9] == 't');
                assert(s[i + 7] == ':');
                assert(s[i] == 'p');
                assert(s[i + 9] == 't');
                if i + 7 < p.len() {
                    assert(s[i + 7] == p[i + 7]);
                } else if i + 7 < p.len() + x.len() {
                    assert(s[i + 7] == x[i + 7 - p.len()]);
                } else {
                    assert(s[i + 7] == (m + "false"@)[i + 7 - p.len() - x.len()]);
                }
            }
        }
    }
}

/// The detail the defender logs for one technique.
pub fn detection_detail(technique_id: &str, present: bool) -> (d: String)
    ensures
        d@ == detection_text(technique_id@, present),
{
    let mut out: Vec<char> = Vec::new();
    push_str(&mut out, "expected signal: ");
    push_str(&mut out, expected_signal(technique_id));
    push_str(&mut out, " — present: ");
    if present {
        push_str(&mut out, "true");
    } else {
        push_str(&mut out, "false");
    }
    string_of(&out)
}

/// Whatever an attempt logs is a recognized signal: a denial, a blocked
/// grant, or an execution's success or failure.
pub proof fn law_attempt_logs_a_signal(
    d: DecisionView,
    source: Seq<char>,
    has_target: bool,
    execution: Result<(bool, Seq<char>), Seq<char>>,
)
    ensures
        attempt_step_spec(d, source, has_target) matches Some((k, _)) ==> recognized(k),
        recognized(execution_event_spec(execution).0),
{
}

/// Once an attempt's event about `id` is in the log, the defender finds a
/// logged attempt for `id`; for a technique other than the synthetic one
/// that alone makes the signal present.
pub proof fn law_logged_attempt_is_seen(evs: Seq<EventView>, e: EventView, id: Seq<char>, source: Seq<char>, marker_ok: bool)
    requires
        e.subject_id == id,
        recognized(e.kind),
        source != SYNTHETIC_SOURCE@,
    ensures
        last_recognized(evs.push(e), id) == Some(e),
        signal_spec(source, last_recognized(evs.push(e), id) is Some, marker_ok),
{
    assert(evs.push(e).last() == e);
}

} // verus!
