//! Pi bridge adapter: the companion extension posts every intercepted tool
//! call; this turns it into a proposal and answers with the
//! bridge's own `{granted, reason}` decision.
//!
//! `bash` (`command`), `write` (`path` + `content`) and `edit` (`path` +
//! `edits: [{oldText, newText}]`) are gated; every other tool is an
//! explicit pass-through. An `edit` needs the file's current content:
//! [`plan_proposal`] says which file to read and [`complete_edit`]
//! finishes the proposal from what the read gave.
use vstd::prelude::*;

use crate::audit::{AuditEvent, EventKind, EventView, Timestamp};
use crate::decision::{CapabilityDecision, DecisionView};
use crate::edits::{apply_pi_edits, edit_views, pi_edit_outcome, PiEditFault};
use crate::json::{array_field, get_array, get_str, str_field, JsonValue};
use crate::proposal::{Proposal, ProposalView};
use crate::text::{debug_quoted, decimal, push_signed_decimal, push_str, same_text, signed_decimal, string_of};

verus! {

/// The body the extension posts for one intercepted tool call.
#[derive(Debug)]
pub struct BridgeRequest {
    pub tool_name: String,
    pub input: JsonValue,
    pub cwd: String,
}

/// The bridge's answer to the extension.
#[derive(Debug, Clone, PartialEq, Eq)]
pub struct BridgeDecision {
    pub granted: bool,
    pub reason: String,
}

impl BridgeDecision {
    /// A grant with `reason`.
    pub fn granted(reason: &str) -> (d: BridgeDecision)
        ensures
            d.granted,
            d.reason@ == reason@,
    {
        BridgeDecision { granted: true, reason: String::from_str(reason) }
    }

    /// A denial with `reason`.
    pub fn denied(reason: &str) -> (d: BridgeDecision)
        ensures
            !d.granted,
            d.reason@ == reason@,
    {
        BridgeDecision { granted: false, reason: String::from_str(reason) }
    }
}

/// The bridge answer that relays a capability decision, as (granted,
/// reason).
pub open spec fn decision_for_spec(d: DecisionView) -> (bool, Seq<char>) {
    match d {
        DecisionView::Granted => (true, "gate-pipeline granted this proposal"@),
        DecisionView::Denied(reason) => (false, reason),
    }
}

/// Relays the capability decision as the bridge's answer.
pub fn decision_for(decision: &CapabilityDecision) -> (d: BridgeDecision)
    ensures
        (d.granted, d.reason@) == decision_for_spec(decision@),
{
    match decision {
        CapabilityDecision::Granted => BridgeDecision::granted("gate-pipeline granted this proposal"),
        CapabilityDecision::Denied { reason } => BridgeDecision::denied(reason.as_str()),
    }
}

/// The explicit pass-through answer for a tool this adapter does not gate.
pub fn ungated_decision(tool_name: &str) -> (d: BridgeDecision)
    ensures
        d.granted,
        d.reason@ == "'"@ + tool_name@ + "' is not yet gated by adapter-pi"@,
{
    let mut out: Vec<char> = Vec::new();
    push_str(&mut out, "'");
    push_str(&mut out, tool_name);
    push_str(&mut out, "' is not yet gated by adapter-pi");
    let reason = string_of(&out);
    BridgeDecision::granted(reason.as_str())
}

/// The audit subject for an ungated call: `ungated-<nanoseconds>`.
pub fn ungated_subject_id(now_nanos: i64) -> (id: String)
    ensures
        id@ == "ungated-"@ + signed_decimal(now_nanos as int),
{
    let mut out: Vec<char> = Vec::new();
    push_str(&mut out, "ungated-");
    push_signed_decimal(&mut out, now_nanos);
    string_of(&out)
}

/// The detail logged with the final verdict of one tool call.
pub fn verdict_detail(tool_name: &str, decision: &BridgeDecision) -> (d: String)
    ensures
        d@ == "tool_call for tool '"@ + tool_name@ + "': granted="@ + (if decision.granted {
            "true"@
        } else {
            "false"@
        }) + " ("@ + decision.reason@ + ")"@,
{
    let mut out: Vec<char> = Vec::new();
    push_str(&mut out, "tool_call for tool '");
    push_str(&mut out, tool_name);
    push_str(&mut out, "': granted=");
    if decision.granted {
        push_str(&mut out, "true");
    } else {
        push_str(&mut out, "false");
    }
    push_str(&mut out, " (");
    push_str(&mut out, decision.reason.as_str());
    push_str(&mut out, ")");
    string_of(&out)
}

/// The name this adapter logs its events under.
pub const ACTOR: &'static str = "adapter-pi";

/// The `Verdict` event that records the final decision on one tool call:
/// logged under [`ACTOR`], about `subject_id`, with [`verdict_detail`]'s
/// text.
pub fn verdict_event(timestamp: Timestamp, subject_id: &str, tool_name: &str, decision: &BridgeDecision) -> (e: AuditEvent)
    ensures
        e@ == (EventView {
            timestamp,
            actor: ACTOR@,
            subject_id: subject_id@,
            kind: EventKind::Verdict,
            detail: "tool_call for tool '"@ + tool_name@ + "': granted="@ + (if decision.granted {
                "true"@
            } else {
                "false"@
            }) + " ("@ + decision.reason@ + ")"@,
        }),
{
    AuditEvent {
        timestamp,
        actor: String::from_str(ACTOR),
        subject_id: String::from_str(subject_id),
        kind: EventKind::Verdict,
        detail: verdict_detail(tool_name, decision),
    }
}

/// An `edit` request, before the file it edits has been read.
#[derive(Debug, Clone, PartialEq, Eq)]
pub struct EditRequest {
    pub path: String,
    pub edits: Vec<(String, String)>,
}

/// What translating a tool call needs next.
#[derive(Debug, Clone, PartialEq, Eq)]
pub enum ProposalPlan {
    /// The translation is complete: a proposal, or `None` for an ungated
    /// tool.
    Ready(Option<Proposal>),
    /// The named file must be read before the `edit` can be turned into a
    /// whole-file write.
    ReadForEdit(EditRequest),
}

/// A translation plan with its texts as characters.
pub enum PlanView {
    Ready(Option<ProposalView>),
    ReadForEdit { path: Seq<char>, edits: Seq<(Seq<char>, Seq<char>)> },
}

impl View for ProposalPlan {
    type V = PlanView;

    open spec fn view(&self) -> PlanView {
        match self {
            ProposalPlan::Ready(None) => PlanView::Ready(None),
            ProposalPlan::Ready(Some(p)) => PlanView::Ready(Some(p@)),
            ProposalPlan::ReadForEdit(r) => PlanView::ReadForEdit {
                path: r.path@,
                edits: edit_views(r.edits@),
            },
        }
    }
}

/// The `(oldText, newText)` pairs of the `edits` entries, or the error for
/// the first entry that lacks one of them as a string.
pub open spec fn edit_pairs(entries: Seq<JsonValue>) -> Result<Seq<(Seq<char>, Seq<char>)>, Seq<char>>
    decreases entries.len(),
{
    if entries.len() == 0 {
        Ok(Seq::empty())
    } else {
        match edit_pairs(entries.drop_last()) {
            Err(e) => Err(e),
            Ok(pairs) => match str_field(entries.last(), "oldText"@) {
                None => Err("edits[] entry missing string field 'oldText'"@),
                Some(o) => match str_field(entries.last(), "newText"@) {
                    None => Err("edits[] entry missing string field 'newText'"@),
                    Some(n) => Ok(pairs.push((o, n))),
                },
            },
        }
    }
}

/// The translation of a tool call: a missing or mistyped required field is
/// an error naming it, never a guess; an ungated tool translates to no
/// proposal.
pub open spec fn pi_plan(tool_name: Seq<char>, input: JsonValue) -> Result<PlanView, Seq<char>> {
    if tool_name == "bash"@ {
        match str_field(input, "command"@) {
            Some(c) => Ok(PlanView::Ready(Some(ProposalView::ShellCommand { command: c }))),
            None => Err("bash input missing string field 'command'"@),
        }
    } else if tool_name == "write"@ {
        match str_field(input, "path"@) {
            None => Err("write input missing string field 'path'"@),
            Some(p) => match str_field(input, "content"@) {
                None => Err("write input missing string field 'content'"@),
                Some(c) => Ok(PlanView::Ready(Some(ProposalView::FileWrite { path: p, content: c }))),
            },
        }
    } else if tool_name == "edit"@ {
        match str_field(input, "path"@) {
            None => Err("edit input missing string field 'path'"@),
            Some(p) => match array_field(input, "edits"@) {
                None => Err("edit input missing array field 'edits'"@),
                Some(entries) => match edit_pairs(entries) {
                    Err(e) => Err(e),
                    Ok(pairs) => Ok(PlanView::ReadForEdit { path: p, edits: pairs }),
                },
            },
        }
    } else {
        Ok(PlanView::Ready(None))
    }
}

proof fn lemma_edit_pairs_prefix_err(entries: Seq<JsonValue>, k: int)
    requires
        0 <= k <= entries.len(),
        edit_pairs(entries.take(k)) is Err,
    ensures
        edit_pairs(entries) == edit_pairs(entries.take(k)),
    decreases entries.len() - k,
{
    if k < entries.len() {
        assert(entries.take(k + 1).drop_last() =~= entries.take(k));
        lemma_edit_pairs_prefix_err(entries, k + 1);
    } else {
        assert(entries.take(k) =~= entries);
    }
}

fn missing(msg: &str) -> (r: Result<ProposalPlan, String>)
    ensures
        r matches Err(e) && e@ == msg@,
{
    Err(String::from_str(msg))
}

/// Reads the `(oldText, newText)` pairs out of the `edits` entries.
fn read_edit_pairs(entries: &Vec<JsonValue>) -> (r: Result<Vec<(String, String)>, String>)
    ensures
        match edit_pairs(entries@) {
            Ok(pairs) => r matches Ok(v) && edit_views(v@) == pairs,
            Err(e) => r matches Err(m) && m@ == e,
        },
{
    let mut pairs: Vec<(String, String)> = Vec::new();
    let mut i: usize = 0;
    assert(entries@.take(0) =~= Seq::<JsonValue>::empty());
    assert(edit_views(pairs@) =~= Seq::<(Seq<char>, Seq<char>)>::empty());
    while i < entries.len()
        invariant
            i <= entries.len(),
            edit_pairs(entries@.take(i as int)) == Ok::<Seq<(Seq<char>, Seq<char>)>, Seq<char>>(
                edit_views(pairs@),
            ),
        decreases entries.len() - i,
    {
        assert(entries@.take(i + 1).drop_last() =~= entries@.take(i as int));
        assert(entries@.take(i + 1).last() == entries@[i as int]);
        let entry = &entries[i];
        let old_text = match get_str(entry, "oldText") {
            Some(o) => o,
            None => {
                proof {
                    lemma_edit_pairs_prefix_err(entries@, i + 1);
                }
                return Err(String::from_str("edits[] entry missing string field 'oldText'"));
            },
        };
        let new_text = match get_str(entry, "newText") {
            Some(n) => n,
            None => {
                proof {
                    lemma_edit_pairs_prefix_err(entries@, i + 1);
                }
                return Err(String::from_str("edits[] entry missing string field 'newText'"));
            },
        };
        let ghost before = edit_views(pairs@);
        pairs.push((old_text, new_text));
        assert(edit_views(pairs@) =~= before.push((old_text@, new_text@)));
        i += 1;
    }
    assert(entries@.take(entries.len() as int) =~= entries@);
    Ok(pairs)
}

/// Turns one tool call into a proposal, or into the file read an
/// `edit` needs first.
pub fn plan_proposal(tool_name: &str, input: &JsonValue) -> (r: Result<ProposalPlan, String>)
    ensures
        match pi_plan(tool_name@, *input) {
            Ok(p) => r matches Ok(x) && x@ == p,
            Err(e) => r matches Err(m) && m@ == e,
        },
{
    if same_text(tool_name, "bash") {
        match get_str(input, "command") {
            Some(command) => Ok(ProposalPlan::Ready(Some(Proposal::ShellCommand { command }))),
            None => missing("bash input missing string field 'command'"),
        }
    } else if same_text(tool_name, "write") {
        let path = match get_str(input, "path") {
            Some(p) => p,
            None => return missing("write input missing string field 'path'"),
        };
        let content = match get_str(input, "content") {
            Some(c) => c,
            None => return missing("write input missing string field 'content'"),
        };
        Ok(ProposalPlan::Ready(Some(Proposal::FileWrite { path, content })))
    } else if same_text(tool_name, "edit") {
        let path = match get_str(input, "path") {
            Some(p) => p,
            None => return missing("edit input missing string field 'path'"),
        };
        let entries = match get_array(input, "edits") {
            Some(e) => e,
            None => return missing("edit input missing array field 'edits'"),
        };
        let edits = read_edit_pairs(entries)?;
        Ok(ProposalPlan::ReadForEdit(EditRequest { path, edits }))
    } else {
        Ok(ProposalPlan::Ready(None))
    }
}

/// The outcome of finishing an `edit` from the read of its file: the read
/// error, the replacement error, or a write of the whole resulting content.
pub open spec fn edit_completion(
    path: Seq<char>,
    edits: Seq<(Seq<char>, Seq<char>)>,
    read: Result<Seq<char>, Seq<char>>,
) -> Result<ProposalView, Seq<char>> {
    match read {
        Err(e) => Err("failed to read '"@ + path + "' to reconstruct the edit proposal: "@ + e),
        Ok(content) => match pi_edit_outcome(content, edits) {
            Ok(t) => Ok(ProposalView::FileWrite { path, content: t }),
            Err(PiEditFault::NotFound(t)) => Err("oldText not found in file: "@ + debug_quoted(t)),
            Err(PiEditFault::NotUnique(t, n)) => Err(
                "oldText appears "@ + decimal(n) + " times in the file, must be unique: "@
                    + debug_quoted(t),
            ),
            Err(PiEditFault::Overlap) => Err("edits[] entries overlap, which the schema forbids"@),
        },
    }
}

/// Finishes an `edit` proposal from the read of its file (the content, or
/// the read error's text).
pub fn complete_edit(request: &EditRequest, read: Result<String, String>) -> (r: Result<Proposal, String>)
    ensures
        match edit_completion(
            request.path@,
            edit_views(request.edits@),
            match read {
                Ok(c) => Ok(c@),
                Err(e) => Err(e@),
            },
        ) {
            Ok(p) => r matches Ok(x) && x@ == p,
            Err(e) => r matches Err(m) && m@ == e,
        },
{
    match read {
        Err(e) => {
            let mut out: Vec<char> = Vec::new();
            push_str(&mut out, "failed to read '");
            push_str(&mut out, request.path.as_str());
            push_str(&mut out, "' to reconstruct the edit proposal: ");
            push_str(&mut out, e.as_str());
            Err(string_of(&out))
        },
        Ok(content) => match apply_pi_edits(content.as_str(), request.edits.as_slice()) {
            Ok(new_content) => Ok(Proposal::FileWrite { path: request.path.clone(), content: new_content }),
            Err(err) => Err(err.message()),
        },
    }
}

} // verus!
