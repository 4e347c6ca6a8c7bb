//! `PreToolUse` hook adapter for the terminal coding agent whose hooks
//! take `tool_name`/`tool_input` on stdin: turns the hook payload into a
//! proposal on the way in, and the decision on it into the hook's
//! allow/deny output on the way out. No verdict logic lives here.
//!
//! `Bash` (a `command`), `Write` (`file_path` + full `content`) and `Edit`
//! (`file_path` + `old_string`/`new_string`/`replace_all`) are gated; every
//! other tool is an explicit, disclosed pass-through. An `Edit` is turned
//! into the whole resulting file content, which needs the file's current
//! content: [`plan_proposal`] says which file to read, and
//! [`complete_edit`] finishes the proposal from what the read gave.
use vstd::prelude::*;

use crate::audit::{AuditEvent, EventKind, EventView, Timestamp};
use crate::decision::{CapabilityDecision, DecisionView};
use crate::edits::{apply_edit, edit_outcome, EditError};
use crate::json::{bool_field, get_bool, get_str, str_field, JsonValue};
use crate::proposal::{Proposal, ProposalView};
use crate::text::{push_signed_decimal, push_str, same_text, signed_decimal, string_of};

verus! {

/// The hook's input, as the agent delivers it on stdin.
#[derive(Debug)]
pub struct HookInput {
    pub session_id: String,
    pub prompt_id: String,
    pub cwd: String,
    pub permission_mode: String,
    pub hook_event_name: String,
    pub tool_name: String,
    /// Its shape depends on `tool_name`.
    pub tool_input: JsonValue,
    pub tool_use_id: String,
}

/// The hook's output: `hookSpecificOutput` with the event name, the
/// decision (`allow` or `deny`, never the third documented value, since
/// the capability decision is binary) and its reason.
#[derive(Debug, Clone, PartialEq, Eq)]
pub struct HookOutput {
    pub hook_specific_output: HookSpecificOutput,
}

#[derive(Debug, Clone, PartialEq, Eq)]
pub struct HookSpecificOutput {
    pub hook_event_name: String,
    pub permission_decision: String,
    pub permission_decision_reason: String,
}

/// The output fields as characters: event name, decision, reason.
pub open spec fn output_view(o: HookOutput) -> (Seq<char>, Seq<char>, Seq<char>) {
    (
        o.hook_specific_output.hook_event_name@,
        o.hook_specific_output.permission_decision@,
        o.hook_specific_output.permission_decision_reason@,
    )
}

impl HookOutput {
    /// An `allow` decision with `reason`.
    pub fn allow(reason: &str) -> (o: HookOutput)
        ensures
            output_view(o) == ("PreToolUse"@, "allow"@, reason@),
    {
        HookOutput {
            hook_specific_output: HookSpecificOutput {
                hook_event_name: String::from_str("PreToolUse"),
                permission_decision: String::from_str("allow"),
                permission_decision_reason: String::from_str(reason),
            },
        }
    }

    /// A `deny` decision with `reason`.
    pub fn deny(reason: &str) -> (o: HookOutput)
        ensures
            output_view(o) == ("PreToolUse"@, "deny"@, reason@),
    {
        HookOutput {
            hook_specific_output: HookSpecificOutput {
                hook_event_name: String::from_str("PreToolUse"),
                permission_decision: String::from_str("deny"),
                permission_decision_reason: String::from_str(reason),
            },
        }
    }

    /// Whether the decision is `deny`.
    pub fn is_deny(&self) -> (r: bool)
        ensures
            r == (self.hook_specific_output.permission_decision@ == "deny"@),
    {
        same_text(self.hook_specific_output.permission_decision.as_str(), "deny")
    }

    /// The hook's exit code: 2 blocks the tool call unconditionally, 0 lets
    /// the JSON decision stand.
    pub fn exit_code(&self) -> (code: i32)
        ensures
            code == if self.hook_specific_output.permission_decision@ == "deny"@ {
                2i32
            } else {
                0i32
            },
    {
        if self.is_deny() {
            2
        } else {
            0
        }
    }
}

/// The hook output that relays a capability decision: `allow` for a
/// grant, `deny` with the denial's own reason.
pub open spec fn output_for_spec(d: DecisionView) -> (Seq<char>, Seq<char>, Seq<char>) {
    match d {
        DecisionView::Granted => ("PreToolUse"@, "allow"@, "gate-pipeline granted this proposal"@),
        DecisionView::Denied(reason) => ("PreToolUse"@, "deny"@, reason),
    }
}

/// Relays the capability decision as the hook's output.
pub fn output_for(decision: &CapabilityDecision) -> (o: HookOutput)
    ensures
        output_view(o) == output_for_spec(decision@),
{
    match decision {
        CapabilityDecision::Granted => HookOutput::allow("gate-pipeline granted this proposal"),
        CapabilityDecision::Denied { reason } => HookOutput::deny(reason.as_str()),
    }
}

/// The explicit pass-through output for a tool this adapter does not gate.
pub fn ungated_output(tool_name: &str) -> (o: HookOutput)
    ensures
        output_view(o) == ("PreToolUse"@, "allow"@, "'"@ + tool_name@
            + "' is not yet gated by adapter-cc"@),
{
    let mut out: Vec<char> = Vec::new();
    push_str(&mut out, "'");
    push_str(&mut out, tool_name);
    push_str(&mut out, "' is not yet gated by adapter-cc");
    let reason = string_of(&out);
    HookOutput::allow(reason.as_str())
}

/// The audit subject for an ungated call: the tool use's own id, or
/// `ungated-<nanoseconds>` when it has none.
pub fn ungated_subject_id(tool_use_id: &str, now_nanos: i64) -> (id: String)
    ensures
        id@ == if tool_use_id@.len() == 0 {
            "ungated-"@ + signed_decimal(now_nanos as int)
        } else {
            tool_use_id@
        },
{
    let mut out: Vec<char> = Vec::new();
    proof {
        reveal_strlit("");
    }
    if same_text(tool_use_id, "") {
        push_str(&mut out, "ungated-");
        push_signed_decimal(&mut out, now_nanos);
        assert(out@ =~= "ungated-"@ + signed_decimal(now_nanos as int));
    } else {
        assert(tool_use_id@.len() != 0) by {
            if tool_use_id@.len() == 0 {
                assert(tool_use_id@ =~= ""@);
            }
        }
        push_str(&mut out, tool_use_id);
        assert(out@ =~= tool_use_id@);
    }
    string_of(&out)
}

/// The detail logged with the final verdict of one hook invocation.
pub fn verdict_detail(tool_name: &str, output: &HookOutput) -> (d: String)
    ensures
        d@ == "PreToolUse hook for tool '"@ + tool_name@ + "': "@ + output_view(*output).1 + " ("@
            + output_view(*output).2 + ")"@,
{
    let mut out: Vec<char> = Vec::new();
    push_str(&mut out, "PreToolUse hook for tool '");
    push_str(&mut out, tool_name);
    push_str(&mut out, "': ");
    push_str(&mut out, output.hook_specific_output.permission_decision.as_str());
    push_str(&mut out, " (");
    push_str(&mut out, output.hook_specific_output.permission_decision_reason.as_str());
    push_str(&mut out, ")");
    string_of(&out)
}

/// The name this adapter logs its events under.
pub const ACTOR: &'static str = "adapter-cc";

/// The `Verdict` event that records the final decision on one hook invocation:
/// logged under [`ACTOR`], about `subject_id`, with [`verdict_detail`]'s
/// text.
pub fn verdict_event(timestamp: Timestamp, subject_id: &str, tool_name: &str, output: &HookOutput) -> (e: AuditEvent)
    ensures
        e@ == (EventView {
            timestamp,
            actor: ACTOR@,
            subject_id: subject_id@,
            kind: EventKind::Verdict,
            detail: "PreToolUse hook for tool '"@ + tool_name@ + "': "@ + output_view(*output).1 + " ("@
                + output_view(*output).2 + ")"@,
        }),
{
    AuditEvent {
        timestamp,
        actor: String::from_str(ACTOR),
        subject_id: String::from_str(subject_id),
        kind: EventKind::Verdict,
        detail: verdict_detail(tool_name, output),
    }
}

/// An `Edit` request, before the file it edits has been read.
#[derive(Debug, Clone, PartialEq, Eq)]
pub struct EditRequest {
    pub file_path: String,
    pub old_string: String,
    pub new_string: String,
    pub replace_all: bool,
}

/// What translating a hook invocation needs next.
#[derive(Debug, Clone, PartialEq, Eq)]
pub enum ProposalPlan {
    /// The translation is complete: a proposal, or `None` for an ungated
    /// tool.
    Ready(Option<Proposal>),
    /// The named file must be read before the `Edit` can be turned into a
    /// whole-file write.
    ReadForEdit(EditRequest),
}

/// A translation plan with its texts as characters.
pub enum PlanView {
    Ready(Option<ProposalView>),
    ReadForEdit { file_path: Seq<char>, old: Seq<char>, new: Seq<char>, replace_all: bool },
}

impl View for ProposalPlan {
    type V = PlanView;

    open spec fn view(&self) -> PlanView {
        match self {
            ProposalPlan::Ready(None) => PlanView::Ready(None),
            ProposalPlan::Ready(Some(p)) => PlanView::Ready(Some(p@)),
            ProposalPlan::ReadForEdit(r) => PlanView::ReadForEdit {
                file_path: r.file_path@,
                old: r.old_string@,
                new: r.new_string@,
                replace_all: r.replace_all,
            },
        }
    }
}

/// The translation of a hook invocation: a missing or non-string required
/// field is an error naming it, never a guess; an ungated tool translates
/// to no proposal.
pub open spec fn hook_plan(tool_name: Seq<char>, input: JsonValue) -> Result<PlanView, Seq<char>> {
    if tool_name == "Bash"@ {
        match str_field(input, "command"@) {
            Some(c) => Ok(PlanView::Ready(Some(ProposalView::ShellCommand { command: c }))),
            None => Err("Bash tool_input missing string field 'command'"@),
        }
    } else if tool_name == "Write"@ {
        match str_field(input, "file_path"@) {
            None => Err("Write tool_input missing string field 'file_path'"@),
            Some(p) => match str_field(input, "content"@) {
                None => Err("Write tool_input missing string field 'content'"@),
                Some(c) => Ok(PlanView::Ready(Some(ProposalView::FileWrite { path: p, content: c }))),
            },
        }
    } else if tool_name == "Edit"@ {
        match str_field(input, "file_path"@) {
            None => Err("Edit tool_input missing string field 'file_path'"@),
            Some(p) => match str_field(input, "old_string"@) {
                None => Err("Edit tool_input missing string field 'old_string'"@),
                Some(o) => match str_field(input, "new_string"@) {
                    None => Err("Edit tool_input missing string field 'new_string'"@),
                    Some(n) => Ok(
                        PlanView::ReadForEdit {
                            file_path: p,
                            old: o,
                            new: n,
                            replace_all: match bool_field(input, "replace_all"@) {
                                Some(b) => b,
                                None => false,
                            },
                        },
                    ),
                },
            },
        }
    } else {
        Ok(PlanView::Ready(None))
    }
}

fn missing(msg: &str) -> (r: Result<ProposalPlan, String>)
    ensures
        r matches Err(e) && e@ == msg@,
{
    Err(String::from_str(msg))
}

/// Turns a hook invocation into a proposal, or into the file
/// read an `Edit` needs first.
pub fn plan_proposal(input: &HookInput) -> (r: Result<ProposalPlan, String>)
    ensures
        match hook_plan(input.tool_name@, input.tool_input) {
            Ok(p) => r matches Ok(x) && x@ == p,
            Err(e) => r matches Err(m) && m@ == e,
        },
{
    let args = &input.tool_input;
    let tool = input.tool_name.as_str();
    if same_text(tool, "Bash") {
        match get_str(args, "command") {
            Some(command) => Ok(ProposalPlan::Ready(Some(Proposal::ShellCommand { command }))),
            None => missing("Bash tool_input missing string field 'command'"),
        }
    } else if same_text(tool, "Write") {
        let file_path = match get_str(args, "file_path") {
            Some(p) => p,
            None => return missing("Write tool_input missing string field 'file_path'"),
        };
        let content = match get_str(args, "content") {
            Some(c) => c,
            None => return missing("Write tool_input missing string field 'content'"),
        };
        Ok(ProposalPlan::Ready(Some(Proposal::FileWrite { path: file_path, content })))
    } else if same_text(tool, "Edit") {
        let file_path = match get_str(args, "file_path") {
            Some(p) => p,
            None => return missing("Edit tool_input missing string field 'file_path'"),
        };
        let old_string = match get_str(args, "old_string") {
            Some(o) => o,
            None => return missing("Edit tool_input missing string field 'old_string'"),
        };
        let new_string = match get_str(args, "new_string") {
            Some(n) => n,
            None => return missing("Edit tool_input missing string field 'new_string'"),
        };
        let replace_all = match get_bool(args, "replace_all") {
            Some(b) => b,
            None => false,
        };
        Ok(ProposalPlan::ReadForEdit(EditRequest { file_path, old_string, new_string, replace_all }))
    } else {
        Ok(ProposalPlan::Ready(None))
    }
}

/// The outcome of finishing an `Edit` from the read of its file: the read
/// error, the replacement error, or a write of the whole resulting content.
pub open spec fn edit_completion(
    file_path: Seq<char>,
    old: Seq<char>,
    new: Seq<char>,
    replace_all: bool,
    read: Result<Seq<char>, Seq<char>>,
) -> Result<ProposalView, Seq<char>> {
    match read {
        Err(e) => Err(
            "failed to read '"@ + file_path + "' to reconstruct the Edit proposal: "@ + e,
        ),
        Ok(content) => match edit_outcome(content, old, new, replace_all) {
            Ok(t) => Ok(ProposalView::FileWrite { path: file_path, content: t }),
            Err(EditError::OldStringNotFound) => Err("old_string not found in file"@),
            Err(EditError::OldStringAmbiguous { count }) => Err(
                "old_string appears "@ + crate::text::decimal(count as nat)
                    + " times in the file; ambiguous without replace_all"@,
            ),
        },
    }
}

/// Finishes an `Edit` proposal from the read of its file (the content, or
/// the read error's text).
pub fn complete_edit(request: &EditRequest, read: Result<String, String>) -> (r: Result<Proposal, String>)
    ensures
        match edit_completion(
            request.file_path@,
            request.old_string@,
            request.new_string@,
            request.replace_all,
            match read {
                Ok(c) => Ok(c@),
                Err(e) => Err(e@),
            },
        ) {
            Ok(p) => r matches Ok(x) && x@ == p,
            Err(e) => r matches Err(m) && m@ == e,
        },
{
    match read {
        Err(e) => {
            let mut out: Vec<char> = Vec::new();
            push_str(&mut out, "failed to read '");
            push_str(&mut out, request.file_path.as_str());
            push_str(&mut out, "' to reconstruct the Edit proposal: ");
            push_str(&mut out, e.as_str());
            Err(string_of(&out))
        },
        Ok(content) => match apply_edit(
            content.as_str(),
            request.old_string.as_str(),
            request.new_string.as_str(),
            request.replace_all,
        ) {
            Ok(new_content) => Ok(
                Proposal::FileWrite { path: request.file_path.clone(), content: new_content },
            ),
            Err(err) => Err(err.message()),
        },
    }
}

} // verus!
