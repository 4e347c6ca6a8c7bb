//! Copilot CLI `preToolUse` hook adapter: turns the hook payload into a
//! proposal, and the decision on it into the hook's flat
//! allow/deny output. Only `bash` is gated; `toolArgs` arrives either as a
//! JSON object or as a string holding JSON, and both forms are accepted.
use vstd::prelude::*;

use crate::audit::{AuditEvent, EventKind, EventView, Timestamp};
use crate::decision::{CapabilityDecision, DecisionView};
use crate::json::{get_str, json_debug, json_debug_text, json_parse, str_field, JsonValue};
use crate::proposal::{Proposal, ProposalView};
use crate::text::{push_signed_decimal, push_str, same_text, signed_decimal, string_of};

verus! {

/// The hook's input, as Copilot CLI delivers it on stdin.
#[derive(Debug)]
pub struct HookInput {
    pub session_id: String,
    pub timestamp: i64,
    pub cwd: String,
    pub tool_name: String,
    pub tool_args: JsonValue,
}

/// The hook's output: `permissionDecision` (`allow` or `deny`) and its
/// reason.
#[derive(Debug, Clone, PartialEq, Eq)]
pub struct HookOutput {
    pub permission_decision: String,
    pub permission_decision_reason: String,
}

impl HookOutput {
    /// An `allow` decision with `reason`.
    pub fn allow(reason: &str) -> (o: HookOutput)
        ensures
            o.permission_decision@ == "allow"@,
            o.permission_decision_reason@ == reason@,
    {
        HookOutput {
            permission_decision: String::from_str("allow"),
            permission_decision_reason: String::from_str(reason),
        }
    }

    /// A `deny` decision with `reason`.
    pub fn deny(reason: &str) -> (o: HookOutput)
        ensures
            o.permission_decision@ == "deny"@,
            o.permission_decision_reason@ == reason@,
    {
        HookOutput {
            permission_decision: String::from_str("deny"),
            permission_decision_reason: String::from_str(reason),
        }
    }

    /// Whether the decision is `deny`.
    pub fn is_deny(&self) -> (r: bool)
        ensures
            r == (self.permission_decision@ == "deny"@),
    {
        same_text(self.permission_decision.as_str(), "deny")
    }

    /// The hook's exit code: 2 blocks the tool call, 0 lets it proceed.
    pub fn exit_code(&self) -> (code: i32)
        ensures
            code == if self.permission_decision@ == "deny"@ {
                2i32
            } else {
                0i32
            },
    {
        if self.is_deny() {
            2
        } else {
            0
        }
    }
}

/// The hook output that relays a capability decision, as (decision,
/// reason).
pub open spec fn output_for_spec(d: DecisionView) -> (Seq<char>, Seq<char>) {
    match d {
        DecisionView::Granted => ("allow"@, "gate-pipeline granted this proposal"@),
        DecisionView::Denied(reason) => ("deny"@, reason),
    }
}

/// Relays the capability decision as the hook's output.
pub fn output_for(decision: &CapabilityDecision) -> (o: HookOutput)
    ensures
        (o.permission_decision@, o.permission_decision_reason@) == output_for_spec(decision@),
{
    match decision {
        CapabilityDecision::Granted => HookOutput::allow("gate-pipeline granted this proposal"),
        CapabilityDecision::Denied { reason } => HookOutput::deny(reason.as_str()),
    }
}

/// The explicit pass-through output for a tool this adapter does not gate.
pub fn ungated_output(tool_name: &str) -> (o: HookOutput)
    ensures
        o.permission_decision@ == "allow"@,
        o.permission_decision_reason@ == "'"@ + tool_name@ + "' is not yet gated by adapter-copilot-cli"@,
{
    let mut out: Vec<char> = Vec::new();
    push_str(&mut out, "'");
    push_str(&mut out, tool_name);
    push_str(&mut out, "' is not yet gated by adapter-copilot-cli");
    let reason = string_of(&out);
    HookOutput::allow(reason.as_str())
}

/// The audit subject for an ungated call: `<session>-<timestamp>`, or
/// `ungated-<nanoseconds>` without a session.
pub fn ungated_subject_id(session_id: &str, timestamp: i64, now_nanos: i64) -> (id: String)
    ensures
        id@ == if session_id@.len() == 0 {
            "ungated-"@ + signed_decimal(now_nanos as int)
        } else {
            session_id@ + "-"@ + signed_decimal(timestamp as int)
        },
{
    let mut out: Vec<char> = Vec::new();
    proof {
        reveal_strlit("");
    }
    if same_text(session_id, "") {
        push_str(&mut out, "ungated-");
        push_signed_decimal(&mut out, now_nanos);
        assert(out@ =~= "ungated-"@ + signed_decimal(now_nanos as int));
    } else {
        assert(session_id@.len() != 0) by {
            if session_id@.len() == 0 {
                assert(session_id@ =~= ""@);
            }
        }
        push_str(&mut out, session_id);
        push_str(&mut out, "-");
        push_signed_decimal(&mut out, timestamp);
        assert(out@ =~= session_id@ + "-"@ + signed_decimal(timestamp as int));
    }
    string_of(&out)
}

/// The detail logged with the final verdict of one hook invocation.
pub fn verdict_detail(tool_name: &str, output: &HookOutput) -> (d: String)
    ensures
        d@ == "preToolUse hook for tool '"@ + tool_name@ + "': "@ + output.permission_decision@ + " ("@
            + output.permission_decision_reason@ + ")"@,
{
    let mut out: Vec<char> = Vec::new();
    push_str(&mut out, "preToolUse hook for tool '");
    push_str(&mut out, tool_name);
    push_str(&mut out, "': ");
    push_str(&mut out, output.permission_decision.as_str());
    push_str(&mut out, " (");
    push_str(&mut out, output.permission_decision_reason.as_str());
    push_str(&mut out, ")");
    string_of(&out)
}

/// The name this adapter logs its events under.
pub const ACTOR: &'static str = "adapter-copilot-cli";

/// The `Verdict` event that records the final decision on one hook invocation:
/// logged under [`ACTOR`], about `subject_id`, with [`verdict_detail`]'s
/// text.
pub fn verdict_event(timestamp: Timestamp, subject_id: &str, tool_name: &str, output: &HookOutput) -> (e: AuditEvent)
    ensures
        e@ == (EventView {
            timestamp,
            actor: ACTOR@,
            subject_id: subject_id@,
            kind: EventKind::Verdict,
            detail: "preToolUse hook for tool '"@ + tool_name@ + "': "@ + output.permission_decision@ + " ("@
                + output.permission_decision_reason@ + ")"@,
        }),
{
    AuditEvent {
        timestamp,
        actor: String::from_str(ACTOR),
        subject_id: String::from_str(subject_id),
        kind: EventKind::Verdict,
        detail: verdict_detail(tool_name, output),
    }
}

/// The tool arguments as an object: given inline, or decoded from the
/// JSON text they were sent as.
pub enum ToolArgs<'a> {
    Inline(&'a JsonValue),
    Decoded(JsonValue),
}

impl<'a> ToolArgs<'a> {
    /// The arguments' value.
    pub open spec fn value(&self) -> JsonValue {
        match self {
            ToolArgs::Inline(v) => **v,
            ToolArgs::Decoded(v) => *v,
        }
    }

    fn get(&self) -> (r: &JsonValue)
        ensures
            *r == self.value(),
    {
        match self {
            ToolArgs::Inline(v) => v,
            ToolArgs::Decoded(v) => v,
        }
    }
}

/// What `toolArgs` resolves to: an object stands as it is, a string is
/// decoded as JSON text, anything else is an error naming it.
pub open spec fn resolved_args(tool_args: JsonValue) -> Result<JsonValue, Seq<char>> {
    match tool_args {
        JsonValue::Object(_) => Ok(tool_args),
        JsonValue::Str(s) => match json_parse(s@) {
            Ok(v) => Ok(v),
            Err(e) => Err("toolArgs string did not contain valid JSON: "@ + e),
        },
        _ => Err("toolArgs was neither an object nor a string: "@ + json_debug(tool_args)),
    }
}

/// Resolves `toolArgs`, which Copilot CLI sends either as a JSON object or
/// as a string holding JSON.
pub fn resolve_tool_args(tool_args: &JsonValue) -> (r: Result<ToolArgs<'_>, String>)
    ensures
        match resolved_args(*tool_args) {
            Ok(v) => r matches Ok(a) && a.value() == v,
            Err(e) => r matches Err(m) && m@ == e,
        },
{
    match tool_args {
        JsonValue::Object(_) => Ok(ToolArgs::Inline(tool_args)),
        JsonValue::Str(s) => match JsonValue::parse(s.as_str()) {
            Ok(v) => Ok(ToolArgs::Decoded(v)),
            Err(e) => {
                let mut out: Vec<char> = Vec::new();
                push_str(&mut out, "toolArgs string did not contain valid JSON: ");
                push_str(&mut out, e.as_str());
                Err(string_of(&out))
            },
        },
        _ => {
            let mut out: Vec<char> = Vec::new();
            push_str(&mut out, "toolArgs was neither an object nor a string: ");
            let shown = json_debug_text(tool_args);
            push_str(&mut out, shown.as_str());
            Err(string_of(&out))
        },
    }
}

/// The translation of a hook invocation: `bash` becomes a shell command
/// proposal from its `command` argument; every other tool is ungated.
pub open spec fn copilot_proposal(tool_name: Seq<char>, tool_args: JsonValue) -> Result<
    Option<ProposalView>,
    Seq<char>,
> {
    if tool_name == "bash"@ {
        match resolved_args(tool_args) {
            Err(e) => Err(e),
            Ok(args) => match str_field(args, "command"@) {
                Some(c) => Ok(Some(ProposalView::ShellCommand { command: c })),
                None => Err("bash toolArgs missing string field 'command'"@),
            },
        }
    } else {
        Ok(None)
    }
}

/// Turns a hook invocation into a proposal, for the tools this
/// adapter gates.
pub fn to_proposal(input: &HookInput) -> (r: Result<Option<Proposal>, String>)
    ensures
        match copilot_proposal(input.tool_name@, input.tool_args) {
            Ok(None) => r matches Ok(None),
            Ok(Some(p)) => r matches Ok(Some(x)) && x@ == p,
            Err(e) => r matches Err(m) && m@ == e,
        },
{
    if same_text(input.tool_name.as_str(), "bash") {
        let args = resolve_tool_args(&input.tool_args)?;
        match get_str(args.get(), "command") {
            Some(command) => Ok(Some(Proposal::ShellCommand { command })),
            None => Err(String::from_str("bash toolArgs missing string field 'command'")),
        }
    } else {
        Ok(None)
    }
}

} // verus!
