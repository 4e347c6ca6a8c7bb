//! Deterministic static analysis of a proposal: a fixed table of
//! destructive shell-command patterns for shell commands, and the
//! workspace containment check for file writes.
//!
//! The shell rules are plain text checks, not shell-aware parsing: they
//! miss split, quoted or substituted variants and can over-match unrelated
//! text holding the same substring. The `-f` flag of a forced push is
//! matched only as a whole whitespace-delimited token, so branch names
//! such as `my-feature-branch` do not trigger it.
use vstd::prelude::*;

use crate::decision::{CapabilityDecision, DecisionView};
use crate::gate_policy::{evaluate_file_write, file_write_decision, outcome_view, Resolved};
use crate::proposal::{Proposal, ProposalView};
use crate::text::{chars_of, contains, contains_chars, has_token, has_token_exec, push_str, string_of};

verus! {

/// The command pipes something into `sh`.
pub open spec fn pipes_to_sh(cmd: Seq<char>) -> bool {
    contains(cmd, "| sh"@) || contains(cmd, "|sh"@)
}

/// The name of the first deny rule `cmd` matches, in table order, if any.
pub open spec fn matched_rule(cmd: Seq<char>) -> Option<Seq<char>> {
    if contains(cmd, "rm -rf"@) {
        Some("recursive forced delete (rm -rf)"@)
    } else if contains(cmd, "curl"@) && pipes_to_sh(cmd) {
        Some("piped remote script execution (curl | sh)"@)
    } else if contains(cmd, "wget"@) && pipes_to_sh(cmd) {
        Some("piped remote script execution (wget | sh)"@)
    } else if contains(cmd, "git push"@) && (contains(cmd, "--force"@) || has_token(cmd, "-f"@)) {
        Some("forced git push (git push --force / -f)"@)
    } else {
        None
    }
}

/// The decision for a shell command: denied naming the first matched
/// deny rule, granted if none matches.
pub open spec fn shell_decision(cmd: Seq<char>) -> DecisionView {
    match matched_rule(cmd) {
        Some(name) => DecisionView::Denied("shell command matched deny pattern: "@ + name),
        None => DecisionView::Granted,
    }
}

/// The static-analysis decision for a proposal: the deny-rule table for a
/// shell command, the workspace containment check for a file write.
pub open spec fn static_decision(p: ProposalView, workspace_root: Seq<char>, resolved: Resolved) -> DecisionView {
    match p {
        ProposalView::ShellCommand { command } => shell_decision(command),
        ProposalView::FileWrite { path, .. } => file_write_decision(
            workspace_root,
            path,
            outcome_view(resolved.root),
            outcome_view(resolved.proposed),
        ),
    }
}

fn literal(s: &str) -> (v: Vec<char>)
    ensures
        v@ == s@,
{
    chars_of(s)
}

/// The name of the first deny rule the command matches, if any.
pub fn matched_deny_rule(command: &str) -> (r: Option<String>)
    ensures
        match matched_rule(command@) {
            Some(name) => r matches Some(s) && s@ == name,
            None => r is None,
        },
{
    let cmd = chars_of(command);
    let pipes = contains_chars(&cmd, &literal("| sh")) || contains_chars(&cmd, &literal("|sh"));
    if contains_chars(&cmd, &literal("rm -rf")) {
        return Some(string_of(&literal("recursive forced delete (rm -rf)")));
    }
    if contains_chars(&cmd, &literal("curl")) && pipes {
        return Some(string_of(&literal("piped remote script execution (curl | sh)")));
    }
    if contains_chars(&cmd, &literal("wget")) && pipes {
        return Some(string_of(&literal("piped remote script execution (wget | sh)")));
    }
    if contains_chars(&cmd, &literal("git push")) && (contains_chars(&cmd, &literal("--force"))
        || has_token_exec(&cmd, &literal("-f"))) {
        return Some(string_of(&literal("forced git push (git push --force / -f)")));
    }
    None
}

/// Deterministic static-analysis verdict for one proposal. Shell commands
/// are checked against the deny-rule table, first match wins; file writes
/// get the workspace containment check, from the resolved forms of
/// `workspace_root` and the proposed path in `resolved`.
pub fn static_analyze(proposal: &Proposal, workspace_root: &str, resolved: &Resolved) -> (d:
    CapabilityDecision)
    ensures
        d@ == static_decision(proposal@, workspace_root@, *resolved),
{
    match proposal {
        Proposal::ShellCommand { command } => match matched_deny_rule(command.as_str()) {
            Some(name) => {
                let mut out: Vec<char> = Vec::new();
                push_str(&mut out, "shell command matched deny pattern: ");
                push_str(&mut out, name.as_str());
                CapabilityDecision::Denied { reason: string_of(&out) }
            },
            None => CapabilityDecision::Granted,
        },
        Proposal::FileWrite { path, .. } => evaluate_file_write(workspace_root, path.as_str(), resolved),
    }
}

/// A forced push is always denied, wherever its parts stand in the
/// command: a command that contains `git push` and also contains
/// `--force` anywhere, or `-f` as a whole whitespace-delimited token, is
/// denied; and when no earlier rule of the table matched, the reason
/// names the forced-push rule.
pub proof fn law_forced_push_is_always_denied(cmd: Seq<char>)
    requires
        contains(cmd, "git push"@),
        contains(cmd, "--force"@) || has_token(cmd, "-f"@),
    ensures
        shell_decision(cmd) is Denied,
        !contains(cmd, "rm -rf"@) && !pipes_to_sh(cmd) ==> shell_decision(cmd) == DecisionView::Denied(
            "shell command matched deny pattern: forced git push (git push --force / -f)"@,
        ),
{
    reveal_strlit("shell command matched deny pattern: ");
    reveal_strlit("forced git push (git push --force / -f)");
    reveal_strlit("shell command matched deny pattern: forced git push (git push --force / -f)");
    assert("shell command matched deny pattern: "@ + "forced git push (git push --force / -f)"@
        =~= "shell command matched deny pattern: forced git push (git push --force / -f)"@);
}

/// A command is denied exactly when some rule of the table matches it:
/// a recursive forced delete, a `curl` or `wget` piped into `sh`, or a
/// forced push; every other command is granted.
pub proof fn law_shell_denied_exactly_on_a_rule(cmd: Seq<char>)
    ensures
        shell_decision(cmd) is Denied <==> {
            ||| contains(cmd, "rm -rf"@)
            ||| (contains(cmd, "curl"@) || contains(cmd, "wget"@)) && (contains(cmd, "| sh"@) || contains(
                cmd,
                "|sh"@,
            ))
            ||| contains(cmd, "git push"@) && (contains(cmd, "--force"@) || has_token(cmd, "-f"@))
        },
{
}

} // verus!
