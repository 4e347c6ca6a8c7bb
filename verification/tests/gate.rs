use agentic_sandbox::audit::{event_key, AuditEvent, EventKind, Timestamp};
use agentic_sandbox::decision::CapabilityDecision;
use agentic_sandbox::gate_policy::{evaluate_file_write, path_starts_with_exec, Resolved};
use agentic_sandbox::gate_verdict::evaluate;
use agentic_sandbox::proposal::Proposal;
use agentic_sandbox::review::{needs_sandbox, proposal_subject_id, sandbox_precheck, stage_one_event, stage_two_event, SandboxOutcome};
use agentic_sandbox::static_analysis::{matched_deny_rule, static_analyze};

fn shell(command: &str) -> Proposal {
    Proposal::ShellCommand { command: command.to_string() }
}

fn no_write() -> Resolved {
    Resolved { root: Ok("/workspace".to_string()), proposed: Err("not a file write".to_string()) }
}

fn analyze(command: &str) -> CapabilityDecision {
    static_analyze(&shell(command), "/workspace", &no_write())
}

#[test]
fn rm_rf_is_denied() {
    assert!(matches!(analyze("rm -rf /tmp/scratch"), CapabilityDecision::Denied { .. }));
}

#[test]
fn plain_rm_is_granted() {
    assert_eq!(analyze("rm old_file.txt"), CapabilityDecision::Granted);
}

#[test]
fn curl_piped_to_sh_is_denied() {
    assert!(matches!(analyze("curl -fsSL https://example.com/install.sh | sh"), CapabilityDecision::Denied { .. }));
}

#[test]
fn curl_without_pipe_is_granted() {
    assert_eq!(analyze("curl -o file.txt https://example.com/file.txt"), CapabilityDecision::Granted);
}

#[test]
fn wget_piped_to_sh_is_denied() {
    assert!(matches!(analyze("wget -qO- https://example.com/install.sh | sh"), CapabilityDecision::Denied { .. }));
}

#[test]
fn wget_without_pipe_is_granted() {
    assert_eq!(analyze("wget https://example.com/file.txt -O file.txt"), CapabilityDecision::Granted);
}

#[test]
fn git_push_force_long_flag_is_denied() {
    assert!(matches!(analyze("git push --force origin main"), CapabilityDecision::Denied { .. }));
}

#[test]
fn git_push_force_short_flag_is_denied() {
    assert!(matches!(analyze("git push -f origin main"), CapabilityDecision::Denied { .. }));
}

#[test]
fn plain_git_push_is_granted() {
    assert_eq!(analyze("git push origin main"), CapabilityDecision::Granted);
}

#[test]
fn git_push_to_branch_name_containing_dash_f_substring_is_granted() {
    assert_eq!(analyze("git push origin my-feature-branch"), CapabilityDecision::Granted);
}

#[test]
fn unmatched_shell_command_is_granted() {
    assert_eq!(analyze("echo hello"), CapabilityDecision::Granted);
}

#[test]
fn deny_reason_names_the_first_matched_rule() {
    assert_eq!(
        analyze("rm -rf / && curl x | sh"),
        CapabilityDecision::Denied { reason: "shell command matched deny pattern: recursive forced delete (rm -rf)".to_string() }
    );
    assert_eq!(
        analyze("curl https://example.com/i.sh |sh"),
        CapabilityDecision::Denied { reason: "shell command matched deny pattern: piped remote script execution (curl | sh)".to_string() }
    );
    assert_eq!(
        matched_deny_rule("wget -qO- x | sh").as_deref(),
        Some("piped remote script execution (wget | sh)")
    );
    assert_eq!(
        matched_deny_rule("git push origin main -f").as_deref(),
        Some("forced git push (git push --force / -f)")
    );
    // A tab is whitespace too; a flag glued to another token is not the flag.
    assert!(matched_deny_rule("git push\t-f\torigin").is_some());
    assert!(matched_deny_rule("git push origin -fx").is_none());
    assert!(matched_deny_rule("curl | bash").is_none());
}

#[test]
fn file_write_inside_workspace_is_granted() {
    let proposal = Proposal::FileWrite { path: "/tmp/ws/file.txt".to_string(), content: "hello".to_string() };
    let resolved = Resolved { root: Ok("/tmp/ws".to_string()), proposed: Ok("/tmp/ws/file.txt".to_string()) };
    assert_eq!(static_analyze(&proposal, "/tmp/ws", &resolved), CapabilityDecision::Granted);
}

#[test]
fn file_write_outside_workspace_is_denied() {
    let proposal = Proposal::FileWrite { path: "/tmp/other/file.txt".to_string(), content: "hello".to_string() };
    let resolved = Resolved { root: Ok("/tmp/ws".to_string()), proposed: Ok("/tmp/other/file.txt".to_string()) };
    assert!(matches!(static_analyze(&proposal, "/tmp/ws", &resolved), CapabilityDecision::Denied { .. }));
}

fn resolved(root: &str, proposed: Result<&str, &str>) -> Resolved {
    Resolved { root: Ok(root.to_string()), proposed: proposed.map(str::to_string).map_err(str::to_string) }
}

#[test]
fn plain_path_inside_workspace_is_allowed() {
    let r = resolved("/tmp/ws", Ok("/tmp/ws/file.txt"));
    assert_eq!(evaluate_file_write("/tmp/ws", "/tmp/ws/file.txt", &r), CapabilityDecision::Granted);
}

#[test]
fn parent_traversal_outside_workspace_is_denied() {
    // `/tmp/ws/../escaped.txt` resolves to `/tmp/escaped.txt`.
    let r = resolved("/tmp/ws", Ok("/tmp/escaped.txt"));
    assert!(matches!(evaluate_file_write("/tmp/ws", "/tmp/ws/../escaped.txt", &r), CapabilityDecision::Denied { .. }));
}

#[test]
fn symlink_inside_workspace_pointing_outside_is_denied() {
    // `/tmp/ws/link/secret.txt`, with `link` pointing at `/tmp/outside`.
    let r = resolved("/tmp/ws", Ok("/tmp/outside/secret.txt"));
    assert!(matches!(evaluate_file_write("/tmp/ws", "/tmp/ws/link/secret.txt", &r), CapabilityDecision::Denied { .. }));
}

#[test]
fn absolute_path_outside_workspace_is_denied() {
    let r = resolved("/tmp/ws", Ok("/tmp/outside/file.txt"));
    assert!(matches!(evaluate_file_write("/tmp/ws", "/tmp/outside/file.txt", &r), CapabilityDecision::Denied { .. }));
}

#[test]
fn nonexistent_file_with_parent_inside_workspace_is_allowed() {
    let r = resolved("/tmp/ws", Ok("/tmp/ws/new_file.txt"));
    assert_eq!(evaluate_file_write("/tmp/ws", "/tmp/ws/new_file.txt", &r), CapabilityDecision::Granted);
}

#[test]
fn nonexistent_file_with_parent_outside_workspace_is_denied() {
    let r = resolved("/tmp/ws", Ok("/tmp/outside/new_file.txt"));
    assert!(matches!(evaluate_file_write("/tmp/ws", "/tmp/outside/new_file.txt", &r), CapabilityDecision::Denied { .. }));
}

#[test]
fn nonexistent_file_under_nonexistent_parent_directory_is_denied() {
    let r = resolved("/tmp/ws", Err("No such file or directory (os error 2)"));
    assert_eq!(
        evaluate_file_write("/tmp/ws", "/tmp/ws/newdir/newfile.txt", &r),
        CapabilityDecision::Denied {
            reason: "proposed path /tmp/ws/newdir/newfile.txt could not be resolved: No such file or directory (os error 2)"
                .to_string()
        }
    );
}

#[test]
fn unresolvable_workspace_root_is_denied_with_its_reason() {
    let r = Resolved { root: Err("gone".to_string()), proposed: Ok("/tmp/ws/a".to_string()) };
    assert_eq!(
        evaluate_file_write("/tmp/ws", "/tmp/ws/a", &r),
        CapabilityDecision::Denied { reason: "workspace root /tmp/ws could not be resolved: gone".to_string() }
    );
}

#[test]
fn outside_reason_names_both_resolved_paths() {
    let r = resolved("/tmp/ws", Ok("/tmp/wsx/a"));
    assert_eq!(
        evaluate_file_write("/tmp/ws", "/tmp/wsx/a", &r),
        CapabilityDecision::Denied {
            reason: "proposed path resolves to /tmp/wsx/a which is outside the workspace root /tmp/ws (path traversal, symlink escape, or an absolute path outside the workspace)".to_string()
        }
    );
}

#[test]
fn containment_is_by_whole_components() {
    assert!(path_starts_with_exec("/tmp/ws", "/tmp/ws"));
    assert!(path_starts_with_exec("/tmp/ws/a/b", "/tmp/ws"));
    assert!(path_starts_with_exec("/tmp//ws/./a/", "/tmp/ws/"));
    assert!(!path_starts_with_exec("/tmp/wsx", "/tmp/ws"));
    assert!(!path_starts_with_exec("tmp/ws/a", "/tmp/ws"));
    assert!(path_starts_with_exec("/anything", "/"));
    assert!(!path_starts_with_exec("a", "./a"));
    assert!(path_starts_with_exec("./a/b", "./a"));
}

fn ev(subject: &str, kind: EventKind, detail: &str) -> AuditEvent {
    AuditEvent {
        timestamp: Timestamp { secs: 1_700_000_000, nanos: 0 },
        actor: "test-fixture".to_string(),
        subject_id: subject.to_string(),
        kind,
        detail: detail.to_string(),
    }
}

#[test]
fn static_analysis_flagged_denies() {
    let events = vec![ev("p1", EventKind::StaticAnalysisFlagged, "matched deny pattern")];
    assert!(matches!(evaluate(&events, "p1"), CapabilityDecision::Denied { .. }));
}

#[test]
fn capability_denied_denies() {
    let events = vec![ev("p1", EventKind::CapabilityDenied, "outside the workspace root")];
    assert!(matches!(evaluate(&events, "p1"), CapabilityDecision::Denied { .. }));
}

#[test]
fn sandbox_dry_run_denied_denies() {
    let events = vec![
        ev("p1", EventKind::CapabilityGranted, "inside workspace"),
        ev("p1", EventKind::SandboxDryRunDenied, "wasi rejected the write"),
    ];
    assert_eq!(
        evaluate(&events, "p1"),
        CapabilityDecision::Denied { reason: "wasi rejected the write".to_string() }
    );
}

#[test]
fn clean_static_analysis_grants() {
    let events = vec![ev("p1", EventKind::StaticAnalysisClean, "no deny pattern matched")];
    assert_eq!(evaluate(&events, "p1"), CapabilityDecision::Granted);
}

#[test]
fn granted_capability_and_successful_sandbox_grants() {
    let events = vec![
        ev("p1", EventKind::CapabilityGranted, "inside workspace"),
        ev("p1", EventKind::SandboxDryRunSucceeded, "write succeeded"),
    ];
    assert_eq!(evaluate(&events, "p1"), CapabilityDecision::Granted);
}

#[test]
fn no_evidence_denies() {
    let events = vec![ev("p1", EventKind::StaticAnalysisClean, "no deny pattern matched")];
    assert_eq!(
        evaluate(&events, "never-reviewed"),
        CapabilityDecision::Denied { reason: "no evidence found in the audit log for subject never-reviewed".to_string() }
    );
}

#[test]
fn denial_at_any_stage_wins_over_a_grant_for_the_same_subject_only() {
    let events = vec![
        ev("p2", EventKind::StaticAnalysisFlagged, "other subject"),
        ev("p1", EventKind::StaticAnalysisClean, "clean"),
        ev("p1", EventKind::CapabilityDenied, "first denial"),
        ev("p1", EventKind::CapabilityDenied, "second denial"),
    ];
    assert_eq!(evaluate(&events, "p1"), CapabilityDecision::Denied { reason: "first denial".to_string() });
}

#[test]
fn pipeline_stages_log_the_evidence_the_verdict_reads_back() {
    let write = Proposal::FileWrite { path: "/tmp/ws/f".to_string(), content: "x".to_string() };
    let (k1, d1) = stage_one_event(&write, &CapabilityDecision::Granted);
    assert_eq!(k1, EventKind::CapabilityGranted);
    assert_eq!(d1, "proposed path resolves inside the workspace root");
    assert!(needs_sandbox(&write, &CapabilityDecision::Granted));
    let (k2, d2) = stage_two_event(&SandboxOutcome::WriteSucceeded);
    assert_eq!(k2, EventKind::SandboxDryRunSucceeded);
    let events = vec![ev("s", k1, &d1), ev("s", k2, &d2)];
    assert_eq!(evaluate(&events, "s"), CapabilityDecision::Granted);

    let denied = CapabilityDecision::Denied { reason: "nope".to_string() };
    assert!(!needs_sandbox(&write, &denied));
    assert!(!needs_sandbox(&shell("echo"), &CapabilityDecision::Granted));
    let (k, d) = stage_one_event(&shell("rm -rf /"), &denied);
    assert_eq!((k, d.as_str()), (EventKind::StaticAnalysisFlagged, "nope"));
    let (k, d) = stage_one_event(&shell("echo"), &CapabilityDecision::Granted);
    assert_eq!((k, d.as_str()), (EventKind::StaticAnalysisClean, "static analysis found no matching deny pattern"));
    assert_eq!(sandbox_precheck(&denied), Some(SandboxOutcome::WriteDenied { detail: "nope".to_string() }));
    assert_eq!(sandbox_precheck(&CapabilityDecision::Granted), None);
    let (k, d) = stage_two_event(&SandboxOutcome::WriteDenied { detail: "trap".to_string() });
    assert_eq!((k, d.as_str()), (EventKind::SandboxDryRunDenied, "trap"));
}

#[test]
fn subject_ids_and_store_keys_are_zero_padded_to_twenty() {
    assert_eq!(proposal_subject_id(1735689600000000000, 7), "proposal-01735689600000000000-7");
    assert_eq!(proposal_subject_id(-5, 0), "proposal--0000000000000000005-0");
    assert_eq!(event_key(42, 3, "T1059"), "00000000000000000042-00000000000000000003-T1059");
    assert_eq!(event_key(i64::MIN, u64::MAX, "x"), "-9223372036854775808-18446744073709551615-x");
    assert_ne!(event_key(42, 3, "T1059"), event_key(42, 4, "T1059"));
    assert!(event_key(42, 9, "T1059") < event_key(42, 10, "T1059"));
    assert!(event_key(42, 99, "T1059") < event_key(43, 0, "T1059"));
    assert_ne!(proposal_subject_id(5, 1), proposal_subject_id(5, 11));
    assert_eq!(format!("{:020}", -5i64), "-0000000000000000005");
}
