use agentic_sandbox::audit::{AuditEvent, EventKind, Timestamp};
use agentic_sandbox::broker::{evaluate, timestamp_text, TargetResolution};
use agentic_sandbox::decision::CapabilityDecision;
use agentic_sandbox::lab::{
    attempt_step, detection_detail, execution_event, expected_signal, local_directory_target, marker_matches,
    marker_precheck, marker_written_detail, referenced_event, signal_present, AttemptStep, ExecutionOutcome,
    EXECUTION_BLOCKED_DETAIL,
};
use agentic_sandbox::research::{
    found_outcome, ingest_allowed, is_excluded, not_found_outcome, synthetic_proving_technique, trim_text,
    AtomicTest, IngestReport, MARKER_CONTENT, SYNTHETIC_SOURCE,
};
use agentic_sandbox::scope::{
    Environment, Exclusions, ScopeConfig, Target, Techniques, Validity,
};
use agentic_sandbox::verdict::{verify, Verdict};

const JAN_2020: i64 = 1577836800;
const JAN_2025: i64 = 1735689600;
const JAN_2099: i64 = 4070908800;
const JAN_2100: i64 = 4102444800;

fn at(secs: i64) -> Timestamp {
    Timestamp { secs, nanos: 0 }
}

fn strings(items: &[&str]) -> Vec<String> {
    items.iter().map(|s| s.to_string()).collect()
}

fn valid_window_scope() -> ScopeConfig {
    ScopeConfig {
        environment: Environment { name: "test-lab".to_string(), account: None, network: None, targets: Vec::new() },
        techniques: Techniques {
            allowed_categories: strings(&["T1059"]),
            allowed_sources: strings(&["atomic-red-team"]),
        },
        exclusions: Exclusions { technique_categories: strings(&["T1499"]), ..Exclusions::default() },
        validity: Some(Validity { starts_at: at(JAN_2020), ends_at: at(JAN_2099) }),
    }
}

#[test]
fn synthetic_technique_is_clearly_labeled_and_distinct_from_real_sources() {
    let technique = synthetic_proving_technique();

    assert_eq!(technique.id, "SYNTH-0001");
    assert_eq!(technique.source, SYNTHETIC_SOURCE);
    assert_ne!(technique.source, "atomic-red-team");
    assert_eq!(technique.platform, "wasm");
    assert!(technique.description.contains("NOT a real attack technique"));
}

#[test]
fn synthetic_technique_command_quotes_the_marker_content() {
    let technique = synthetic_proving_technique();
    assert_eq!(technique.test_command, format!("(synthetic, not literal shell text) write marker {MARKER_CONTENT:?}"));
}

#[test]
fn expired_validity_window_denies_before_any_other_check() {
    let scope = valid_window_scope();
    let decision = evaluate(&scope, "T1059", None, at(JAN_2100));
    assert!(matches!(decision, CapabilityDecision::Denied { .. }));
}

#[test]
fn expired_window_reason_shows_the_time_as_chrono_displays_it() {
    let scope = valid_window_scope();
    let decision = evaluate(&scope, "T1059", None, at(JAN_2100));
    assert_eq!(
        decision,
        CapabilityDecision::Denied {
            reason: "lab scope validity window does not cover 2100-01-01 00:00:00 UTC — the scope is expired, not yet active, or (per lab/scope.toml's header) still an unpopulated placeholder".to_string()
        }
    );
}

#[test]
fn excluded_category_is_denied_even_within_a_valid_window() {
    let scope = valid_window_scope();
    let decision = evaluate(&scope, "T1499", None, at(JAN_2025));
    match decision {
        CapabilityDecision::Denied { reason } => assert!(reason.contains("excluded")),
        CapabilityDecision::Granted => panic!("T1499 is explicitly excluded and must never be granted"),
    }
}

#[test]
fn exclusion_wins_even_when_the_category_is_also_allowed() {
    let mut scope = valid_window_scope();
    scope.techniques.allowed_categories.push("T1499".to_string());
    assert_eq!(
        evaluate(&scope, "T1499", None, at(JAN_2025)),
        CapabilityDecision::Denied {
            reason: "category T1499 is explicitly excluded in lab/scope.toml's [exclusions]".to_string()
        }
    );
    assert!(!scope.allows_category("T1499"));
}

#[test]
fn category_not_in_allowlist_is_denied() {
    let scope = valid_window_scope();
    let decision = evaluate(&scope, "T9999", None, at(JAN_2025));
    assert!(matches!(decision, CapabilityDecision::Denied { .. }));
}

#[test]
fn allowed_non_excluded_category_within_a_valid_window_is_granted() {
    let scope = valid_window_scope();
    let decision = evaluate(&scope, "T1059", None, at(JAN_2025));
    assert_eq!(decision, CapabilityDecision::Granted);
}

#[test]
fn validity_window_includes_both_ends_and_open_scope_is_always_valid() {
    let mut scope = valid_window_scope();
    assert!(scope.is_temporally_valid(at(JAN_2020)));
    assert!(scope.is_temporally_valid(at(JAN_2099)));
    assert!(!scope.is_temporally_valid(Timestamp { secs: JAN_2099, nanos: 1 }));
    assert!(!scope.is_temporally_valid(at(JAN_2020 - 1)));
    scope.validity = None;
    assert!(scope.is_temporally_valid(at(JAN_2100)));
}

#[test]
fn timestamp_text_formats_utc_time() {
    assert_eq!(timestamp_text(at(JAN_2025)), "2025-01-01 00:00:00 UTC");
}

fn event(subject: &str, kind: EventKind, detail: &str) -> AuditEvent {
    AuditEvent {
        timestamp: at(JAN_2025),
        actor: "test-fixture".to_string(),
        subject_id: subject.to_string(),
        kind,
        detail: detail.to_string(),
    }
}

#[test]
fn synthetic_grant_with_signal_present_yields_detected() {
    let events = vec![
        event("T9001", EventKind::CapabilityGranted, "synthetic grant for test"),
        event("T9001", EventKind::DetectionChecked, "expected signal: synthetic — present: true"),
    ];
    let records = verify(&events);
    assert_eq!(records.len(), 1);
    assert_eq!(records[0].verdict, Verdict::Detected);
}

#[test]
fn synthetic_grant_with_signal_absent_yields_missed() {
    let events = vec![
        event("T9002", EventKind::CapabilityGranted, "synthetic grant for test"),
        event("T9002", EventKind::DetectionChecked, "expected signal: synthetic — present: false"),
    ];
    let records = verify(&events);
    assert_eq!(records.len(), 1);
    assert_eq!(records[0].verdict, Verdict::Missed);
}

#[test]
fn verdicts_come_one_per_subject_in_byte_order() {
    let mut late = event("T1059", EventKind::ExecutionBlocked, EXECUTION_BLOCKED_DETAIL);
    late.timestamp = at(JAN_2025 + 5);
    let events = vec![
        event("T1078", EventKind::CapabilityDenied, "category T1078 is not listed"),
        event("T1059", EventKind::CapabilityGranted, "granted"),
        event("", EventKind::Verdict, "no subject"),
        late,
        event("SYNTH-0001", EventKind::ExecutionSucceeded, "wrote marker"),
    ];
    let records = verify(&events);
    let ids: Vec<&str> = records.iter().map(|r| r.technique_id.as_str()).collect();
    assert_eq!(ids, vec!["SYNTH-0001", "T1059", "T1078"]);
    assert_eq!(
        records[0].verdict,
        Verdict::Blocked { reason: "capability was granted but no detection check was recorded".to_string() }
    );
    assert_eq!(records[1].verdict, Verdict::Blocked { reason: EXECUTION_BLOCKED_DETAIL.to_string() });
    assert_eq!(records[1].timestamp, at(JAN_2025 + 5));
    assert_eq!(records[2].verdict, Verdict::Blocked { reason: "category T1078 is not listed".to_string() });
}

#[test]
fn a_subject_with_only_a_detection_check_is_blocked_for_lack_of_evidence() {
    let events = vec![event("T1078", EventKind::DetectionChecked, "present: true")];
    assert_eq!(
        verify(&events)[0].verdict,
        Verdict::Blocked { reason: "no capability decision or execution event found for this technique".to_string() }
    );
}

#[test]
fn failed_execution_blocks_even_after_a_positive_check() {
    let events = vec![
        event("SYNTH-0001", EventKind::ExecutionFailed, "sandbox construction error: boom"),
        event("SYNTH-0001", EventKind::DetectionChecked, "present: true"),
    ];
    assert_eq!(
        verify(&events)[0].verdict,
        Verdict::Blocked { reason: "sandbox construction error: boom".to_string() }
    );
}

#[test]
fn attempt_steps_follow_the_decision_and_source() {
    let denied = CapabilityDecision::Denied { reason: "no".to_string() };
    assert_eq!(
        attempt_step(&denied, SYNTHETIC_SOURCE, true),
        AttemptStep::Log { kind: EventKind::CapabilityDenied, detail: "no".to_string() }
    );
    assert_eq!(attempt_step(&CapabilityDecision::Granted, SYNTHETIC_SOURCE, true), AttemptStep::Execute);
    let blocked = AttemptStep::Log { kind: EventKind::ExecutionBlocked, detail: EXECUTION_BLOCKED_DETAIL.to_string() };
    assert_eq!(attempt_step(&CapabilityDecision::Granted, SYNTHETIC_SOURCE, false), blocked);
    assert_eq!(attempt_step(&CapabilityDecision::Granted, "atomic-red-team", true), blocked);
}

#[test]
fn execution_results_map_to_their_events() {
    let ok = Ok(ExecutionOutcome::Succeeded { detail: "wrote marker to x".to_string() });
    assert_eq!(execution_event(&ok), (EventKind::ExecutionSucceeded, "wrote marker to x".to_string()));
    let failed = Ok(ExecutionOutcome::Failed { detail: "denied".to_string() });
    assert_eq!(execution_event(&failed), (EventKind::ExecutionFailed, "denied".to_string()));
    let err: Result<ExecutionOutcome, String> = Err("no engine".to_string());
    assert_eq!(
        execution_event(&err),
        (EventKind::ExecutionFailed, "sandbox construction error: no engine".to_string())
    );
}

#[test]
fn marker_path_outside_workspace_root_is_denied_before_sandbox_construction() {
    let reason = "path /etc/x is outside the workspace root /workspace".to_string();
    let outcome = marker_precheck(&CapabilityDecision::Denied { reason: reason.clone() });
    match outcome {
        Some(ExecutionOutcome::Failed { detail }) => assert!(detail.contains("outside the workspace root"), "got: {detail}"),
        other => panic!("a marker path outside the workspace root must never succeed: {other:?}"),
    }
    assert_eq!(marker_precheck(&CapabilityDecision::Granted), None);
    assert_eq!(marker_written_detail("/lab/target/m.txt"), "wrote marker to /lab/target/m.txt");
}

#[test]
fn defender_signal_checks() {
    assert!(marker_matches(&Some(MARKER_CONTENT.to_string())));
    assert!(!marker_matches(&Some(format!("{MARKER_CONTENT}\n"))));
    assert!(!marker_matches(&None));
    assert!(signal_present("atomic-red-team", true, false));
    assert!(!signal_present(SYNTHETIC_SOURCE, true, false));
    assert!(signal_present(SYNTHETIC_SOURCE, true, true));
    assert!(!signal_present(SYNTHETIC_SOURCE, false, true));
    assert_eq!(
        expected_signal("T1059"),
        "a CapabilityGranted, CapabilityDenied, or ExecutionBlocked event for a Command and Scripting Interpreter attempt"
    );
    assert_eq!(
        detection_detail("T1078", false),
        "expected signal: a CapabilityGranted, CapabilityDenied, or ExecutionBlocked event for a Valid Accounts attempt — present: false"
    );
}

#[test]
fn referenced_event_is_the_latest_recognized_one_for_the_technique() {
    let events = vec![
        event("T1059", EventKind::CapabilityGranted, "first"),
        event("T1059", EventKind::ExecutionBlocked, "second"),
        event("T1059", EventKind::DetectionChecked, "not an attempt"),
        event("T1078", EventKind::CapabilityDenied, "other technique"),
    ];
    let found = referenced_event(&events, "T1059").expect("signal_present implies a referenced event");
    assert_eq!(found.detail, "second");
    assert!(referenced_event(&events, "never-attempted-guid").is_none());
}

#[test]
fn logged_attempt_is_seen_by_the_defender() {
    let step = attempt_step(&CapabilityDecision::Granted, "atomic-red-team", true);
    let AttemptStep::Log { kind, detail } = step else { panic!("a real technique never executes") };
    let events = vec![event("T1059", kind, &detail)];
    let seen = referenced_event(&events, "T1059").is_some();
    assert!(signal_present("atomic-red-team", seen, false));
}

#[test]
fn local_directory_target_is_the_first_declared_one() {
    let mut scope = valid_window_scope();
    assert_eq!(local_directory_target(&scope), None);
    let target = |id: &str, kind: &str, identifier: &str| Target {
        id: id.to_string(),
        kind: kind.to_string(),
        identifier: identifier.to_string(),
        description: String::new(),
    };
    scope.environment.targets = vec![
        target("vm", "virtual-machine", "10.0.0.1"),
        target("dir", "local-directory", "lab/target"),
        target("dir2", "local-directory", "lab/other"),
    ];
    assert_eq!(local_directory_target(&scope), Some("lab/target".to_string()));
}

fn atomic(name: &str, guid: &str, description: &str, platforms: &[&str], command: Option<&str>) -> AtomicTest {
    AtomicTest {
        name: name.to_string(),
        auto_generated_guid: guid.to_string(),
        description: description.to_string(),
        supported_platforms: strings(platforms),
        command: command.map(|c| c.to_string()),
    }
}

#[test]
fn atomics_become_techniques_skipping_manual_tests() {
    let tests = vec![
        atomic("first", "g-1", "  runs a shell\n", &["linux", "macos"], Some("echo one")),
        atomic("manual", "g-2", "do it by hand", &["windows"], None),
        atomic("third", "g-3", "no platform", &[], Some("  echo  three ")),
    ];
    let outcome = found_outcome("T1059", "T1059", &tests);
    assert!(!outcome.not_found_upstream);
    assert_eq!(outcome.techniques.len(), 2);
    let first = &outcome.techniques[0];
    assert_eq!(first.id, "T1059");
    assert_eq!(first.guid, "g-1");
    assert_eq!(first.description, "runs a shell");
    assert_eq!(first.platform, "linux");
    assert_eq!(first.source, "atomic-red-team");
    assert_eq!(first.test_command, "echo one");
    let third = &outcome.techniques[1];
    assert_eq!(third.guid, "g-3");
    assert_eq!(third.platform, "");
    assert_eq!(third.test_command, "  echo  three ");
}

#[test]
fn ingest_report_records_what_each_category_yielded() {
    let mut report = IngestReport::new();
    report.record_excluded("T1499");
    let none = report.record_fetch("T9999", not_found_outcome("T9999"));
    assert!(none.is_empty());
    let empty = report.record_fetch("T1078", found_outcome("T1078", "T1078", &Vec::new()));
    assert!(empty.is_empty());
    let tests = vec![atomic("a", "g-1", "d", &["linux"], Some("echo"))];
    let queued = report.record_fetch("T1059", found_outcome("T1059", "T1059", &tests));
    assert_eq!(queued.len(), 1);
    assert_eq!(report.excluded_by_scope, strings(&["T1499"]));
    assert_eq!(report.not_found_upstream, strings(&["T9999", "T1078"]));
    assert_eq!(report.ingested, queued);
}

#[test]
fn ingestion_needs_atomic_red_team_as_an_allowed_source() {
    let mut scope = valid_window_scope();
    assert_eq!(ingest_allowed(&scope), Ok(()));
    assert!(is_excluded(&scope, "T1499"));
    assert!(!is_excluded(&scope, "T1059"));
    scope.techniques.allowed_sources = strings(&["somewhere-else"]);
    assert_eq!(
        ingest_allowed(&scope),
        Err("atomic-red-team is not in lab/scope.toml's [techniques].allowed_sources — refusing to ingest".to_string())
    );
}

#[test]
fn trim_text_strips_unicode_whitespace_at_both_ends() {
    assert_eq!(trim_text("\u{3000} \t inner  text \n\u{a0}"), "inner  text");
    assert_eq!(trim_text("   "), "");
}

#[test]
fn defender_detail_decides_detected_or_missed() {
    for (present, expected) in [(true, Verdict::Detected), (false, Verdict::Missed)] {
        let events = vec![
            event("SYNTH-0001", EventKind::ExecutionSucceeded, "wrote marker to lab/target/m"),
            event("SYNTH-0001", EventKind::DetectionChecked, &detection_detail("SYNTH-0001", present)),
        ];
        assert_eq!(verify(&events)[0].verdict, expected);
    }
}

#[test]
fn ingested_techniques_never_carry_the_synthetic_source() {
    let tests = vec![atomic("a", "g-1", "d", &["linux"], Some("echo"))];
    let outcome = found_outcome("SYNTH-0001", "SYNTH-0001", &tests);
    assert!(outcome.techniques.iter().all(|t| t.source != SYNTHETIC_SOURCE));
}

#[test]
fn broker_grants_only_in_scope_and_in_window() {
    let scope = valid_window_scope();
    for category in ["T1059", "T1499", "T9999"] {
        for secs in [JAN_2020 - 1, JAN_2025, JAN_2100] {
            let granted = evaluate(&scope, category, None, at(secs)) == CapabilityDecision::Granted;
            assert_eq!(granted, scope.is_temporally_valid(at(secs)) && scope.allows_category(category));
        }
    }
}

fn scope_with_local_target() -> ScopeConfig {
    let mut scope = valid_window_scope();
    scope.environment.targets = vec![
        Target {
            id: "vm".to_string(),
            kind: "virtual-machine".to_string(),
            identifier: "10.0.0.1".to_string(),
            description: String::new(),
        },
        Target {
            id: "t1".to_string(),
            kind: "local-directory".to_string(),
            identifier: "lab/target".to_string(),
            description: String::new(),
        },
    ];
    scope
}

fn aimed_at(path: &str, resolved: Result<&str, &str>) -> TargetResolution {
    TargetResolution {
        path: path.to_string(),
        resolved: resolved.map(str::to_string).map_err(str::to_string),
        declared: vec![Err("not a local-directory target".to_string()), Ok("/ws/lab/target".to_string())],
    }
}

#[test]
fn target_inside_the_declared_directory_is_granted() {
    let scope = scope_with_local_target();
    let inside = aimed_at("/ws/lab/target", Ok("/ws/lab/target"));
    assert_eq!(evaluate(&scope, "T1059", Some(&inside), at(JAN_2025)), CapabilityDecision::Granted);
    let nested = aimed_at("/ws/lab/target/sub", Ok("/ws/lab/target/sub"));
    assert_eq!(evaluate(&scope, "T1059", Some(&nested), at(JAN_2025)), CapabilityDecision::Granted);
}

#[test]
fn target_escaping_the_declared_directory_is_denied_with_its_own_reason() {
    let scope = scope_with_local_target();
    let escaped = aimed_at("/ws/lab/target/link", Ok("/etc"));
    assert_eq!(
        evaluate(&scope, "T1059", Some(&escaped), at(JAN_2025)),
        CapabilityDecision::Denied {
            reason: "target path /ws/lab/target/link resolves to /etc which is outside every declared local-directory target in lab/scope.toml's [[environment.targets]]".to_string()
        }
    );
    let sibling = aimed_at("/ws/lab/target-2", Ok("/ws/lab/target-2"));
    assert!(matches!(evaluate(&scope, "T1059", Some(&sibling), at(JAN_2025)), CapabilityDecision::Denied { .. }));
    let missing = aimed_at("/ws/lab/target", Err("No such file or directory (os error 2)"));
    assert_eq!(
        evaluate(&scope, "T1059", Some(&missing), at(JAN_2025)),
        CapabilityDecision::Denied {
            reason: "target path /ws/lab/target could not be resolved: No such file or directory (os error 2)".to_string()
        }
    );
}

#[test]
fn a_target_only_matches_a_local_directory_declaration() {
    let scope = scope_with_local_target();
    let mut t = aimed_at("/vm", Ok("/vm"));
    t.declared = vec![Ok("/vm".to_string()), Err("unresolvable".to_string())];
    assert!(matches!(evaluate(&scope, "T1059", Some(&t), at(JAN_2025)), CapabilityDecision::Denied { .. }));
}

#[test]
fn scope_checks_come_before_the_target_check() {
    let scope = scope_with_local_target();
    let escaped = aimed_at("/x", Ok("/etc"));
    assert_eq!(
        evaluate(&scope, "T9999", Some(&escaped), at(JAN_2025)),
        CapabilityDecision::Denied {
            reason: "category T9999 is not listed in lab/scope.toml's [techniques].allowed_categories".to_string()
        }
    );
}
